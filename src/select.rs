//! Random selection: a category uniformly among those not excluded, then an
//! item uniformly within it; and a skill uniformly from the flat list.

use vstd::prelude::*;
use crate::catalog::{Catalog, CategoryModel, skill_table, skills};
use crate::random::draw_below;

verus! {

/// A boss chosen to fight, with the category it was drawn from.
#[derive(Debug, Clone, PartialEq, Eq)]
pub struct BossPick {
    pub category: String,
    pub boss: String,
}

/// Why no boss could be chosen.
#[derive(Debug, PartialEq, Eq, Structural)]
pub enum SelectError {
    /// Every category was excluded.
    AllExcluded,
}

/// Whether the category at position `i` is excluded, exclusions naming
/// categories by their 1-based display index.
pub open spec fn excluded(exclusions: Seq<usize>, i: int) -> bool {
    exists|k: int| 0 <= k < exclusions.len() && exclusions[k] as int == i + 1
}

/// The positions below `n` that are not excluded, in increasing order.
pub open spec fn candidates(n: nat, exclusions: Seq<usize>) -> Seq<int>
    decreases n,
{
    if n == 0 {
        Seq::empty()
    } else {
        let before = candidates((n - 1) as nat, exclusions);
        if excluded(exclusions, n - 1) {
            before
        } else {
            before.push(n - 1)
        }
    }
}

/// The (category, item) names that the draws `category_draw` and `item_draw` select.
pub open spec fn pick_model(
    m: Seq<CategoryModel>,
    cands: Seq<int>,
    category_draw: int,
    item_draw: int,
) -> (Seq<char>, Seq<char>) {
    let c = cands[category_draw];
    (m[c].0, m[c].1[item_draw])
}

/// The candidates are the non-excluded positions below `n`, each once, in increasing order.
pub proof fn lemma_candidates(n: nat, exclusions: Seq<usize>)
    ensures
        forall|k: int|
            0 <= k < candidates(n, exclusions).len() ==> 0 <= #[trigger] candidates(n, exclusions)[k] < n
                && !excluded(exclusions, candidates(n, exclusions)[k]),
        forall|k: int, l: int|
            0 <= k < l < candidates(n, exclusions).len() ==> #[trigger] candidates(n, exclusions)[k]
                < #[trigger] candidates(n, exclusions)[l],
        forall|i: int|
            0 <= i < n && !excluded(exclusions, i) ==> #[trigger] candidates(n, exclusions).contains(i),
    decreases n,
{
    if n > 0 {
        lemma_candidates((n - 1) as nat, exclusions);
        let before = candidates((n - 1) as nat, exclusions);
        assert forall|i: int|
            0 <= i < n && !excluded(exclusions, i) implies #[trigger] candidates(n, exclusions).contains(i) by {
            if i < n - 1 {
                assert(before.contains(i));
                let k = choose|k: int| 0 <= k < before.len() && before[k] == i;
                assert(candidates(n, exclusions)[k] == i);
            } else {
                assert(candidates(n, exclusions)[before.len() as int] == i);
            }
        }
    }
}

/// No candidate is left exactly when every category is excluded.
pub proof fn lemma_no_candidates(n: nat, exclusions: Seq<usize>)
    ensures
        candidates(n, exclusions).len() == 0 <==> forall|i: int| 0 <= i < n ==> #[trigger] excluded(exclusions, i),
{
    lemma_candidates(n, exclusions);
    let c = candidates(n, exclusions);
    if c.len() == 0 {
        assert forall|i: int| 0 <= i < n implies #[trigger] excluded(exclusions, i) by {
            if !excluded(exclusions, i) {
                assert(c.contains(i));
            }
        }
    } else {
        assert(0 <= c[0] < n && !excluded(exclusions, c[0]));
    }
}

/// Each category that is not excluded is selected by exactly one value of the
/// category draw, whatever the number of its items: a uniform category draw
/// makes every remaining category equally likely.
pub proof fn lemma_category_draw_uniform(n: nat, exclusions: Seq<usize>, c: int)
    requires
        0 <= c < n,
        !excluded(exclusions, c),
    ensures
        exists|k: int|
            0 <= k < candidates(n, exclusions).len() && candidates(n, exclusions)[k] == c && forall|l: int|
                0 <= l < candidates(n, exclusions).len() && #[trigger] candidates(n, exclusions)[l] == c ==> l == k,
{
    lemma_candidates(n, exclusions);
    let cs = candidates(n, exclusions);
    assert(cs.contains(c));
    let k = choose|k: int| 0 <= k < cs.len() && cs[k] == c;
    assert forall|l: int| 0 <= l < cs.len() && #[trigger] cs[l] == c implies l == k by {
        if l < k {
            assert(cs[l] < cs[k]);
        } else if l > k {
            assert(cs[k] < cs[l]);
        }
    }
}

/// Exclusions that name no category (0, or past the last display index) leave every category.
pub proof fn lemma_out_of_range_exclusions_ignored(n: nat, exclusions: Seq<usize>)
    requires
        forall|k: int| 0 <= k < exclusions.len() ==> #[trigger] exclusions[k] == 0 || exclusions[k] > n,
    ensures
        candidates(n, exclusions) == candidates(n, Seq::<usize>::empty()),
    decreases n,
{
    if n > 0 {
        lemma_out_of_range_exclusions_ignored((n - 1) as nat, exclusions);
        assert(!excluded(exclusions, n - 1));
        assert(!excluded(Seq::<usize>::empty(), n - 1));
    }
}

/// Whether `exclusions` holds the display index `index`.
fn holds_index(exclusions: &Vec<usize>, index: usize) -> (r: bool)
    ensures
        r == exists|k: int| 0 <= k < exclusions@.len() && exclusions@[k] == index,
{
    let mut k: usize = 0;
    while k < exclusions.len()
        invariant
            k <= exclusions@.len(),
            forall|l: int| 0 <= l < k ==> exclusions@[l] != index,
        decreases exclusions@.len() - k,
    {
        if exclusions[k] == index {
            return true;
        }
        k = k + 1;
    }
    false
}

/// The positions of the categories among `count` that `exclusions` leaves,
/// in increasing order; exclusions that name no category are ignored.
pub fn candidate_indices(count: usize, exclusions: &Vec<usize>) -> (r: Vec<usize>)
    ensures
        r@.map_values(|i: usize| i as int) == candidates(count as nat, exclusions@),
{
    let mut r: Vec<usize> = Vec::new();
    let mut i: usize = 0;
    while i < count
        invariant
            i <= count,
            r@.map_values(|i: usize| i as int) == candidates(i as nat, exclusions@),
        decreases count - i,
    {
        let ghost before = r@;
        if !holds_index(exclusions, i + 1) {
            r.push(i);
            assert(r@.map_values(|i: usize| i as int) =~= before.map_values(|i: usize| i as int).push(i as int));
        }
        i = i + 1;
    }
    r
}

/// The boss that the two draws select: the category at position
/// `category_draw` among `cands`, then its item at `item_draw`.
pub fn pick_from(catalog: &Catalog, cands: &Vec<usize>, category_draw: usize, item_draw: usize) -> (r: BossPick)
    requires
        catalog.wf(),
        forall|k: int| 0 <= k < cands@.len() ==> #[trigger] cands@[k] < catalog@.len(),
        category_draw < cands@.len(),
        item_draw < catalog@[cands@[category_draw as int] as int].1.len(),
    ensures
        (r.category@, r.boss@) == pick_model(
            catalog@,
            cands@.map_values(|i: usize| i as int),
            category_draw as int,
            item_draw as int,
        ),
{
    let c = cands[category_draw];
    let category = &catalog.categories[c];
    assert(category@ == catalog@[c as int]);
    BossPick { category: category.name.clone(), boss: category.items[item_draw].clone() }
}

/// Draws a boss: a category uniformly among those that `exclusions` leaves
/// (1-based display indices; those that name no category are ignored), then
/// an item uniformly within it. Fails exactly when every category is excluded.
pub fn choose_boss(catalog: &Catalog, exclusions: &Vec<usize>, rng: &mut rand::rngs::StdRng) -> (r: Result<
    BossPick,
    SelectError,
>)
    requires
        catalog.wf(),
    ensures
        r is Err <==> forall|i: int| 0 <= i < catalog@.len() ==> #[trigger] excluded(exclusions@, i),
        r is Err ==> r == Err::<BossPick, SelectError>(SelectError::AllExcluded),
        r matches Ok(p) ==> exists|c: int, j: int|
            0 <= c < catalog@.len() && !excluded(exclusions@, c) && 0 <= j < catalog@[c].1.len()
                && p.category@ == catalog@[c].0 && #[trigger] catalog@[c].1[j] == p.boss@,
{
    let n = catalog.categories.len();
    let cands = candidate_indices(n, exclusions);
    proof {
        lemma_candidates(n as nat, exclusions@);
        lemma_no_candidates(n as nat, exclusions@);
    }
    let ghost cs = cands@.map_values(|i: usize| i as int);
    if cands.len() == 0 {
        return Err(SelectError::AllExcluded);
    }
    let k = draw_below(rng, cands.len());
    assert(cs[k as int] == cands@[k as int]);
    let c = cands[k];
    assert(catalog@[c as int].1.len() > 0);
    let j = draw_below(rng, catalog.categories[c].items.len());
    assert(catalog.categories@[c as int]@ == catalog@[c as int]);
    assert forall|l: int| 0 <= l < cands@.len() implies #[trigger] cands@[l] < catalog@.len() by {
        assert(cs[l] == cands@[l]);
    }
    let p = pick_from(catalog, &cands, k, j);
    assert(catalog@[c as int].1[j as int] == p.boss@);
    Ok(p)
}

/// The skill at position `draw` of the built-in list.
pub fn skill_at(draw: usize) -> (r: String)
    requires
        draw < skill_table().len(),
    ensures
        r@ == skill_table()[draw as int],
{
    let list = skills();
    assert(list@.map_values(|s: String| s@)[draw as int] == list@[draw as int]@);
    list[draw].clone()
}

/// Draws a skill uniformly from the flat built-in list, each skill with the same chance.
pub fn choose_skill(rng: &mut rand::rngs::StdRng) -> (r: String)
    ensures
        skill_table().contains(r@),
{
    let list = skills();
    assert(list@.len() == list@.map_values(|s: String| s@).len());
    let k = draw_below(rng, list.len());
    let r = skill_at(k);
    assert(skill_table()[k as int] == r@);
    r
}

} // verus!
