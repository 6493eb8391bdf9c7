//! Reading the categories to exclude from a line of text: whitespace-separated
//! 1-based display indices. Tokens that are not numbers, or name no category,
//! are ignored.

use vstd::prelude::*;
use vstd::string::*;

verus! {

/// Unicode White_Space, the characters that separate tokens.
pub open spec fn blank(c: char) -> bool {
    ('\u{9}' <= c && c <= '\u{d}') || c == ' ' || c == '\u{85}' || c == '\u{a0}' || c == '\u{1680}'
        || ('\u{2000}' <= c && c <= '\u{200a}') || c == '\u{2028}' || c == '\u{2029}' || c == '\u{202f}'
        || c == '\u{205f}' || c == '\u{3000}'
}

/// Whether `c` separates tokens.
pub fn is_blank(c: char) -> (r: bool)
    ensures
        r == blank(c),
{
    ('\u{9}' <= c && c <= '\u{d}') || c == ' ' || c == '\u{85}' || c == '\u{a0}' || c == '\u{1680}'
        || ('\u{2000}' <= c && c <= '\u{200a}') || c == '\u{2028}' || c == '\u{2029}' || c == '\u{202f}'
        || c == '\u{205f}' || c == '\u{3000}'
}

/// The maximal runs of non-blank characters of `s`, in order.
pub open spec fn tokens(s: Seq<char>) -> Seq<Seq<char>>
    decreases s.len(),
{
    if s.len() == 0 {
        Seq::empty()
    } else {
        let before = tokens(s.drop_last());
        let c = s.last();
        if blank(c) {
            before
        } else if s.len() >= 2 && !blank(s[s.len() - 2]) {
            before.update(before.len() - 1, before.last().push(c))
        } else {
            before.push(seq![c])
        }
    }
}

/// An ASCII decimal digit.
pub open spec fn is_digit(c: char) -> bool {
    '0' <= c && c <= '9'
}

pub open spec fn digit_value(c: char) -> int {
    if is_digit(c) {
        (c as u32) - ('0' as u32)
    } else {
        0
    }
}

/// The number that the decimal digits `d` write.
pub open spec fn decimal(d: Seq<char>) -> int
    decreases d.len(),
{
    if d.len() == 0 {
        0
    } else {
        decimal(d.drop_last()) * 10 + digit_value(d.last())
    }
}

/// The digits of a token, past one optional leading `+`.
pub open spec fn digits_of(t: Seq<char>) -> Seq<char> {
    if t.len() > 0 && t[0] == '+' {
        t.drop_first()
    } else {
        t
    }
}

/// The unsigned number a token writes, if it writes one.
pub open spec fn token_value(t: Seq<char>) -> Option<int> {
    let d = digits_of(t);
    if d.len() > 0 && forall|i: int| 0 <= i < d.len() ==> #[trigger] is_digit(d[i]) {
        Some(decimal(d))
    } else {
        None
    }
}

/// The display index a token names among `count` categories, if any.
pub open spec fn index_of_token(t: Seq<char>, count: nat) -> Option<usize> {
    match token_value(t) {
        Some(v) => if 1 <= v <= count {
            Some(v as usize)
        } else {
            None
        },
        None => None,
    }
}

/// The display indices that the tokens name, in order.
pub open spec fn named_indices(toks: Seq<Seq<char>>, count: nat) -> Seq<usize>
    decreases toks.len(),
{
    if toks.len() == 0 {
        Seq::empty()
    } else {
        let before = named_indices(toks.drop_last(), count);
        match index_of_token(toks.last(), count) {
            Some(v) => before.push(v),
            None => before,
        }
    }
}

proof fn lemma_decimal_nonneg(d: Seq<char>)
    ensures
        decimal(d) >= 0,
    decreases d.len(),
{
    if d.len() > 0 {
        lemma_decimal_nonneg(d.drop_last());
    }
}

proof fn lemma_decimal_prefix(d: Seq<char>, k: int)
    requires
        0 <= k <= d.len(),
    ensures
        decimal(d.take(k)) <= decimal(d),
    decreases d.len(),
{
    if k < d.len() {
        lemma_decimal_prefix(d.drop_last(), k);
        assert(d.drop_last().take(k) =~= d.take(k));
        lemma_decimal_nonneg(d.drop_last());
    } else {
        assert(d.take(k) =~= d);
    }
}

/// The display index that the token `t` names among `count` categories, if any.
fn token_index(t: &Vec<char>, count: usize) -> (r: Option<usize>)
    ensures
        r == index_of_token(t@, count as nat),
{
    let n = t.len();
    let start: usize = if n > 0 && t[0] == '+' {
        1
    } else {
        0
    };
    let ghost d = digits_of(t@);
    assert(d =~= t@.subrange(start as int, n as int));
    if start == n {
        return None;
    }
    let mut acc: u128 = 0;
    let mut i: usize = start;
    while i < n
        invariant
            start <= i <= n == t@.len(),
            d == t@.subrange(start as int, n as int),
            d == digits_of(t@),
            acc == decimal(d.take(i - start)),
            acc <= count,
            forall|j: int| 0 <= j < i - start ==> #[trigger] is_digit(d[j]),
        decreases n - i,
    {
        let c = t[i];
        assert(c == d[i - start]);
        if !('0' <= c && c <= '9') {
            assert(!is_digit(d[i - start]));
            return None;
        }
        let next: u128 = acc * 10 + ((c as u32) - ('0' as u32)) as u128;
        assert(d.take(i + 1 - start).drop_last() =~= d.take(i - start));
        assert(decimal(d.take(i + 1 - start)) == next);
        if next > count as u128 {
            proof {
                lemma_decimal_prefix(d, i + 1 - start);
            }
            return None;
        }
        acc = next;
        i = i + 1;
    }
    assert(d.take(n - start) =~= d);
    if acc == 0 {
        None
    } else {
        Some(acc as usize)
    }
}

/// The display indices that `input` names among `count` categories, in the
/// order written. A token names an index when it is an unsigned decimal
/// number (one leading `+` allowed) between 1 and `count`; other tokens are
/// ignored.
pub fn parse_exclusions(input: &str, count: usize) -> (r: Vec<usize>)
    ensures
        r@ == named_indices(tokens(input@), count as nat),
        forall|k: int| 0 <= k < r@.len() ==> 1 <= #[trigger] r@[k] <= count,
{
    let ghost s = input@;
    let n = input.unicode_len();
    let mut r: Vec<usize> = Vec::new();
    let mut cur: Vec<char> = Vec::new();
    let ghost mut done: Seq<Seq<char>> = Seq::empty();
    let mut i: usize = 0;
    while i < n
        invariant
            i <= n == s.len(),
            s == input@,
            tokens(s.take(i as int)) == if cur@.len() > 0 {
                done.push(cur@)
            } else {
                done
            },
            cur@.len() > 0 <==> (i > 0 && !blank(s[i - 1])),
            r@ == named_indices(done, count as nat),
        decreases n - i,
    {
        let c = input.get_char(i);
        assert(s.take(i + 1).drop_last() =~= s.take(i as int));
        assert(s.take(i + 1).last() == c);
        if is_blank(c) {
            if cur.len() > 0 {
                let v = token_index(&cur, count);
                proof {
                    assert(done.push(cur@).drop_last() =~= done);
                    done = done.push(cur@);
                }
                match v {
                    Some(x) => r.push(x),
                    None => {},
                }
                cur = Vec::new();
            }
        } else {
            let ghost before = cur@;
            cur.push(c);
            proof {
                if before.len() == 0 {
                    assert(cur@ =~= seq![c]);
                } else {
                    assert(s.take(i + 1)[i - 1] == s[i - 1]);
                    assert(done.push(before).update(done.len() as int, before.push(c)) =~= done.push(cur@));
                }
            }
        }
        i = i + 1;
    }
    assert(s.take(n as int) =~= s);
    if cur.len() > 0 {
        let v = token_index(&cur, count);
        proof {
            assert(done.push(cur@).drop_last() =~= done);
            done = done.push(cur@);
        }
        match v {
            Some(x) => r.push(x),
            None => {},
        }
    }
    proof {
        lemma_named_indices_in_range(done, count as nat);
    }
    r
}

/// Every index that tokens name lies between 1 and `count`.
pub proof fn lemma_named_indices_in_range(toks: Seq<Seq<char>>, count: nat)
    requires
        count <= usize::MAX,
    ensures
        forall|k: int|
            0 <= k < named_indices(toks, count).len() ==> 1 <= #[trigger] named_indices(toks, count)[k] <= count,
    decreases toks.len(),
{
    if toks.len() > 0 {
        lemma_named_indices_in_range(toks.drop_last(), count);
        let before = named_indices(toks.drop_last(), count);
        match token_value(toks.last()) {
            Some(v) => {
                if 1 <= v <= count {
                    assert(named_indices(toks, count) == before.push(v as usize));
                }
            },
            None => {},
        }
    }
}

/// Tokens that name no category (not a number, 0, or past the last display
/// index) exclude nothing: the result is the same as for an empty line.
pub proof fn lemma_unusable_tokens_exclude_nothing(input: Seq<char>, count: nat)
    requires
        forall|k: int| 0 <= k < tokens(input).len() ==> #[trigger] index_of_token(tokens(input)[k], count) is None,
    ensures
        named_indices(tokens(input), count) == named_indices(tokens(Seq::<char>::empty()), count),
{
    lemma_no_named_indices(tokens(input), count);
}

proof fn lemma_no_named_indices(toks: Seq<Seq<char>>, count: nat)
    requires
        forall|k: int| 0 <= k < toks.len() ==> #[trigger] index_of_token(toks[k], count) is None,
    ensures
        named_indices(toks, count) == Seq::<usize>::empty(),
    decreases toks.len(),
{
    if toks.len() > 0 {
        let t = toks.drop_last();
        assert forall|k: int| 0 <= k < t.len() implies #[trigger] index_of_token(t[k], count) is None by {
            assert(t[k] == toks[k]);
        }
        lemma_no_named_indices(t, count);
        assert(index_of_token(toks[toks.len() - 1], count) is None);
    }
}

} // verus!
