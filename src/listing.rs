//! Laying out a category's bosses as comma-separated lines of bounded width.

use vstd::prelude::*;
use vstd::string::*;

verus! {

/// The widest line, in characters, that the listing aims for.
pub const LINE_WIDTH: usize = 80;

/// The finished lines and the line being filled after laying out `items`.
/// An item starts a new line when the current one holds something and
/// adding ", " and the item would make it wider than `width`; a single item
/// wider than `width` still stands on a line of its own.
pub open spec fn layout(items: Seq<Seq<char>>, width: int) -> (Seq<Seq<char>>, Seq<char>)
    decreases items.len(),
{
    if items.len() == 0 {
        (Seq::empty(), Seq::empty())
    } else {
        let (lines, cur) = layout(items.drop_last(), width);
        let b = items.last();
        if cur.len() > 0 && cur.len() + b.len() + 2 > width {
            (lines.push(cur), b)
        } else if cur.len() == 0 {
            (lines, b)
        } else {
            (lines, cur + seq![',', ' '] + b)
        }
    }
}

/// All the lines that laying out `items` gives, the last one included when it holds something.
pub open spec fn wrapped(items: Seq<Seq<char>>, width: int) -> Seq<Seq<char>> {
    let (lines, cur) = layout(items, width);
    if cur.len() > 0 {
        lines.push(cur)
    } else {
        lines
    }
}

/// Lays out `items` as lines of comma-separated names no wider than `width`
/// where the names allow it.
pub fn wrap_names(items: &Vec<String>, width: usize) -> (r: Vec<String>)
    ensures
        r@.map_values(|s: String| s@) == wrapped(items@.map_values(|s: String| s@), width as int),
{
    let ghost all = items@.map_values(|s: String| s@);
    let mut lines: Vec<String> = Vec::new();
    let mut cur = String::new();
    let mut i: usize = 0;
    while i < items.len()
        invariant
            i <= items@.len(),
            all == items@.map_values(|s: String| s@),
            layout(all.take(i as int), width as int) == (lines@.map_values(|s: String| s@), cur@),
        decreases items@.len() - i,
    {
        let b = items[i].as_str();
        assert(all.take(i + 1).drop_last() =~= all.take(i as int));
        assert(all.take(i + 1).last() == b@);
        let cur_len = cur.as_str().unicode_len();
        let b_len = b.unicode_len();
        let ghost before = lines@;
        if cur_len > 0 && cur_len as u128 + b_len as u128 + 2 > width as u128 {
            lines.push(cur);
            assert(lines@.map_values(|s: String| s@) =~= before.map_values(|s: String| s@).push(
                lines@.last()@,
            ));
            cur = String::from_str(b);
        } else if cur_len == 0 {
            cur = String::from_str(b);
        } else {
            cur.append(", ");
            proof {
                reveal_strlit(", ");
            }
            cur.append(b);
            assert(cur@ =~= (layout(all.take(i as int), width as int).1 + seq![',', ' '] + b@));
        }
        i = i + 1;
    }
    assert(all.take(items@.len() as int) =~= all);
    if cur.as_str().unicode_len() > 0 {
        let ghost before = lines@;
        lines.push(cur);
        assert(lines@.map_values(|s: String| s@) =~= before.map_values(|s: String| s@).push(
            lines@.last()@,
        ));
    }
    lines
}

} // verus!
