//! Decisions on the user's typed answers and on a release tag.

use vstd::prelude::*;
use vstd::string::*;
use crate::exclusions::{blank, is_blank};

verus! {

/// `s` without its leading blanks.
pub open spec fn trim_start(s: Seq<char>) -> Seq<char>
    decreases s.len(),
{
    if s.len() > 0 && blank(s[0]) {
        trim_start(s.drop_first())
    } else {
        s
    }
}

/// `s` without its trailing blanks.
pub open spec fn trim_end(s: Seq<char>) -> Seq<char>
    decreases s.len(),
{
    if s.len() > 0 && blank(s.last()) {
        trim_end(s.drop_last())
    } else {
        s
    }
}

/// `s` without its leading and trailing blanks.
pub open spec fn trim(s: Seq<char>) -> Seq<char> {
    trim_end(trim_start(s))
}

proof fn lemma_trim_start_skip(s: Seq<char>, a: int)
    requires
        0 <= a <= s.len(),
        forall|j: int| 0 <= j < a ==> #[trigger] blank(s[j]),
    ensures
        trim_start(s) == trim_start(s.subrange(a, s.len() as int)),
    decreases a,
{
    if a == 0 {
        assert(s.subrange(0, s.len() as int) =~= s);
    } else {
        let t = s.drop_first();
        assert forall|j: int| 0 <= j < a - 1 implies #[trigger] blank(t[j]) by {
            assert(t[j] == s[j + 1]);
        }
        lemma_trim_start_skip(t, a - 1);
        assert(t.subrange(a - 1, t.len() as int) =~= s.subrange(a, s.len() as int));
    }
}

proof fn lemma_trim_end_skip(s: Seq<char>, b: int)
    requires
        0 <= b <= s.len(),
        forall|j: int| b <= j < s.len() ==> #[trigger] blank(s[j]),
    ensures
        trim_end(s) == trim_end(s.subrange(0, b)),
    decreases s.len() - b,
{
    if b == s.len() {
        assert(s.subrange(0, b) =~= s);
    } else {
        let t = s.drop_last();
        lemma_trim_end_skip(t, b);
        assert(t.subrange(0, b) =~= s.subrange(0, b));
    }
}

/// The characters of `s` without leading and trailing blanks.
pub fn trimmed(s: &str) -> (r: Vec<char>)
    ensures
        r@ == trim(s@),
{
    let n = s.unicode_len();
    let mut a: usize = 0;
    while a < n && is_blank(s.get_char(a))
        invariant
            a <= n == s@.len(),
            forall|j: int| 0 <= j < a ==> #[trigger] blank(s@[j]),
        decreases n - a,
    {
        a = a + 1;
    }
    proof {
        lemma_trim_start_skip(s@, a as int);
    }
    let ghost u = s@.subrange(a as int, n as int);
    assert(trim_start(u) == u);
    let mut b: usize = n;
    while b > a && is_blank(s.get_char(b - 1))
        invariant
            a <= b <= n == s@.len(),
            u == s@.subrange(a as int, n as int),
            forall|j: int| b - a <= j < u.len() ==> #[trigger] blank(u[j]),
        decreases b,
    {
        b = b - 1;
    }
    proof {
        lemma_trim_end_skip(u, b - a);
    }
    let mut r: Vec<char> = Vec::new();
    let mut i: usize = a;
    while i < b
        invariant
            a <= i <= b <= n == s@.len(),
            r@ == s@.subrange(a as int, i as int),
        decreases b - i,
    {
        r.push(s.get_char(i));
        i = i + 1;
    }
    assert(u.subrange(0, b - a) =~= r@);
    r
}

/// What the main menu does next.
#[derive(Debug, PartialEq, Eq, Structural, Clone, Copy)]
pub enum MenuChoice {
    /// Draw a boss.
    Boss,
    /// Draw a skill.
    Skill,
    /// Show every boss by category.
    ListBosses,
    /// Show the version and whether an update is out.
    Version,
    /// Leave the menu.
    Exit,
    /// Anything else; the menu asks again.
    Invalid,
}

/// The menu entry an answer selects: "1" to "5", blanks around it aside.
pub open spec fn menu_choice_of(s: Seq<char>) -> MenuChoice {
    let t = trim(s);
    if t.len() != 1 {
        MenuChoice::Invalid
    } else if t[0] == '1' {
        MenuChoice::Boss
    } else if t[0] == '2' {
        MenuChoice::Skill
    } else if t[0] == '3' {
        MenuChoice::ListBosses
    } else if t[0] == '4' {
        MenuChoice::Version
    } else if t[0] == '5' {
        MenuChoice::Exit
    } else {
        MenuChoice::Invalid
    }
}

/// The menu entry that the typed answer selects.
pub fn menu_choice(input: &str) -> (r: MenuChoice)
    ensures
        r == menu_choice_of(input@),
{
    let t = trimmed(input);
    if t.len() != 1 {
        MenuChoice::Invalid
    } else if t[0] == '1' {
        MenuChoice::Boss
    } else if t[0] == '2' {
        MenuChoice::Skill
    } else if t[0] == '3' {
        MenuChoice::ListBosses
    } else if t[0] == '4' {
        MenuChoice::Version
    } else if t[0] == '5' {
        MenuChoice::Exit
    } else {
        MenuChoice::Invalid
    }
}

/// Whether an answer is "yes", in any ASCII case, blanks around it aside.
pub open spec fn says_yes(s: Seq<char>) -> bool {
    let t = trim(s);
    &&& t.len() == 3
    &&& (t[0] == 'y' || t[0] == 'Y')
    &&& (t[1] == 'e' || t[1] == 'E')
    &&& (t[2] == 's' || t[2] == 'S')
}

/// Whether the answer to "exclude any categories?" is yes.
pub fn wants_exclusions(answer: &str) -> (r: bool)
    ensures
        r == says_yes(answer@),
{
    let t = trimmed(answer);
    t.len() == 3 && (t[0] == 'y' || t[0] == 'Y') && (t[1] == 'e' || t[1] == 'E') && (t[2] == 's'
        || t[2] == 'S')
}

} // verus!
