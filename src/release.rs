//! Whether a published release is newer than the running build.

use vstd::prelude::*;
use vstd::string::*;
use crate::exclusions::is_digit;

verus! {

/// Outcome of asking for the latest published release.
#[derive(Debug, Clone, PartialEq, Eq)]
pub enum UpdateStatus {
    /// The running build is the latest release.
    UpToDate,
    /// A different release is published; it holds its version.
    UpdateAvailable(String),
    /// The release could not be fetched or read; it holds the reason.
    CheckFailed(String),
}

/// A tag without its leading `v`s.
pub open spec fn strip_v(s: Seq<char>) -> Seq<char>
    decreases s.len(),
{
    if s.len() > 0 && s[0] == 'v' {
        strip_v(s.drop_first())
    } else {
        s
    }
}

/// A timestamp version: more than eight characters, all decimal digits.
pub open spec fn is_timestamp(v: Seq<char>) -> bool {
    v.len() > 8 && forall|i: int| 0 <= i < v.len() ==> #[trigger] is_digit(v[i])
}

/// A release tag names an update when, its leading `v`s aside, it is not a
/// timestamp and differs from the running version.
pub open spec fn names_update(tag: Seq<char>, current: Seq<char>) -> bool {
    let v = strip_v(tag);
    !is_timestamp(v) && v != current
}

proof fn lemma_strip_v_skip(s: Seq<char>, a: int)
    requires
        0 <= a <= s.len(),
        forall|j: int| 0 <= j < a ==> #[trigger] s[j] == 'v',
    ensures
        strip_v(s) == strip_v(s.subrange(a, s.len() as int)),
    decreases a,
{
    if a == 0 {
        assert(s.subrange(0, s.len() as int) =~= s);
    } else {
        let t = s.drop_first();
        assert forall|j: int| 0 <= j < a - 1 implies #[trigger] t[j] == 'v' by {
            assert(t[j] == s[j + 1]);
        }
        lemma_strip_v_skip(t, a - 1);
        assert(t.subrange(a - 1, t.len() as int) =~= s.subrange(a, s.len() as int));
    }
}

/// Whether two strings hold the same characters.
fn same_chars(a: &str, b: &str) -> (r: bool)
    ensures
        r == (a@ == b@),
{
    let n = a.unicode_len();
    if n != b.unicode_len() {
        return false;
    }
    let mut i: usize = 0;
    while i < n
        invariant
            i <= n == a@.len() == b@.len(),
            forall|j: int| 0 <= j < i ==> a@[j] == b@[j],
        decreases n - i,
    {
        if a.get_char(i) != b.get_char(i) {
            return false;
        }
        i = i + 1;
    }
    assert(a@ =~= b@);
    true
}

/// The status that the latest release's tag gives for the running version `current`.
pub fn update_status(latest_tag: &str, current: &str) -> (r: UpdateStatus)
    ensures
        names_update(latest_tag@, current@) ==> (r matches UpdateStatus::UpdateAvailable(v) && v@
            == strip_v(latest_tag@)),
        !names_update(latest_tag@, current@) ==> r is UpToDate,
{
    let n = latest_tag.unicode_len();
    let mut a: usize = 0;
    while a < n && latest_tag.get_char(a) == 'v'
        invariant
            a <= n == latest_tag@.len(),
            forall|j: int| 0 <= j < a ==> #[trigger] latest_tag@[j] == 'v',
        decreases n - a,
    {
        a = a + 1;
    }
    proof {
        lemma_strip_v_skip(latest_tag@, a as int);
    }
    let latest = latest_tag.substring_char(a, n);
    assert(strip_v(latest@) == latest@);
    let m = n - a;
    let mut all_digits = true;
    let mut i: usize = 0;
    while i < m
        invariant
            i <= m == latest@.len(),
            all_digits == forall|j: int| 0 <= j < i ==> #[trigger] is_digit(latest@[j]),
        decreases m - i,
    {
        let c = latest.get_char(i);
        assert(is_digit(latest@[i as int]) == ('0' <= c && c <= '9'));
        if !('0' <= c && c <= '9') {
            all_digits = false;
        }
        i = i + 1;
    }
    if m > 8 && all_digits {
        UpdateStatus::UpToDate
    } else if same_chars(latest, current) {
        UpdateStatus::UpToDate
    } else {
        UpdateStatus::UpdateAvailable(String::from_str(latest))
    }
}

} // verus!
