//! Searching for a string among strings, character by character.
use vstd::prelude::*;

verus! {

/// The first index of `p` in `s`, when `p` occurs.
pub open spec fn first_index(s: Seq<Seq<char>>, p: Seq<char>) -> int {
    choose|i: int| 0 <= i < s.len() && s[i] == p && forall|j: int| 0 <= j < i ==> s[j] != p
}

/// The first index at which `path` occurs in `paths`, if it occurs.
pub(crate) fn position_of(paths: &Vec<String>, path: &str) -> (r: Option<usize>)
    ensures
        match r {
            Some(i) => i < paths@.len() && paths.deep_view().contains(path@) && i == first_index(
                paths.deep_view(),
                path@,
            ),
            None => !paths.deep_view().contains(path@),
        },
{
    let ghost s = paths.deep_view();
    let mut i: usize = 0;
    while i < paths.len()
        invariant
            i <= paths@.len(),
            s == paths.deep_view(),
            forall|j: int| 0 <= j < i ==> s[j] != path@,
        decreases paths@.len() - i,
    {
        if paths[i].as_str().unicode_len() == path.unicode_len() && same_text(paths[i].as_str(), path) {
            assert(s[i as int] == path@);
            assert(s.contains(path@));
            return Some(i);
        }
        i = i + 1;
    }
    None
}

/// Whether two strings hold the same characters.
pub(crate) fn same_text(a: &str, b: &str) -> (r: bool)
    requires
        a@.len() == b@.len(),
    ensures
        r == (a@ == b@),
{
    let n = a.unicode_len();
    let mut i: usize = 0;
    while i < n
        invariant
            n == a@.len(),
            a@.len() == b@.len(),
            i <= n,
            forall|j: int| 0 <= j < i ==> a@[j] == b@[j],
        decreases n - i,
    {
        if a.get_char(i) != b.get_char(i) {
            return false;
        }
        i = i + 1;
    }
    assert(a@ =~= b@);
    true
}

} // verus!
