//! Substring search over the firmware blob.
//!
//! The legacy module table is anchored by literal byte tokens; finding
//! them is delegated to an outside search routine whose contract — first
//! occurrence or nothing — is stated here.

use crate::bytes::matches_at;
use vstd::prelude::*;

verus! {

/// The least position at or after `i` where `n` occurs in `h`, or `None`.
pub open spec fn spec_first_match_from(h: Seq<u8>, n: Seq<u8>, i: int) -> Option<int>
    decreases h.len() + 1 - i when 0 <= i
{
    if !(0 <= i && i + n.len() <= h.len()) {
        None
    } else if matches_at(h, n, i) {
        Some(i)
    } else {
        spec_first_match_from(h, n, i + 1)
    }
}

/// The least position where `n` occurs in `h`, or `None`.
pub open spec fn spec_first_match(h: Seq<u8>, n: Seq<u8>) -> Option<int> {
    spec_first_match_from(h, n, 0)
}

/// A match with nothing before it is the first match.
pub proof fn lemma_first_match_some(h: Seq<u8>, n: Seq<u8>, i: int, j: int)
    requires
        0 <= j <= i,
        matches_at(h, n, i),
        forall|m: int| j <= m < i ==> !matches_at(h, n, m),
    ensures
        spec_first_match_from(h, n, j) == Some(i),
    decreases i - j,
{
    if j < i {
        assert(!matches_at(h, n, j));
        lemma_first_match_some(h, n, i, j + 1);
    }
}

/// No match anywhere means no first match.
pub proof fn lemma_first_match_none(h: Seq<u8>, n: Seq<u8>, j: int)
    requires
        0 <= j,
        forall|m: int| !matches_at(h, n, m),
    ensures
        spec_first_match_from(h, n, j) == None::<int>,
    decreases h.len() + 1 - j,
{
    if 0 <= j && j + n.len() <= h.len() {
        lemma_first_match_none(h, n, j + 1);
    }
}

/// Relies on memchr::memmem::find: returns the index of the first
/// occurrence of `needle` in `haystack`, or `None` when `needle` occurs
/// nowhere in it.
#[verifier::external_body]
pub(crate) fn find_bytes(haystack: &[u8], needle: &[u8]) -> (r: Option<usize>)
    ensures
        match r {
            Some(i) => matches_at(haystack@, needle@, i as int) && forall|j: int|
                0 <= j < i ==> !matches_at(haystack@, needle@, j),
            None => forall|j: int| !matches_at(haystack@, needle@, j),
        },
{
    memchr::memmem::find(haystack, needle)
}

/// Find the first occurrence of `needle` in `haystack`, pinned to the
/// spec-level first match.
pub fn first_match(haystack: &[u8], needle: &[u8]) -> (r: Option<usize>)
    ensures
        match r {
            Some(i) => spec_first_match(haystack@, needle@) == Some(i as int) && matches_at(
                haystack@,
                needle@,
                i as int,
            ),
            None => spec_first_match(haystack@, needle@) == None::<int>,
        },
{
    let r = find_bytes(haystack, needle);
    proof {
        match r {
            Some(i) => lemma_first_match_some(haystack@, needle@, i as int, 0),
            None => lemma_first_match_none(haystack@, needle@, 0),
        }
    }
    r
}

} // verus!
