//! Display-name extraction from fixed-width name fields.
//!
//! A module's name sits in a fixed-width field, space-padded and
//! NUL-terminated. The display name is the first whitespace-delimited
//! token, cut at the first NUL so no terminator leaks into a file name.

use vstd::prelude::*;

verus! {

/// ASCII whitespace, as the name fields use it.
pub open spec fn spec_is_ws(b: u8) -> bool {
    b == 0x20 || b == 0x09 || b == 0x0a || b == 0x0b || b == 0x0c || b == 0x0d
}

/// The first position at or after `i` holding a non-whitespace byte, or
/// the length of `s`.
pub open spec fn spec_skip_ws(s: Seq<u8>, i: int) -> int
    decreases s.len() - i when 0 <= i <= s.len()
{
    if i >= s.len() {
        s.len() as int
    } else if spec_is_ws(s[i]) {
        spec_skip_ws(s, i + 1)
    } else {
        i
    }
}

/// The first position at or after `i` holding whitespace or NUL, or the
/// length of `s`.
pub open spec fn spec_token_end(s: Seq<u8>, i: int) -> int
    decreases s.len() - i when 0 <= i <= s.len()
{
    if i >= s.len() {
        s.len() as int
    } else if spec_is_ws(s[i]) || s[i] == 0 {
        i
    } else {
        spec_token_end(s, i + 1)
    }
}

/// The display name of a fixed-width name field: skip leading whitespace,
/// then take bytes until whitespace, NUL, or the end of the field.
pub open spec fn spec_extract_name(s: Seq<u8>) -> Seq<u8> {
    s.subrange(spec_skip_ws(s, 0), spec_token_end(s, spec_skip_ws(s, 0)))
}

/// Bounds and content of [`spec_skip_ws`]: everything skipped was
/// whitespace, and the stop position is not whitespace unless it is the
/// end.
pub proof fn lemma_skip_ws(s: Seq<u8>, i: int)
    requires
        0 <= i <= s.len(),
    ensures
        i <= spec_skip_ws(s, i) <= s.len(),
        forall|j: int| i <= j < spec_skip_ws(s, i) ==> spec_is_ws(#[trigger] s[j]),
        spec_skip_ws(s, i) < s.len() ==> !spec_is_ws(s[spec_skip_ws(s, i)]),
    decreases s.len() - i,
{
    if i < s.len() && spec_is_ws(s[i]) {
        lemma_skip_ws(s, i + 1);
    }
}

/// Bounds and content of [`spec_token_end`]: everything before the stop
/// is neither whitespace nor NUL, and the stop holds one of the two
/// unless it is the end.
pub proof fn lemma_token_end(s: Seq<u8>, i: int)
    requires
        0 <= i <= s.len(),
    ensures
        i <= spec_token_end(s, i) <= s.len(),
        forall|j: int|
            i <= j < spec_token_end(s, i) ==> !spec_is_ws(#[trigger] s[j]) && s[j] != 0,
        spec_token_end(s, i) < s.len() ==> (spec_is_ws(s[spec_token_end(s, i)]) || s[spec_token_end(
            s,
            i,
        )] == 0),
    decreases s.len() - i,
{
    if i < s.len() && !(spec_is_ws(s[i]) || s[i] == 0) {
        lemma_token_end(s, i + 1);
    }
}

/// Name extraction idempotence law: extracting the display name from an
/// already-extracted name changes nothing.
pub proof fn lemma_extract_name_idempotent(s: Seq<u8>)
    ensures
        spec_extract_name(spec_extract_name(s)) == spec_extract_name(s),
{
    let a = spec_skip_ws(s, 0);
    lemma_skip_ws(s, 0);
    let b = spec_token_end(s, a);
    lemma_token_end(s, a);
    let r = spec_extract_name(s);
    assert(r.len() == b - a);
    assert forall|j: int| 0 <= j < r.len() implies !spec_is_ws(#[trigger] r[j]) && r[j] != 0 by {
        assert(r[j] == s[a + j]);
    }
    assert(spec_skip_ws(r, 0) == 0);
    lemma_token_end(r, 0);
    assert(spec_token_end(r, 0) == r.len());
    assert(spec_extract_name(r) =~= r);
}

/// Names without whitespace come back whole, up to the first NUL: for a
/// field with no whitespace byte, the display name is exactly the prefix
/// before the first NUL (the whole field if there is none).
pub proof fn lemma_extract_name_no_ws(s: Seq<u8>)
    requires
        forall|i: int| 0 <= i < s.len() ==> !spec_is_ws(#[trigger] s[i]),
    ensures
        spec_extract_name(s) == s.subrange(0, spec_token_end(s, 0)),
        forall|j: int| 0 <= j < spec_token_end(s, 0) ==> #[trigger] s[j] != 0,
        spec_token_end(s, 0) < s.len() ==> s[spec_token_end(s, 0)] == 0,
{
    assert(spec_skip_ws(s, 0) == 0);
    lemma_token_end(s, 0);
}

/// Extract the display name from a fixed-width name field.
pub fn extract_name(field: &[u8]) -> (r: Vec<u8>)
    ensures
        r@ == spec_extract_name(field@),
{
    let ghost s = field@;
    let n = field.len();
    let mut a: usize = 0;
    while a < n && (field[a] == 0x20 || field[a] == 0x09 || field[a] == 0x0a || field[a] == 0x0b
        || field[a] == 0x0c || field[a] == 0x0d)
        invariant
            0 <= a <= n,
            n == s.len(),
            s == field@,
            spec_skip_ws(s, 0) == spec_skip_ws(s, a as int),
        decreases n - a,
    {
        a += 1;
    }
    proof {
        assert(spec_skip_ws(s, 0) == a);
    }
    let mut b: usize = a;
    while b < n && !(field[b] == 0 || field[b] == 0x20 || field[b] == 0x09 || field[b] == 0x0a
        || field[b] == 0x0b || field[b] == 0x0c || field[b] == 0x0d)
        invariant
            a <= b <= n,
            n == s.len(),
            s == field@,
            spec_token_end(s, a as int) == spec_token_end(s, b as int),
        decreases n - b,
    {
        b += 1;
    }
    proof {
        assert(spec_token_end(s, a as int) == b);
    }
    crate::bytes::read_vec(field, a as u64, b - a).unwrap()
}

} // verus!
