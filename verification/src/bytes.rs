//! Bounds-checked reads and writes of little-endian fields in a byte buffer.
//!
//! Every structure decode in this crate goes through these functions: a read
//! that would leave the buffer yields `None` instead of a panic, and the
//! specification of each accepted read pins the value to the exact byte
//! range it came from.

use vstd::bytes::{
    spec_u16_from_le_bytes, spec_u32_from_le_bytes, spec_u32_to_le_bytes, spec_u64_from_le_bytes,
    spec_u64_to_le_bytes, u16_from_le_bytes, u32_from_le_bytes, u32_to_le_bytes, u64_from_le_bytes,
    u64_to_le_bytes,
};
use vstd::prelude::*;
use vstd::slice::slice_subrange;

verus! {

/// The byte range `[off, off + n)` lies inside `s`.
pub open spec fn readable(s: Seq<u8>, off: int, n: int) -> bool {
    0 <= off && 0 <= n && off + n <= s.len()
}

/// The little-endian `u16` held at `s[off..off + 2]`.
pub open spec fn le16(s: Seq<u8>, off: int) -> u16 {
    spec_u16_from_le_bytes(s.subrange(off, off + 2))
}

/// The little-endian `u32` held at `s[off..off + 4]`.
pub open spec fn le32(s: Seq<u8>, off: int) -> u32 {
    spec_u32_from_le_bytes(s.subrange(off, off + 4))
}

/// The little-endian `u64` held at `s[off..off + 8]`.
pub open spec fn le64(s: Seq<u8>, off: int) -> u64 {
    spec_u64_from_le_bytes(s.subrange(off, off + 8))
}

/// `pat` occurs in `h` at position `i`.
pub open spec fn matches_at(h: Seq<u8>, pat: Seq<u8>, i: int) -> bool {
    0 <= i && i + pat.len() <= h.len() && h.subrange(i, i + pat.len()) == pat
}

/// `s` with the bytes of `d` laid over the range starting at `off`;
/// bytes outside that range keep their old value.
pub open spec fn spec_splice(s: Seq<u8>, off: int, d: Seq<u8>) -> Seq<u8> {
    s.map(|i: int, b: u8| if off <= i && i < off + d.len() { d[i - off] } else { b })
}

/// `n` zero bytes.
pub open spec fn zero_bytes(n: int) -> Seq<u8> {
    Seq::new(n as nat, |i: int| 0u8)
}

/// Read the little-endian `u16` at `off`, or `None` if the field would
/// leave the buffer.
pub fn read_u16(b: &[u8], off: u64) -> (r: Option<u16>)
    ensures
        match r {
            Some(x) => readable(b@, off as int, 2) && x == le16(b@, off as int),
            None => !readable(b@, off as int, 2),
        },
{
    if off <= b.len() as u64 && b.len() as u64 - off >= 2 {
        let o = off as usize;
        Some(u16_from_le_bytes(slice_subrange(b, o, o + 2)))
    } else {
        None
    }
}

/// Read the little-endian `u32` at `off`, or `None` if the field would
/// leave the buffer.
pub fn read_u32(b: &[u8], off: u64) -> (r: Option<u32>)
    ensures
        match r {
            Some(x) => readable(b@, off as int, 4) && x == le32(b@, off as int),
            None => !readable(b@, off as int, 4),
        },
{
    if off <= b.len() as u64 && b.len() as u64 - off >= 4 {
        let o = off as usize;
        Some(u32_from_le_bytes(slice_subrange(b, o, o + 4)))
    } else {
        None
    }
}

/// Read the little-endian `u64` at `off`, or `None` if the field would
/// leave the buffer.
pub fn read_u64(b: &[u8], off: u64) -> (r: Option<u64>)
    ensures
        match r {
            Some(x) => readable(b@, off as int, 8) && x == le64(b@, off as int),
            None => !readable(b@, off as int, 8),
        },
{
    if off <= b.len() as u64 && b.len() as u64 - off >= 8 {
        let o = off as usize;
        Some(u64_from_le_bytes(slice_subrange(b, o, o + 8)))
    } else {
        None
    }
}

/// Copy the range `[off, off + n)` of `b` out into a fresh vector, or
/// `None` if the range leaves the buffer.
pub fn read_vec(b: &[u8], off: u64, n: usize) -> (r: Option<Vec<u8>>)
    ensures
        match r {
            Some(v) => readable(b@, off as int, n as int) && v@ == b@.subrange(
                off as int,
                off as int + n as int,
            ),
            None => !readable(b@, off as int, n as int),
        },
{
    let blen = b.len();
    if off <= blen as u64 && blen as u64 - off >= n as u64 {
        let o = off as usize;
        assert(o + n <= blen);
        let mut v: Vec<u8> = Vec::new();
        let mut k: usize = 0;
        while k < n
            invariant
                k <= n,
                o + n <= b@.len(),
                b@.len() <= usize::MAX,
                v@.len() == k,
                forall|i: int| 0 <= i < k ==> v@[i] == b@[o + i],
            decreases n - k,
        {
            v.push(b[o + k]);
            k += 1;
        }
        proof {
            assert(v@ =~= b@.subrange(off as int, off as int + n as int));
        }
        Some(v)
    } else {
        None
    }
}

/// Whether `pat` occurs in `b` at position `off`; `false` also when the
/// range leaves the buffer.
pub fn match_at(b: &[u8], off: u64, pat: &[u8]) -> (r: bool)
    ensures
        r == matches_at(b@, pat@, off as int),
{
    let blen = b.len();
    let plen = pat.len();
    if off <= blen as u64 && blen as u64 - off >= plen as u64 {
        let o = off as usize;
        assert(o + plen <= blen);
        let mut k: usize = 0;
        while k < plen
            invariant
                k <= plen,
                plen == pat@.len(),
                o + plen <= b@.len(),
                b@.len() <= usize::MAX,
                o == off,
                forall|i: int| 0 <= i < k ==> b@[o + i] == pat@[i],
            decreases plen - k,
        {
            if b[o + k] != pat[k] {
                proof {
                    let oi = o + k;
                    assert(b@.subrange(off as int, off as int + pat@.len())[k as int] == b@[oi as int]);
                }
                return false;
            }
            k += 1;
        }
        proof {
            assert(b@.subrange(off as int, off as int + pat@.len()) =~= pat@);
        }
        true
    } else {
        false
    }
}

/// Whether the byte range `[off, off + n)` lies inside `b`.
pub fn range_ok(b: &[u8], off: u64, n: u64) -> (r: bool)
    ensures
        r == readable(b@, off as int, n as int),
{
    off <= b.len() as u64 && b.len() as u64 - off >= n
}

/// Lay the bytes of `d` over `v` starting at `off`.
pub fn splice_bytes(v: &mut Vec<u8>, off: usize, d: &[u8]) -> (r: ())
    requires
        readable(old(v)@, off as int, d@.len() as int),
    ensures
        final(v)@ == spec_splice(old(v)@, off as int, d@),
{
    let ghost s0 = v@;
    let n = d.len();
    let vlen = v.len();
    assert(off + n <= vlen);
    let mut k: usize = 0;
    while k < n
        invariant
            k <= n,
            off + n <= s0.len(),
            s0.len() <= usize::MAX,
            n == d@.len(),
            v@.len() == s0.len(),
            forall|i: int| 0 <= i < s0.len() ==> v@[i] == if off <= i && i < off + k {
                d@[i - off]
            } else {
                s0[i]
            },
        decreases n - k,
    {
        v.set(off + k, d[k]);
        k += 1;
    }
    proof {
        assert(v@ =~= spec_splice(s0, off as int, d@));
    }
}

/// Overwrite the range `[off, off + n)` of `v` with zero bytes.
pub fn write_zeros(v: &mut Vec<u8>, off: usize, n: usize) -> (r: ())
    requires
        readable(old(v)@, off as int, n as int),
    ensures
        final(v)@ == spec_splice(old(v)@, off as int, zero_bytes(n as int)),
{
    let ghost s0 = v@;
    let vlen = v.len();
    assert(off + n <= vlen);
    let mut k: usize = 0;
    while k < n
        invariant
            k <= n,
            off + n <= s0.len(),
            s0.len() <= usize::MAX,
            v@.len() == s0.len(),
            forall|i: int| 0 <= i < s0.len() ==> v@[i] == if off <= i && i < off + k {
                0u8
            } else {
                s0[i]
            },
        decreases n - k,
    {
        v.set(off + k, 0u8);
        k += 1;
    }
    proof {
        assert(v@ =~= spec_splice(s0, off as int, zero_bytes(n as int)));
    }
}

/// Write `x` at `off` as four little-endian bytes.
pub fn write_u32_at(v: &mut Vec<u8>, off: usize, x: u32) -> (r: ())
    requires
        readable(old(v)@, off as int, 4),
    ensures
        final(v)@ == spec_splice(old(v)@, off as int, spec_u32_to_le_bytes(x)),
{
    proof {
        vstd::bytes::lemma_auto_spec_u32_to_from_le_bytes();
    }
    let d = u32_to_le_bytes(x);
    splice_bytes(v, off, d.as_slice());
}

/// Write `x` at `off` as eight little-endian bytes.
pub fn write_u64_at(v: &mut Vec<u8>, off: usize, x: u64) -> (r: ())
    requires
        readable(old(v)@, off as int, 8),
    ensures
        final(v)@ == spec_splice(old(v)@, off as int, spec_u64_to_le_bytes(x)),
{
    proof {
        vstd::bytes::lemma_auto_spec_u64_to_from_le_bytes();
    }
    let d = u64_to_le_bytes(x);
    splice_bytes(v, off, d.as_slice());
}

} // verus!
