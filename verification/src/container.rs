//! Container Decoder: what kind of blob was handed in, and the growth
//! policy of the decompression loop.
//!
//! A firmware blob arrives raw, sealed (rejected), or compressed. For a
//! compressed container this module decides where the payload starts and
//! what decompressed size the container claims; the byte-shuffling of the
//! decompression collaborator itself lives outside the library, which only
//! decides, per report of the collaborator, whether to accept, grow the
//! buffer, or give up.

use crate::bytes::{le32, matches_at, range_ok, readable, read_u32, zero_bytes};
use crate::SplitError;
use vstd::arithmetic::power2::pow2;
use vstd::prelude::*;

verus! {

/// The two leading bytes of a sealed container.
pub open spec fn spec_sealed_magic() -> Seq<u8> {
    seq![0x30, 0x83]
}

/// The eight bytes at offset 8 of a compressed container.
pub open spec fn spec_compressed_magic() -> Seq<u8> {
    seq![0x65, 0x47, 0x69, 0x72, 0x42, 0x77, 0x52, 0x44]
}

/// Where a compressed container's payload starts: the first candidate
/// offset, unless the four bytes there are all zero, in which case the
/// second.
pub open spec fn spec_payload_start(s: Seq<u8>) -> int {
    if matches_at(s, zero_bytes(4), 0x10000) {
        0x20000
    } else {
        0x10000
    }
}

/// What the Container Decoder found.
#[derive(Clone, Copy, Debug, PartialEq, Eq, Structural)]
pub enum Container {
    /// Not a known container: the blob is already raw firmware.
    Raw,
    /// A compressed container: decompress `expected_len` bytes (a claim,
    /// possibly a lie) out of the payload at `payload_start`.
    Compressed { payload_start: u64, expected_len: u32 },
}

/// Classify the blob: sealed containers are rejected, compressed
/// containers yield their payload offset and claimed size, anything else
/// is already raw firmware. A compressed container too short to hold its
/// own payload-offset probe or size field is truncated.
pub fn classify_container(krnl: &[u8]) -> (r: Result<Container, SplitError>)
    ensures
        match r {
            Ok(Container::Raw) => !matches_at(krnl@, spec_sealed_magic(), 0) && !matches_at(
                krnl@,
                spec_compressed_magic(),
                8,
            ),
            Ok(Container::Compressed { payload_start, expected_len }) => {
                &&& !matches_at(krnl@, spec_sealed_magic(), 0)
                &&& matches_at(krnl@, spec_compressed_magic(), 8)
                &&& readable(krnl@, 0x10000, 4)
                &&& readable(krnl@, 0x18, 4)
                &&& payload_start == spec_payload_start(krnl@)
                &&& payload_start <= krnl@.len()
                &&& expected_len == le32(krnl@, 0x18)
            },
            Err(SplitError::SealedContainer) => matches_at(krnl@, spec_sealed_magic(), 0),
            Err(SplitError::Truncated) => {
                &&& !matches_at(krnl@, spec_sealed_magic(), 0)
                &&& matches_at(krnl@, spec_compressed_magic(), 8)
                &&& (!readable(krnl@, 0x10000, 4) || !readable(krnl@, 0x18, 4)
                    || spec_payload_start(krnl@) > krnl@.len())
            },
            _ => false,
        },
{
    let sealed: [u8; 2] = [0x30, 0x83];
    proof {
        assert(sealed@ =~= spec_sealed_magic());
    }
    if crate::bytes::match_at(krnl, 0, &sealed) {
        return Err(SplitError::SealedContainer);
    }
    // "eGirBwRD"
    let comp: [u8; 8] = [0x65, 0x47, 0x69, 0x72, 0x42, 0x77, 0x52, 0x44];
    proof {
        assert(comp@ =~= spec_compressed_magic());
    }
    if !crate::bytes::match_at(krnl, 8, &comp) {
        return Ok(Container::Raw);
    }
    if !range_ok(krnl, 0x10000, 4) || !range_ok(krnl, 0x18, 4) {
        return Err(SplitError::Truncated);
    }
    let zero4: [u8; 4] = [0, 0, 0, 0];
    proof {
        assert(zero4@ =~= zero_bytes(4));
    }
    let payload_start: u64 = if crate::bytes::match_at(krnl, 0x10000, &zero4) {
        0x20000
    } else {
        0x10000
    };
    if payload_start > krnl.len() as u64 {
        return Err(SplitError::Truncated);
    }
    let expected_len = read_u32(krnl, 0x18).unwrap();
    Ok(Container::Compressed { payload_start, expected_len })
}

/// What the decompression loop does next after the collaborator reported
/// `complen` bytes for a candidate buffer of `destlen` bytes.
#[derive(Clone, Copy, Debug, PartialEq, Eq, Structural)]
pub enum DecompressStep {
    /// The collaborator reported zero bytes: the input is truncated or
    /// corrupt, and no retry can help.
    Fail,
    /// A report strictly below the candidate size is exact: accept that
    /// many bytes and truncate the buffer to them.
    Accept { len: u64 },
    /// A report at or above the candidate size is ambiguous — the
    /// container may have lied about its decompressed size — so retry
    /// with a buffer of twice the size.
    Grow { next: u64 },
}

/// Decide the next step of the decompression loop. A result equal to the
/// candidate length may mean "exactly fits" or "ran out of room", so only
/// a strictly smaller result is accepted.
pub fn decompress_step(destlen: u64, complen: u64) -> (r: DecompressStep)
    requires
        destlen <= u64::MAX / 2,
    ensures
        complen == 0 ==> r == DecompressStep::Fail,
        0 < complen < destlen ==> r == (DecompressStep::Accept { len: complen }),
        complen > 0 && complen >= destlen ==> r == (DecompressStep::Grow {
            next: (destlen * 2) as u64,
        }),
{
    if complen == 0 {
        DecompressStep::Fail
    } else if complen < destlen {
        DecompressStep::Accept { len: complen }
    } else {
        DecompressStep::Grow { next: destlen * 2 }
    }
}

/// The candidate buffer size after `k` doublings of an initial size.
pub open spec fn spec_grown(d0: u64, k: nat) -> int {
    d0 * pow2(k)
}

/// Each doubling exactly doubles the candidate size.
pub proof fn lemma_grown_step(d0: u64, k: nat)
    ensures
        spec_grown(d0, k + 1) == 2 * spec_grown(d0, k),
{
    vstd::arithmetic::power2::lemma_pow2_unfold(k + 1);
    assert(d0 * ((k + 1 == 0) as int + 2 * pow2(k)) == 2 * (d0 * pow2(k))) by (nonlinear_arith);
    assert(pow2((k + 1) as nat) == 2 * pow2(k));
    assert(d0 * (2 * pow2(k)) == 2 * (d0 * pow2(k))) by (nonlinear_arith);
}

/// Decompression growth termination law: starting from any positive
/// candidate size, at most 64 doublings exceed every representable true
/// size, and the first report strictly below the candidate is accepted —
/// so a collaborator that reports its fixed true size once the buffer
/// passes it ends the loop after boundedly many iterations.
pub proof fn lemma_decompress_growth_terminates(d0: u64, true_size: u64)
    requires
        1 <= d0,
    ensures
        spec_grown(d0, 64) > true_size,
{
    vstd::arithmetic::power2::lemma2_to64();
    assert(pow2(64) == 0x10000000000000000);
    assert(d0 * pow2(64) >= 1 * pow2(64)) by (nonlinear_arith)
        requires
            1 <= d0,
    ;
}

} // verus!
