//! Image Extent Calculator: the true end offset of an embedded image.
//!
//! Given a byte slice presumed to start an embedded loadable image, walk its
//! load commands and compute the maximum `file offset + file size` over all
//! segment commands. Anything that is not a plausible image — too short,
//! wrong magic, a command that leaves the buffer — yields 0, which callers
//! treat as "no embedded image here".

use crate::bytes::{le32, le64, readable};
use crate::macho::{
    spec_cmds_start, spec_magic_is_macho, CMD_SEGMENT, CMD_SEGMENT64, SEGMENT64_BODY_SIZE,
    SEGMENT_BODY_SIZE,
};
use vstd::prelude::*;

verus! {

/// The end of the file range declared by a 32-bit segment command body at
/// `body`: file offset plus file size.
pub open spec fn spec_seg_end32(s: Seq<u8>, body: int) -> int {
    le32(s, body + 24) + le32(s, body + 28)
}

/// The end of the file range declared by a 64-bit segment command body at
/// `body`: file offset plus file size.
pub open spec fn spec_seg_end64(s: Seq<u8>, body: int) -> int {
    le64(s, body + 32) + le64(s, body + 40)
}

/// The maximum of `acc` and every segment end over `n` load commands
/// starting at `p`; `None` when a command prefix or a segment body leaves
/// the buffer, or when the running maximum cannot be represented.
pub open spec fn spec_extent_walk(s: Seq<u8>, p: int, n: nat, acc: int) -> Option<int>
    decreases n,
{
    if n == 0 {
        Some(acc)
    } else if !readable(s, p, 8) {
        None
    } else {
        let cmd = le32(s, p);
        let cmdsize = le32(s, p + 4);
        if cmd == CMD_SEGMENT {
            if !readable(s, p + 8, SEGMENT_BODY_SIZE as int) {
                None
            } else {
                let e = spec_seg_end32(s, p + 8);
                let acc2 = if acc < e {
                    e
                } else {
                    acc
                };
                if acc2 > usize::MAX {
                    None
                } else {
                    spec_extent_walk(s, p + cmdsize, (n - 1) as nat, acc2)
                }
            }
        } else if cmd == CMD_SEGMENT64 {
            if !readable(s, p + 8, SEGMENT64_BODY_SIZE as int) {
                None
            } else {
                let e = spec_seg_end64(s, p + 8);
                let acc2 = if acc < e {
                    e
                } else {
                    acc
                };
                if acc2 > usize::MAX {
                    None
                } else {
                    spec_extent_walk(s, p + cmdsize, (n - 1) as nat, acc2)
                }
            }
        } else {
            spec_extent_walk(s, p + cmdsize, (n - 1) as nat, acc)
        }
    }
}

/// What [`calc_size`] returns on `s`: 0 for anything not recognized as an
/// image, otherwise the maximum segment end of the command walk.
pub open spec fn spec_calc_size(s: Seq<u8>) -> int {
    if s.len() < 1024 {
        0
    } else if !spec_magic_is_macho(le32(s, 0)) {
        0
    } else {
        match spec_extent_walk(s, spec_cmds_start(s), le32(s, 16) as nat, 0) {
            Some(m) => m,
            None => 0,
        }
    }
}

/// Calculate the end of the embedded image at the start of `bytes`: the
/// last byte offset any of its segments reaches. Returns 0 when `bytes` is
/// shorter than 1024, when the magic is not an image magic, when the
/// command walk leaves the buffer, or when the image declares no segments.
pub fn calc_size(bytes: &[u8]) -> (r: usize)
    ensures
        r == spec_calc_size(bytes@),
        bytes@.len() < 1024 ==> r == 0,
{
    if bytes.len() < 1024 {
        return 0;
    }
    let hdr = crate::macho::decode_mach_header(bytes).unwrap();
    if !hdr.is_macho() {
        return 0;
    }
    let ncmds = hdr.ncmds;
    let mut q: u64 = if hdr.is64() {
        32
    } else {
        28
    };
    let mut tsize: u64 = 0;
    let mut i: u32 = 0;
    let ghost s = bytes@;
    let ghost goal = spec_extent_walk(s, spec_cmds_start(s), ncmds as nat, 0);
    while i < ncmds
        invariant
            i <= ncmds,
            tsize <= usize::MAX,
            s == bytes@,
            s.len() >= 1024,
            s.len() <= usize::MAX,
            spec_magic_is_macho(le32(s, 0)),
            ncmds == le32(s, 16),
            spec_extent_walk(s, q as int, (ncmds - i) as nat, tsize as int) == goal,
            goal == spec_extent_walk(s, spec_cmds_start(s), ncmds as nat, 0),
        decreases ncmds - i,
    {
        let lc = match crate::macho::decode_load_command(bytes, q) {
            Some(l) => l,
            None => {
                return 0;
            },
        };
        let cmd = lc.cmd;
        let cmdsize = lc.cmdsize;
        if cmd == CMD_SEGMENT {
            let seg = match crate::macho::decode_segment(bytes, q + 8) {
                Some(g) => g,
                None => {
                    return 0;
                },
            };
            let e: u64 = seg.fileoff as u64 + seg.filesize as u64;
            if e > tsize {
                if e > usize::MAX as u64 {
                    return 0;
                }
                tsize = e;
            }
        } else if cmd == CMD_SEGMENT64 {
            let seg = match crate::macho::decode_segment64(bytes, q + 8) {
                Some(g) => g,
                None => {
                    return 0;
                },
            };
            match seg.fileoff.checked_add(seg.filesize) {
                None => {
                    return 0;
                },
                Some(e) => {
                    if e > tsize {
                        if e > usize::MAX as u64 {
                            return 0;
                        }
                        tsize = e;
                    }
                },
            }
        }
        let ghost t_now = tsize as int;
        i += 1;
        proof {
            assert(goal == spec_extent_walk(s, q as int + cmdsize as int, (ncmds - i) as nat, t_now));
        }
        match q.checked_add(cmdsize as u64) {
            Some(q2) => {
                q = q2;
            },
            None => {
                if i == ncmds {
                    return tsize as usize;
                } else {
                    proof {
                        assert(!readable(s, q as int + cmdsize as int, 8));
                        assert(goal is None);
                    }
                    return 0;
                }
            },
        }
    }
    tsize as usize
}

/// The segment ends encountered along `n` load commands starting at `p`
/// (meaningful where the same walk succeeds).
pub open spec fn spec_seg_ends(s: Seq<u8>, p: int, n: nat) -> Seq<int>
    decreases n,
{
    if n == 0 || !readable(s, p, 8) {
        Seq::empty()
    } else {
        let cmd = le32(s, p);
        let cmdsize = le32(s, p + 4);
        if cmd == CMD_SEGMENT && readable(s, p + 8, SEGMENT_BODY_SIZE as int) {
            seq![spec_seg_end32(s, p + 8)] + spec_seg_ends(s, p + cmdsize, (n - 1) as nat)
        } else if cmd == CMD_SEGMENT64 && readable(s, p + 8, SEGMENT64_BODY_SIZE as int) {
            seq![spec_seg_end64(s, p + 8)] + spec_seg_ends(s, p + cmdsize, (n - 1) as nat)
        } else {
            spec_seg_ends(s, p + cmdsize, (n - 1) as nat)
        }
    }
}

/// A successful extent walk returns exactly the maximum of `acc` and the
/// segment ends it encountered: an upper bound that is attained.
pub proof fn lemma_extent_walk_max(s: Seq<u8>, p: int, n: nat, acc: int)
    requires
        spec_extent_walk(s, p, n, acc) is Some,
    ensures
        acc <= spec_extent_walk(s, p, n, acc)->Some_0,
        forall|k: int|
            0 <= k < spec_seg_ends(s, p, n).len() ==> #[trigger] spec_seg_ends(s, p, n)[k]
                <= spec_extent_walk(s, p, n, acc)->Some_0,
        spec_extent_walk(s, p, n, acc)->Some_0 == acc || spec_seg_ends(s, p, n).contains(
            spec_extent_walk(s, p, n, acc)->Some_0,
        ),
    decreases n,
{
    if n == 0 {
    } else {
        let cmd = le32(s, p);
        let cmdsize = le32(s, p + 4);
        let ends = spec_seg_ends(s, p, n);
        let m = spec_extent_walk(s, p, n, acc)->Some_0;
        if cmd == CMD_SEGMENT && readable(s, p + 8, SEGMENT_BODY_SIZE as int) {
            let e = spec_seg_end32(s, p + 8);
            let acc2 = if acc < e {
                e
            } else {
                acc
            };
            lemma_extent_walk_max(s, p + cmdsize, (n - 1) as nat, acc2);
            let rest = spec_seg_ends(s, p + cmdsize, (n - 1) as nat);
            assert(ends == seq![e] + rest);
            assert forall|k: int| 0 <= k < ends.len() implies #[trigger] ends[k] <= m by {
                if k > 0 {
                    assert(ends[k] == rest[k - 1]);
                }
            }
            if m != acc {
                if m == e {
                    assert(ends[0] == m);
                } else {
                    let rest_m = spec_extent_walk(s, p + cmdsize, (n - 1) as nat, acc2)->Some_0;
                    assert(rest.contains(m));
                    let k = choose|k: int| 0 <= k < rest.len() && rest[k] == m;
                    assert(ends[k + 1] == m);
                }
            }
        } else if cmd == CMD_SEGMENT64 && readable(s, p + 8, SEGMENT64_BODY_SIZE as int) {
            let e = spec_seg_end64(s, p + 8);
            let acc2 = if acc < e {
                e
            } else {
                acc
            };
            lemma_extent_walk_max(s, p + cmdsize, (n - 1) as nat, acc2);
            let rest = spec_seg_ends(s, p + cmdsize, (n - 1) as nat);
            assert(ends == seq![e] + rest);
            assert forall|k: int| 0 <= k < ends.len() implies #[trigger] ends[k] <= m by {
                if k > 0 {
                    assert(ends[k] == rest[k - 1]);
                }
            }
            if m != acc {
                if m == e {
                    assert(ends[0] == m);
                } else {
                    assert(rest.contains(m));
                    let k = choose|k: int| 0 <= k < rest.len() && rest[k] == m;
                    assert(ends[k + 1] == m);
                }
            }
        } else if cmd == CMD_SEGMENT || cmd == CMD_SEGMENT64 {
            assert(spec_extent_walk(s, p, n, acc) is None);
        } else {
            lemma_extent_walk_max(s, p + cmdsize, (n - 1) as nat, acc);
        }
    }
}

/// Round-trip extent law: on a well-formed embedded image — long enough,
/// image magic, a command walk that stays inside the buffer — the extent
/// calculator returns exactly the maximum `file offset + file size` over
/// the image's segments, and 0 when it declares no segments.
pub proof fn lemma_calc_size_is_max_extent(s: Seq<u8>)
    requires
        s.len() >= 1024,
        spec_magic_is_macho(le32(s, 0)),
        spec_extent_walk(s, spec_cmds_start(s), le32(s, 16) as nat, 0) is Some,
    ensures
        forall|k: int|
            0 <= k < spec_seg_ends(s, spec_cmds_start(s), le32(s, 16) as nat).len()
                ==> #[trigger] spec_seg_ends(s, spec_cmds_start(s), le32(s, 16) as nat)[k]
                <= spec_calc_size(s),
        spec_calc_size(s) == 0 || spec_seg_ends(s, spec_cmds_start(s), le32(s, 16) as nat)
            .contains(spec_calc_size(s)),
{
    lemma_extent_walk_max(s, spec_cmds_start(s), le32(s, 16) as nat, 0);
}

} // verus!
