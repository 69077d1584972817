//! Segment Fixup Engine: corrective passes over one extracted image.
//!
//! `fix_linkedit` points the metadata segment's file offset at where the
//! segment now lies relative to the extracted image (its virtual address
//! minus the lowest virtual address of any non-zero-page segment) and blanks
//! the symbol-table and dynamic-symbol-table commands, whose offsets would
//! be stale in an extracted module that carries no symbols. `fix_data_segment`
//! splices the separately-stored writable data back over the file range the
//! image's own writable-data segment declares, or over an explicitly forced
//! range.
//!
//! Each pass is modelled by a fold over the load commands that threads the
//! buffer through every edit, so the contracts pin the final buffer exactly,
//! edit by edit.

use crate::bytes::{
    le32, le64, matches_at, range_ok, readable, read_u32, read_u64, spec_splice, splice_bytes,
    write_u32_at, write_u64_at, write_zeros, zero_bytes,
};
use crate::macho::{
    decode_mach_header, name_is_data, name_is_linkedit, name_is_pagezero, spec_cmds_start,
    spec_is_macho, spec_seg_data, spec_seg_linkedit, spec_seg_pagezero,
    CMD_DYSYMTAB, CMD_SEGMENT, CMD_SEGMENT64, CMD_SYMTAB, DYSYMTAB_BODY_SIZE, SEGMENT64_BODY_SIZE,
    SEGMENT_BODY_SIZE, SYMTAB_BODY_SIZE,
};
use crate::SplitError;
use vstd::bytes::{spec_u32_to_le_bytes, spec_u64_to_le_bytes};
use vstd::prelude::*;

verus! {

/// The set of byte positions `[a, a + n)`.
pub open spec fn range_set(a: int, n: int) -> Set<int> {
    Set::new(|i: int| a <= i && i < a + n)
}

/// First pass of the metadata fixup: the lowest virtual address among the
/// non-zero-page segments over `n` load commands starting at `p`, folded
/// into `acc`; `None` when a command or segment body leaves the buffer.
pub open spec fn spec_min_walk(s: Seq<u8>, p: int, n: nat, acc: u64) -> Option<u64>
    decreases n,
{
    if n == 0 {
        Some(acc)
    } else if !readable(s, p, 8) {
        None
    } else {
        let cmd = le32(s, p);
        let cmdsize = le32(s, p + 4);
        if cmd == CMD_SEGMENT {
            if !readable(s, p + 8, SEGMENT_BODY_SIZE as int) {
                None
            } else {
                let vm = le32(s, p + 8 + 16) as u64;
                let acc2 = if !matches_at(s, spec_seg_pagezero(), p + 8) && acc > vm {
                    vm
                } else {
                    acc
                };
                spec_min_walk(s, p + cmdsize, (n - 1) as nat, acc2)
            }
        } else if cmd == CMD_SEGMENT64 {
            if !readable(s, p + 8, SEGMENT64_BODY_SIZE as int) {
                None
            } else {
                let vm = le64(s, p + 8 + 16);
                let acc2 = if !matches_at(s, spec_seg_pagezero(), p + 8) && acc > vm {
                    vm
                } else {
                    acc
                };
                spec_min_walk(s, p + cmdsize, (n - 1) as nat, acc2)
            }
        } else {
            spec_min_walk(s, p + cmdsize, (n - 1) as nat, acc)
        }
    }
}

/// Second pass of the metadata fixup, folded over `n` load commands from
/// `p`: the buffer after every edit, whether every step stayed in bounds,
/// and the set of byte positions the remaining steps edited. Each step
/// reads the buffer as the previous steps left it, as the in-place rewrite
/// does.
pub open spec fn spec_fix_walk(s: Seq<u8>, p: int, n: nat, min: u64) -> (Seq<u8>, bool, Set<int>)
    decreases n,
{
    if n == 0 {
        (s, true, Set::empty())
    } else if !readable(s, p, 8) {
        (s, false, Set::empty())
    } else {
        let cmd = le32(s, p);
        let cmdsize = le32(s, p + 4);
        if cmd == CMD_SEGMENT {
            if !readable(s, p + 8, SEGMENT_BODY_SIZE as int) {
                (s, false, Set::empty())
            } else if matches_at(s, spec_seg_linkedit(), p + 8) {
                let vm = le32(s, p + 8 + 16) as u64;
                if vm < min {
                    (s, false, Set::empty())
                } else {
                    let s2 = spec_splice(s, p + 8 + 24, spec_u32_to_le_bytes((vm - min) as u32));
                    let rest = spec_fix_walk(s2, p + cmdsize, (n - 1) as nat, min);
                    (rest.0, rest.1, rest.2.union(range_set(p + 8 + 24, 4)))
                }
            } else {
                spec_fix_walk(s, p + cmdsize, (n - 1) as nat, min)
            }
        } else if cmd == CMD_SEGMENT64 {
            if !readable(s, p + 8, SEGMENT64_BODY_SIZE as int) {
                (s, false, Set::empty())
            } else if matches_at(s, spec_seg_linkedit(), p + 8) {
                let vm = le64(s, p + 8 + 16);
                if vm < min {
                    (s, false, Set::empty())
                } else {
                    let s2 = spec_splice(s, p + 8 + 32, spec_u64_to_le_bytes((vm - min) as u64));
                    let rest = spec_fix_walk(s2, p + cmdsize, (n - 1) as nat, min);
                    (rest.0, rest.1, rest.2.union(range_set(p + 8 + 32, 8)))
                }
            } else {
                spec_fix_walk(s, p + cmdsize, (n - 1) as nat, min)
            }
        } else if cmd == CMD_SYMTAB {
            if !readable(s, p + 8, SYMTAB_BODY_SIZE as int) {
                (s, false, Set::empty())
            } else {
                let s2 = spec_splice(s, p + 8, zero_bytes(SYMTAB_BODY_SIZE as int));
                let rest = spec_fix_walk(s2, p + cmdsize, (n - 1) as nat, min);
                (rest.0, rest.1, rest.2.union(range_set(p + 8, SYMTAB_BODY_SIZE as int)))
            }
        } else if cmd == CMD_DYSYMTAB {
            if !readable(s, p + 8, DYSYMTAB_BODY_SIZE as int) {
                (s, false, Set::empty())
            } else {
                let s2 = spec_splice(s, p + 8, zero_bytes(DYSYMTAB_BODY_SIZE as int));
                let rest = spec_fix_walk(s2, p + cmdsize, (n - 1) as nat, min);
                (rest.0, rest.1, rest.2.union(range_set(p + 8, DYSYMTAB_BODY_SIZE as int)))
            }
        } else {
            spec_fix_walk(s, p + cmdsize, (n - 1) as nat, min)
        }
    }
}

/// The command count an image header declares.
pub open spec fn spec_ncmds(s: Seq<u8>) -> nat {
    le32(s, 16) as nat
}

/// The buffer [`fix_linkedit`] leaves behind on `s`: unchanged when `s` is
/// not an image or the first pass leaves the buffer, else the second pass's
/// fold result.
pub open spec fn spec_fix_linkedit_out(s: Seq<u8>) -> Seq<u8> {
    if !spec_is_macho(s) {
        s
    } else {
        match spec_min_walk(s, spec_cmds_start(s), spec_ncmds(s), u64::MAX) {
            None => s,
            Some(min) => spec_fix_walk(s, spec_cmds_start(s), spec_ncmds(s), min).0,
        }
    }
}

/// Whether the metadata fixup runs to completion on `s`.
pub open spec fn spec_fix_linkedit_ok(s: Seq<u8>) -> bool {
    spec_is_macho(s) && match spec_min_walk(s, spec_cmds_start(s), spec_ncmds(s), u64::MAX) {
        None => false,
        Some(min) => spec_fix_walk(s, spec_cmds_start(s), spec_ncmds(s), min).1,
    }
}

/// The byte positions the metadata fixup edits on `s`: the rewritten
/// metadata file-offset fields and the blanked symbol-table commands.
pub open spec fn spec_fix_linkedit_edits(s: Seq<u8>) -> Set<int> {
    if !spec_is_macho(s) {
        Set::empty()
    } else {
        match spec_min_walk(s, spec_cmds_start(s), spec_ncmds(s), u64::MAX) {
            None => Set::empty(),
            Some(min) => spec_fix_walk(s, spec_cmds_start(s), spec_ncmds(s), min).2,
        }
    }
}

/// Metadata offset correction: set the metadata segment's file offset to
/// its virtual address minus the image's lowest non-zero-page virtual
/// address, and blank every symbol-table and dynamic-symbol-table command.
///
/// A buffer that does not hold an image header is reported `NotMachO` and
/// left untouched; a command walk that leaves the buffer is reported
/// `Truncated` with the edits up to that point applied.
pub fn fix_linkedit(image: &mut Vec<u8>) -> (r: Result<(), SplitError>)
    ensures
        final(image)@.len() == old(image)@.len(),
        match r {
            Ok(()) => spec_fix_linkedit_ok(old(image)@) && final(image)@ == spec_fix_linkedit_out(
                old(image)@,
            ),
            Err(SplitError::NotMachO) => !spec_is_macho(old(image)@) && final(image)@ == old(
                image,
            )@,
            Err(SplitError::Truncated) => spec_is_macho(old(image)@) && !spec_fix_linkedit_ok(
                old(image)@,
            ) && final(image)@ == spec_fix_linkedit_out(old(image)@),
            _ => false,
        },
{
    let ghost s0 = image@;
    if image.len() < 28 {
        return Err(SplitError::NotMachO);
    }
    let hdr = decode_mach_header(image.as_slice()).unwrap();
    if !hdr.is_macho() {
        return Err(SplitError::NotMachO);
    }
    let ncmds = hdr.ncmds;
    let start: u64 = if hdr.is64() {
        32
    } else {
        28
    };
    let ghost goal1 = spec_min_walk(s0, spec_cmds_start(s0), spec_ncmds(s0), u64::MAX);

    // First pass: lowest virtual address among the non-zero-page segments.
    let mut q: u64 = start;
    let mut minv: u64 = u64::MAX;
    let mut i: u32 = 0;
    while i < ncmds
        invariant
            i <= ncmds,
            s0 == image@,
            s0 == old(image)@,
            s0.len() <= usize::MAX,
            spec_is_macho(s0),
            ncmds == le32(s0, 16),
            spec_min_walk(s0, q as int, (ncmds - i) as nat, minv) == goal1,
            goal1 == spec_min_walk(s0, spec_cmds_start(s0), spec_ncmds(s0), u64::MAX),
        ensures
            s0 == image@,
            goal1 == Some(minv),
        decreases ncmds - i,
    {
        let b = image.as_slice();
        if !range_ok(b, q, 8) {
            return Err(SplitError::Truncated);
        }
        let cmd = read_u32(b, q).unwrap();
        let cmdsize = read_u32(b, q + 4).unwrap();
        if cmd == CMD_SEGMENT {
            if !range_ok(b, q + 8, SEGMENT_BODY_SIZE) {
                return Err(SplitError::Truncated);
            }
            let vm = read_u32(b, q + 8 + 16).unwrap() as u64;
            if !name_is_pagezero(b, q + 8) && minv > vm {
                minv = vm;
            }
        } else if cmd == CMD_SEGMENT64 {
            if !range_ok(b, q + 8, SEGMENT64_BODY_SIZE) {
                return Err(SplitError::Truncated);
            }
            let vm = read_u64(b, q + 8 + 16).unwrap();
            if !name_is_pagezero(b, q + 8) && minv > vm {
                minv = vm;
            }
        }
        let ghost m_now = minv;
        i += 1;
        proof {
            assert(goal1 == spec_min_walk(s0, q as int + cmdsize as int, (ncmds - i) as nat, m_now));
        }
        match q.checked_add(cmdsize as u64) {
            Some(q2) => {
                q = q2;
            },
            None => {
                if i == ncmds {
                    q = u64::MAX;
                    break ;
                } else {
                    proof {
                        assert(!readable(s0, q as int + cmdsize as int, 8));
                    }
                    return Err(SplitError::Truncated);
                }
            },
        }
    }
    proof {
        assert(goal1 == Some(minv));
    }

    // Second pass: rewrite the metadata file offset, blank the symbol tables.
    let ghost goal2 = spec_fix_walk(s0, spec_cmds_start(s0), spec_ncmds(s0), minv);
    let mut q: u64 = start;
    let mut i: u32 = 0;
    while i < ncmds
        invariant
            i <= ncmds,
            s0 == old(image)@,
            image@.len() == s0.len(),
            s0.len() <= usize::MAX,
            spec_is_macho(s0),
            ncmds == le32(s0, 16),
            spec_fix_walk(image@, q as int, (ncmds - i) as nat, minv).0 == goal2.0,
            spec_fix_walk(image@, q as int, (ncmds - i) as nat, minv).1 == goal2.1,
            goal2 == spec_fix_walk(s0, spec_cmds_start(s0), spec_ncmds(s0), minv),
            goal1 == spec_min_walk(s0, spec_cmds_start(s0), spec_ncmds(s0), u64::MAX),
            goal1 == Some(minv),
        decreases ncmds - i,
    {
        let ghost s_in = image@;
        let ghost rem = (ncmds - i) as nat;
        if !range_ok(image.as_slice(), q, 8) {
            return Err(SplitError::Truncated);
        }
        let cmd = read_u32(image.as_slice(), q).unwrap();
        let cmdsize = read_u32(image.as_slice(), q + 4).unwrap();
        if cmd == CMD_SEGMENT {
            if !range_ok(image.as_slice(), q + 8, SEGMENT_BODY_SIZE) {
                return Err(SplitError::Truncated);
            }
            if name_is_linkedit(image.as_slice(), q + 8) {
                let vm = read_u32(image.as_slice(), q + 8 + 16).unwrap() as u64;
                if vm < minv {
                    return Err(SplitError::Truncated);
                }
                write_u32_at(image, (q + 8 + 24) as usize, (vm - minv) as u32);
            }
        } else if cmd == CMD_SEGMENT64 {
            if !range_ok(image.as_slice(), q + 8, SEGMENT64_BODY_SIZE) {
                return Err(SplitError::Truncated);
            }
            if name_is_linkedit(image.as_slice(), q + 8) {
                let vm = read_u64(image.as_slice(), q + 8 + 16).unwrap();
                if vm < minv {
                    return Err(SplitError::Truncated);
                }
                write_u64_at(image, (q + 8 + 32) as usize, vm - minv);
            }
        } else if cmd == CMD_SYMTAB {
            if !range_ok(image.as_slice(), q + 8, SYMTAB_BODY_SIZE) {
                return Err(SplitError::Truncated);
            }
            write_zeros(image, (q + 8) as usize, SYMTAB_BODY_SIZE as usize);
        } else if cmd == CMD_DYSYMTAB {
            if !range_ok(image.as_slice(), q + 8, DYSYMTAB_BODY_SIZE) {
                return Err(SplitError::Truncated);
            }
            write_zeros(image, (q + 8) as usize, DYSYMTAB_BODY_SIZE as usize);
        }
        i += 1;
        proof {
            assert(spec_fix_walk(s_in, q as int, rem, minv).0 == spec_fix_walk(
                image@,
                q as int + cmdsize as int,
                (rem - 1) as nat,
                minv,
            ).0);
            assert(spec_fix_walk(s_in, q as int, rem, minv).1 == spec_fix_walk(
                image@,
                q as int + cmdsize as int,
                (rem - 1) as nat,
                minv,
            ).1);
        }
        match q.checked_add(cmdsize as u64) {
            Some(q2) => {
                q = q2;
            },
            None => {
                if i == ncmds {
                    return Ok(());
                } else {
                    proof {
                        assert(!readable(image@, q as int + cmdsize as int, 8));
                    }
                    return Err(SplitError::Truncated);
                }
            },
        }
    }
    Ok(())
}

/// The writable-data splice, folded over `n` load commands from `p`: the
/// buffer after every splice, whether every step stayed in bounds, and
/// whether any writable-data segment was found. For each writable-data
/// segment the bytes of `d` are laid over the explicit target `dataoff`,
/// or over the file offset the segment itself declares.
pub open spec fn spec_data_walk(
    s: Seq<u8>,
    p: int,
    n: nat,
    d: Seq<u8>,
    dataoff: Option<u64>,
) -> (Seq<u8>, bool, bool)
    decreases n,
{
    if n == 0 {
        (s, true, false)
    } else if !readable(s, p, 8) {
        (s, false, false)
    } else {
        let cmd = le32(s, p);
        let cmdsize = le32(s, p + 4);
        if cmd == CMD_SEGMENT {
            if !readable(s, p + 8, SEGMENT_BODY_SIZE as int) {
                (s, false, false)
            } else if matches_at(s, spec_seg_data(), p + 8) {
                let target = match dataoff {
                    Some(o) => o as int,
                    None => le32(s, p + 8 + 24) as int,
                };
                if !readable(s, target, d.len() as int) {
                    (s, false, false)
                } else {
                    let s2 = spec_splice(s, target, d);
                    let rest = spec_data_walk(s2, p + cmdsize, (n - 1) as nat, d, dataoff);
                    (rest.0, rest.1, true)
                }
            } else {
                spec_data_walk(s, p + cmdsize, (n - 1) as nat, d, dataoff)
            }
        } else if cmd == CMD_SEGMENT64 {
            if !readable(s, p + 8, SEGMENT64_BODY_SIZE as int) {
                (s, false, false)
            } else if matches_at(s, spec_seg_data(), p + 8) {
                let target = match dataoff {
                    Some(o) => o as int,
                    None => le64(s, p + 8 + 32) as int,
                };
                if !readable(s, target, d.len() as int) {
                    (s, false, false)
                } else {
                    let s2 = spec_splice(s, target, d);
                    let rest = spec_data_walk(s2, p + cmdsize, (n - 1) as nat, d, dataoff);
                    (rest.0, rest.1, true)
                }
            } else {
                spec_data_walk(s, p + cmdsize, (n - 1) as nat, d, dataoff)
            }
        } else {
            spec_data_walk(s, p + cmdsize, (n - 1) as nat, d, dataoff)
        }
    }
}

/// The buffer [`fix_data_segment`] leaves behind on `s`.
pub open spec fn spec_fix_data_out(s: Seq<u8>, d: Seq<u8>, dataoff: Option<u64>) -> Seq<u8> {
    if !spec_is_macho(s) {
        s
    } else {
        spec_data_walk(s, spec_cmds_start(s), spec_ncmds(s), d, dataoff).0
    }
}

/// Whether the writable-data splice runs to completion on `s`.
pub open spec fn spec_fix_data_ok(s: Seq<u8>, d: Seq<u8>, dataoff: Option<u64>) -> bool {
    spec_is_macho(s) && spec_data_walk(s, spec_cmds_start(s), spec_ncmds(s), d, dataoff).1
}

/// Whether the splice found a writable-data segment in `s`.
pub open spec fn spec_fix_data_wrote(s: Seq<u8>, d: Seq<u8>, dataoff: Option<u64>) -> bool {
    spec_is_macho(s) && spec_data_walk(s, spec_cmds_start(s), spec_ncmds(s), d, dataoff).2
}

/// Splice the separately-stored writable data `data` back into the image:
/// for every writable-data segment, lay `data` over the bytes at `dataoff`
/// when an explicit target is given, else over the file offset the segment
/// declares.
///
/// A buffer that does not hold an image header is reported `NotMachO` and
/// left untouched; a command walk or a splice target that leaves the
/// buffer is reported `Truncated` with the splices up to that point
/// applied.
pub fn fix_data_segment(image: &mut Vec<u8>, data: &[u8], dataoff: Option<u64>) -> (r: Result<
    (),
    SplitError,
>)
    ensures
        final(image)@.len() == old(image)@.len(),
        match r {
            Ok(()) => spec_fix_data_ok(old(image)@, data@, dataoff) && final(image)@
                == spec_fix_data_out(old(image)@, data@, dataoff),
            Err(SplitError::NotMachO) => !spec_is_macho(old(image)@) && final(image)@ == old(
                image,
            )@,
            Err(SplitError::Truncated) => spec_is_macho(old(image)@) && !spec_fix_data_ok(
                old(image)@,
                data@,
                dataoff,
            ) && final(image)@ == spec_fix_data_out(old(image)@, data@, dataoff),
            _ => false,
        },
{
    let ghost s0 = image@;
    if image.len() < 28 {
        return Err(SplitError::NotMachO);
    }
    let hdr = decode_mach_header(image.as_slice()).unwrap();
    if !hdr.is_macho() {
        return Err(SplitError::NotMachO);
    }
    let ncmds = hdr.ncmds;
    let mut q: u64 = if hdr.is64() {
        32
    } else {
        28
    };
    let ghost goal = spec_data_walk(s0, spec_cmds_start(s0), spec_ncmds(s0), data@, dataoff);
    let mut i: u32 = 0;
    while i < ncmds
        invariant
            i <= ncmds,
            s0 == old(image)@,
            image@.len() == s0.len(),
            s0.len() <= usize::MAX,
            spec_is_macho(s0),
            ncmds == le32(s0, 16),
            spec_data_walk(image@, q as int, (ncmds - i) as nat, data@, dataoff).0 == goal.0,
            spec_data_walk(image@, q as int, (ncmds - i) as nat, data@, dataoff).1 == goal.1,
            goal == spec_data_walk(s0, spec_cmds_start(s0), spec_ncmds(s0), data@, dataoff),
        decreases ncmds - i,
    {
        let ghost s_in = image@;
        let ghost rem = (ncmds - i) as nat;
        if !range_ok(image.as_slice(), q, 8) {
            return Err(SplitError::Truncated);
        }
        let cmd = read_u32(image.as_slice(), q).unwrap();
        let cmdsize = read_u32(image.as_slice(), q + 4).unwrap();
        if cmd == CMD_SEGMENT {
            if !range_ok(image.as_slice(), q + 8, SEGMENT_BODY_SIZE) {
                return Err(SplitError::Truncated);
            }
            if name_is_data(image.as_slice(), q + 8) {
                let target: u64 = match dataoff {
                    Some(o) => o,
                    None => read_u32(image.as_slice(), q + 8 + 24).unwrap() as u64,
                };
                if !range_ok(image.as_slice(), target, data.len() as u64) {
                    return Err(SplitError::Truncated);
                }
                splice_bytes(image, target as usize, data);
            }
        } else if cmd == CMD_SEGMENT64 {
            if !range_ok(image.as_slice(), q + 8, SEGMENT64_BODY_SIZE) {
                return Err(SplitError::Truncated);
            }
            if name_is_data(image.as_slice(), q + 8) {
                let target: u64 = match dataoff {
                    Some(o) => o,
                    None => read_u64(image.as_slice(), q + 8 + 32).unwrap(),
                };
                if !range_ok(image.as_slice(), target, data.len() as u64) {
                    return Err(SplitError::Truncated);
                }
                splice_bytes(image, target as usize, data);
            }
        }
        i += 1;
        proof {
            assert(spec_data_walk(s_in, q as int, rem, data@, dataoff).0 == spec_data_walk(
                image@,
                q as int + cmdsize as int,
                (rem - 1) as nat,
                data@,
                dataoff,
            ).0);
            assert(spec_data_walk(s_in, q as int, rem, data@, dataoff).1 == spec_data_walk(
                image@,
                q as int + cmdsize as int,
                (rem - 1) as nat,
                data@,
                dataoff,
            ).1);
        }
        match q.checked_add(cmdsize as u64) {
            Some(q2) => {
                q = q2;
            },
            None => {
                if i == ncmds {
                    return Ok(());
                } else {
                    proof {
                        assert(!readable(image@, q as int + cmdsize as int, 8));
                    }
                    return Err(SplitError::Truncated);
                }
            },
        }
    }
    Ok(())
}

/// Laying the same bytes over the same range twice is the same as laying
/// them once.
pub proof fn lemma_splice_idempotent(s: Seq<u8>, off: int, d: Seq<u8>)
    ensures
        spec_splice(spec_splice(s, off, d), off, d) == spec_splice(s, off, d),
{
    assert(spec_splice(spec_splice(s, off, d), off, d) =~= spec_splice(s, off, d));
}

/// The metadata-fixup fold touches nothing outside its edit set: the
/// buffer keeps its length, and every byte position not in the edit set
/// keeps its value.
pub proof fn lemma_fix_walk_frame(s: Seq<u8>, p: int, n: nat, min: u64)
    ensures
        spec_fix_walk(s, p, n, min).0.len() == s.len(),
        forall|i: int|
            0 <= i < s.len() && !spec_fix_walk(s, p, n, min).2.contains(i)
                ==> #[trigger] spec_fix_walk(s, p, n, min).0[i] == s[i],
    decreases n,
{
    vstd::bytes::lemma_auto_spec_u32_to_from_le_bytes();
    vstd::bytes::lemma_auto_spec_u64_to_from_le_bytes();
    if n == 0 || !readable(s, p, 8) {
    } else {
        let cmd = le32(s, p);
        let cmdsize = le32(s, p + 4);
        let w = spec_fix_walk(s, p, n, min);
        if cmd == CMD_SEGMENT && readable(s, p + 8, SEGMENT_BODY_SIZE as int) && matches_at(
            s,
            spec_seg_linkedit(),
            p + 8,
        ) {
            let vm = le32(s, p + 8 + 16) as u64;
            if vm >= min {
                let dd = spec_u32_to_le_bytes((vm - min) as u32);
                let s2 = spec_splice(s, p + 8 + 24, dd);
                lemma_fix_walk_frame(s2, p + cmdsize, (n - 1) as nat, min);
                assert forall|i: int| 0 <= i < s.len() && !w.2.contains(i) implies #[trigger] w.0[i]
                    == s[i] by {
                    assert(!range_set(p + 8 + 24, 4).contains(i));
                    assert(s2[i] == s[i]);
                }
            }
        } else if cmd == CMD_SEGMENT64 && readable(s, p + 8, SEGMENT64_BODY_SIZE as int)
            && matches_at(s, spec_seg_linkedit(), p + 8) {
            let vm = le64(s, p + 8 + 16);
            if vm >= min {
                let dd = spec_u64_to_le_bytes((vm - min) as u64);
                let s2 = spec_splice(s, p + 8 + 32, dd);
                lemma_fix_walk_frame(s2, p + cmdsize, (n - 1) as nat, min);
                assert forall|i: int| 0 <= i < s.len() && !w.2.contains(i) implies #[trigger] w.0[i]
                    == s[i] by {
                    assert(!range_set(p + 8 + 32, 8).contains(i));
                    assert(s2[i] == s[i]);
                }
            }
        } else if cmd == CMD_SYMTAB && readable(s, p + 8, SYMTAB_BODY_SIZE as int) && cmd
            != CMD_SEGMENT && cmd != CMD_SEGMENT64 {
            let s2 = spec_splice(s, p + 8, zero_bytes(SYMTAB_BODY_SIZE as int));
            lemma_fix_walk_frame(s2, p + cmdsize, (n - 1) as nat, min);
            assert forall|i: int| 0 <= i < s.len() && !w.2.contains(i) implies #[trigger] w.0[i]
                == s[i] by {
                assert(!range_set(p + 8, SYMTAB_BODY_SIZE as int).contains(i));
                assert(s2[i] == s[i]);
            }
        } else if cmd == CMD_DYSYMTAB && readable(s, p + 8, DYSYMTAB_BODY_SIZE as int) && cmd
            != CMD_SEGMENT && cmd != CMD_SEGMENT64 && cmd != CMD_SYMTAB {
            let s2 = spec_splice(s, p + 8, zero_bytes(DYSYMTAB_BODY_SIZE as int));
            lemma_fix_walk_frame(s2, p + cmdsize, (n - 1) as nat, min);
            assert forall|i: int| 0 <= i < s.len() && !w.2.contains(i) implies #[trigger] w.0[i]
                == s[i] by {
                assert(!range_set(p + 8, DYSYMTAB_BODY_SIZE as int).contains(i));
                assert(s2[i] == s[i]);
            }
        } else {
            lemma_fix_walk_frame(s, p + cmdsize, (n - 1) as nat, min);
        }
    }
}

/// With an explicit splice target every write of the data-splice fold lays
/// the same bytes over the same range, so the fold either leaves the
/// buffer alone (no writable-data segment found) or produces exactly one
/// splice of `d` at `off`.
pub proof fn lemma_data_walk_const_target(s: Seq<u8>, p: int, n: nat, d: Seq<u8>, off: u64)
    ensures
        spec_data_walk(s, p, n, d, Some(off)).2 ==> spec_data_walk(s, p, n, d, Some(off)).0
            == spec_splice(s, off as int, d),
        !spec_data_walk(s, p, n, d, Some(off)).2 ==> spec_data_walk(s, p, n, d, Some(off)).0 == s,
    decreases n,
{
    if n == 0 || !readable(s, p, 8) {
    } else {
        let cmd = le32(s, p);
        let cmdsize = le32(s, p + 4);
        let writes = (cmd == CMD_SEGMENT && readable(s, p + 8, SEGMENT_BODY_SIZE as int)
            && matches_at(s, spec_seg_data(), p + 8)) || (cmd == CMD_SEGMENT64 && readable(
            s,
            p + 8,
            SEGMENT64_BODY_SIZE as int,
        ) && matches_at(s, spec_seg_data(), p + 8));
        if writes && readable(s, off as int, d.len() as int) {
            let s2 = spec_splice(s, off as int, d);
            lemma_data_walk_const_target(s2, p + cmdsize, (n - 1) as nat, d, off);
            lemma_splice_idempotent(s, off as int, d);
        } else if !writes {
            lemma_data_walk_const_target(s, p + cmdsize, (n - 1) as nat, d, off);
        }
    }
}

/// Fixup composition law: when the metadata fixup runs to completion on an
/// image, and the writable-data splice with an explicit target then runs
/// to completion and finds a writable-data segment, the final buffer holds
/// exactly the data bytes at the target range, and every byte outside that
/// range and outside the metadata fixup's edit set keeps its original
/// value.
pub proof fn lemma_fixup_pipeline(s: Seq<u8>, d: Seq<u8>, off: u64)
    requires
        spec_fix_linkedit_ok(s),
        spec_fix_data_ok(spec_fix_linkedit_out(s), d, Some(off)),
        spec_fix_data_wrote(spec_fix_linkedit_out(s), d, Some(off)),
        off + d.len() <= s.len(),
    ensures
        spec_fix_data_out(spec_fix_linkedit_out(s), d, Some(off)).len() == s.len(),
        spec_fix_data_out(spec_fix_linkedit_out(s), d, Some(off)).subrange(
            off as int,
            off as int + d.len(),
        ) == d,
        forall|i: int|
            0 <= i < s.len() && !spec_fix_linkedit_edits(s).contains(i) && !(off <= i < off
                + d.len()) ==> #[trigger] spec_fix_data_out(spec_fix_linkedit_out(s), d, Some(off))[i]
                == s[i],
{
    let m = spec_fix_linkedit_out(s);
    let min = spec_min_walk(s, spec_cmds_start(s), spec_ncmds(s), u64::MAX)->Some_0;
    lemma_fix_walk_frame(s, spec_cmds_start(s), spec_ncmds(s), min);
    assert(m.len() == s.len());
    let t = spec_fix_data_out(m, d, Some(off));
    lemma_data_walk_const_target(m, spec_cmds_start(m), spec_ncmds(m), d, off);
    assert(t == spec_splice(m, off as int, d));
    assert(t.subrange(off as int, off as int + d.len()) =~= d);
    assert forall|i: int|
        0 <= i < s.len() && !spec_fix_linkedit_edits(s).contains(i) && !(off <= i < off
            + d.len()) implies #[trigger] t[i] == s[i] by {
        assert(t[i] == m[i]);
        assert(m[i] == s[i]);
    }
}

/// One module's buffer after its fixups, and which of them could be
/// applied. A fixup that reports the buffer is not an image is recorded
/// here and the module is still written out; anything else is fatal.
pub struct Restored {
    /// The module bytes, fixed as far as the buffer allowed.
    pub bytes: Vec<u8>,
    /// The metadata fixup found an image header and ran.
    pub linkedit_applied: bool,
    /// Data was supplied, the buffer held an image header, and the splice ran.
    pub data_applied: bool,
}

/// The view of an optional byte slice.
pub open spec fn view_opt(d: Option<&[u8]>) -> Option<Seq<u8>> {
    match d {
        Some(x) => Some(x@),
        None => None,
    }
}

/// The buffer after the metadata fixup, when it applies at all.
pub open spec fn spec_restore_mid(s: Seq<u8>) -> Seq<u8> {
    if spec_is_macho(s) {
        spec_fix_linkedit_out(s)
    } else {
        s
    }
}

/// The buffer [`restore_image`] produces: the metadata fixup where the
/// buffer is an image, then the data splice where data is supplied and the
/// fixed buffer is an image.
pub open spec fn spec_restore_out(s: Seq<u8>, d: Option<Seq<u8>>, off: Option<u64>) -> Seq<u8> {
    match d {
        None => spec_restore_mid(s),
        Some(dd) => if spec_is_macho(spec_restore_mid(s)) {
            spec_fix_data_out(spec_restore_mid(s), dd, off)
        } else {
            spec_restore_mid(s)
        },
    }
}

/// Whether neither fixup runs off the end of the buffer (a buffer that is
/// not an image at all is fine: that fixup is skipped).
pub open spec fn spec_restore_ok(s: Seq<u8>, d: Option<Seq<u8>>, off: Option<u64>) -> bool {
    &&& (spec_is_macho(s) ==> spec_fix_linkedit_ok(s))
    &&& (match d {
        Some(dd) => spec_is_macho(spec_restore_mid(s)) ==> spec_fix_data_ok(
            spec_restore_mid(s),
            dd,
            off,
        ),
        None => true,
    })
}

/// Copy one extracted module out of the blob and run its fixups: the
/// metadata offset correction always, the writable-data splice when `data`
/// is supplied. A buffer either fixup rejects as "not an image" is kept
/// as it stands — the module is still extracted — while a command walk
/// that leaves the buffer is fatal.
pub fn restore_image(buf: &[u8], data: Option<&[u8]>, dataoff: Option<u64>) -> (r: Result<
    Restored,
    SplitError,
>)
    ensures
        match r {
            Ok(res) => {
                &&& spec_restore_ok(buf@, view_opt(data), dataoff)
                &&& res.bytes@ == spec_restore_out(buf@, view_opt(data), dataoff)
                &&& res.linkedit_applied == spec_is_macho(buf@)
                &&& res.data_applied == (view_opt(data) is Some && spec_is_macho(
                    spec_restore_mid(buf@),
                ))
            },
            Err(SplitError::Truncated) => !spec_restore_ok(buf@, view_opt(data), dataoff),
            _ => false,
        },
{
    let mut tmp = vstd::slice::slice_to_vec(buf);
    let linkedit_applied: bool;
    match fix_linkedit(&mut tmp) {
        Ok(()) => {
            linkedit_applied = true;
        },
        Err(SplitError::NotMachO) => {
            linkedit_applied = false;
        },
        Err(_) => {
            return Err(SplitError::Truncated);
        },
    }
    let data_applied: bool;
    match data {
        None => {
            data_applied = false;
        },
        Some(dd) => {
            match fix_data_segment(&mut tmp, dd, dataoff) {
                Ok(()) => {
                    data_applied = true;
                },
                Err(SplitError::NotMachO) => {
                    data_applied = false;
                },
                Err(_) => {
                    return Err(SplitError::Truncated);
                },
            }
        },
    }
    Ok(Restored { bytes: tmp, linkedit_applied, data_applied })
}

} // verus!
