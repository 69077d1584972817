//! The legacy 32-bit extraction path.
//!
//! Legacy firmware keeps no usable descriptor for its module table: the
//! table is anchored by the root server's space-padded name token, and
//! the true per-entry stride is the distance from that anchor to a
//! 4-byte sentinel token found within a 128-byte window. Entries are then
//! walked at that stride until one with physical field 0 ends the table —
//! a normal termination, not an error.

use crate::bytes::{le32, le64, range_ok, readable, read_vec};
use crate::extent::{calc_size, spec_calc_size};
use crate::fixup::{restore_image, spec_restore_ok, spec_restore_out};
use crate::hdr64::decode_app_old;
use crate::name::{extract_name, spec_extract_name};
use crate::search::{first_match, spec_first_match};
use crate::split::{ModuleInfo, OutputFile};
use crate::uuidstr::{spec_uuid_str_le, uuid_string_le};
use crate::SplitError;
use vstd::prelude::*;
use vstd::slice::slice_subrange;

verus! {

/// The space-padded root-server name token that anchors the legacy table.
pub open spec fn spec_sepos_needle() -> Seq<u8> {
    seq![0x53u8, 0x45, 0x50, 0x4f, 0x53, 0x20, 0x20, 0x20, 0x20, 0x20, 0x20, 0x20]
}

/// The sentinel token whose distance from the name anchor gives the
/// derived stride.
pub open spec fn spec_sepd_needle() -> Seq<u8> {
    seq![0x53u8, 0x45, 0x50, 0x44]
}

/// Offset of the name field relative to the table start: where the
/// root-server name token first occurs from the table start on.
pub open spec fn spec_tailoff(s: Seq<u8>, pos0: int) -> Option<int> {
    spec_first_match(s.subrange(pos0, s.len() as int), spec_sepos_needle())
}

/// The derived per-entry stride: where the sentinel token first occurs in
/// the 128-byte window at the name anchor.
pub open spec fn spec_old_stride(s: Seq<u8>, pos0: int) -> Option<int> {
    match spec_tailoff(s, pos0) {
        None => None,
        Some(t) => if !readable(s, pos0 + t, 128) {
            None
        } else {
            spec_first_match(s.subrange(pos0 + t, pos0 + t + 128), spec_sepd_needle())
        },
    }
}

/// How many entries precede the zero-physical entry that ends the table,
/// walking from `pos` at `stride`; `None` when an entry leaves the blob
/// before any zero-physical entry is seen.
pub open spec fn spec_old_stop(s: Seq<u8>, pos: int, stride: int) -> Option<nat>
    decreases s.len() + 125 - pos when 1 <= stride <= 124 && 0 <= pos
{
    if !readable(s, pos, 20) {
        None
    } else if le64(s, pos) == 0 {
        Some(0)
    } else {
        match spec_old_stop(s, pos + stride, stride) {
            None => None,
            Some(n) => Some((n + 1) as nat),
        }
    }
}

/// Legacy entry `k` extracts cleanly: its name and UUID fields lie inside
/// the blob, the first entry leaves room for the structure dump and its
/// size covers it, and the module's own range and fixups stay inside the
/// blob.
pub open spec fn spec_old_entry_ok(s: Seq<u8>, pos0: int, tailoff: int, stride: int, k: int) -> bool {
    let pos = pos0 + k * stride;
    let phys0 = le64(s, pos) as int;
    let size0 = le32(s, pos + 12) as int;
    let phys = phys0 + (if k == 0 {
        0x1000int
    } else {
        0int
    });
    let size = size0 - (if k == 0 {
        0x1000int
    } else {
        0int
    });
    &&& readable(s, pos + tailoff, 12)
    &&& readable(s, pos + tailoff + 12, 16)
    &&& (k == 0 ==> phys0 + 0x1000 <= s.len() && size0 >= 0x1000)
    &&& phys + size <= s.len()
    &&& spec_restore_ok(s.subrange(phys, phys + size), None, None)
}

/// The output record of legacy entry `k`.
pub open spec fn spec_old_module_output(
    s: Seq<u8>,
    pos0: int,
    tailoff: int,
    stride: int,
    k: int,
    f: OutputFile,
) -> bool {
    let pos = pos0 + k * stride;
    let phys = le64(s, pos) + (if k == 0 {
        0x1000int
    } else {
        0int
    });
    let size = le32(s, pos + 12) - (if k == 0 {
        0x1000int
    } else {
        0int
    });
    &&& f.index == 2 + k
    &&& !f.extra
    &&& f.tail@ == spec_extract_name(s.subrange(pos + tailoff, pos + tailoff + 12))
    &&& f.bytes@ == spec_restore_out(s.subrange(phys, phys + size), None, None)
    &&& (f.info matches Some(mi) && {
        &&& mi.phys_text == phys
        &&& mi.size_text == size
        &&& mi.phys_data == 0
        &&& mi.size_data == 0
        &&& mi.virt == le32(s, pos + 8)
        &&& mi.ventry == le32(s, pos + 16)
        &&& mi.uuid_str@ == spec_uuid_str_le(s.subrange(pos + tailoff + 12, pos + tailoff + 28))
    })
}

/// The structure dump that precedes the first legacy module: the page at
/// the first entry's unadjusted physical offset.
pub open spec fn spec_old_extra_output(s: Seq<u8>, pos0: int, f: OutputFile) -> bool {
    &&& f.extra
    &&& f.index == 0
    &&& f.tail@ == seq![0x65u8, 0x78, 0x74, 0x72, 0x61, 0x5f, 0x73, 0x74, 0x72, 0x75, 0x63, 0x74]
    &&& f.bytes@ == s.subrange(le64(s, pos0) as int, le64(s, pos0) + 0x1000)
    &&& f.info is None
}

/// The whole legacy walk succeeds: both anchor tokens are found, the walk
/// reaches a zero-physical entry inside the blob, and every entry before
/// it extracts cleanly.
pub open spec fn spec_split32_old_ok(s: Seq<u8>, pos0: int) -> bool {
    &&& pos0 <= s.len()
    &&& spec_tailoff(s, pos0) is Some
    &&& readable(s, pos0 + spec_tailoff(s, pos0)->Some_0, 128)
    &&& spec_old_stride(s, pos0) is Some
    &&& spec_old_stop(s, pos0, spec_old_stride(s, pos0)->Some_0) is Some
    &&& forall|k: int|
        0 <= k < spec_old_stop(s, pos0, spec_old_stride(s, pos0)->Some_0)->Some_0
            ==> spec_old_entry_ok(
            s,
            pos0,
            spec_tailoff(s, pos0)->Some_0,
            spec_old_stride(s, pos0)->Some_0,
            k,
        )
}

/// The number of legacy modules extracted (meaningful when the walk
/// succeeds).
pub open spec fn spec_old_count(s: Seq<u8>, pos0: int) -> int {
    spec_old_stop(s, pos0, spec_old_stride(s, pos0)->Some_0)->Some_0 as int
}

/// Walk the legacy module table: derive the stride from the two anchor
/// tokens, then extract entries until a zero-physical entry ends the
/// table. The first entry contributes a bare structure dump, and its own
/// range starts one page later. A missing anchor token is
/// `AnchorNotFound`; a walk or extraction that leaves the blob is
/// `Truncated`.
pub fn split32_old_outputs(krnl: &[u8], pos0: u64) -> (r: Result<Vec<OutputFile>, SplitError>)
    requires
        krnl@.len() <= u64::MAX - 0x1000,
    ensures
        match r {
            Ok(fs) => {
                &&& spec_split32_old_ok(krnl@, pos0 as int)
                &&& (spec_old_count(krnl@, pos0 as int) == 0 ==> fs@.len() == 0)
                &&& (spec_old_count(krnl@, pos0 as int) > 0 ==> {
                    &&& fs@.len() == spec_old_count(krnl@, pos0 as int) + 1
                    &&& spec_old_extra_output(krnl@, pos0 as int, fs@[0])
                    &&& forall|k: int|
                        0 <= k < spec_old_count(krnl@, pos0 as int) ==> spec_old_module_output(
                            krnl@,
                            pos0 as int,
                            spec_tailoff(krnl@, pos0 as int)->Some_0,
                            spec_old_stride(krnl@, pos0 as int)->Some_0,
                            k,
                            #[trigger] fs@[1 + k],
                        )
                })
            },
            Err(SplitError::AnchorNotFound) => pos0 <= krnl@.len() && (spec_tailoff(
                krnl@,
                pos0 as int,
            ) is None || (readable(krnl@, pos0 + spec_tailoff(krnl@, pos0 as int)->Some_0, 128)
                && spec_old_stride(krnl@, pos0 as int) is None)),
            Err(SplitError::Truncated) => pos0 > krnl@.len() || (spec_tailoff(
                krnl@,
                pos0 as int,
            ) is Some && !readable(krnl@, pos0 + spec_tailoff(krnl@, pos0 as int)->Some_0, 128))
                || (spec_old_stride(krnl@, pos0 as int) is Some && !spec_split32_old_ok(
                krnl@,
                pos0 as int,
            )),
            _ => false,
        },
{
    let ghost s = krnl@;
    let blen = krnl.len();
    if pos0 > blen as u64 {
        return Err(SplitError::Truncated);
    }
    // "SEPOS" padded to twelve bytes
    let sepos: [u8; 12] = [0x53, 0x45, 0x50, 0x4f, 0x53, 0x20, 0x20, 0x20, 0x20, 0x20, 0x20, 0x20];
    proof {
        assert(sepos@ =~= spec_sepos_needle());
    }
    let hay = slice_subrange(krnl, pos0 as usize, blen);
    let tailoff: u64 = match first_match(hay, &sepos) {
        Some(t) => t as u64,
        None => {
            return Err(SplitError::AnchorNotFound);
        },
    };
    proof {
        assert(tailoff + 12 <= s.len() - pos0);
    }
    let anchor = pos0 + tailoff;
    if !range_ok(krnl, anchor, 128) {
        return Err(SplitError::Truncated);
    }
    // "SEPD"
    let sepd: [u8; 4] = [0x53, 0x45, 0x50, 0x44];
    proof {
        assert(sepd@ =~= spec_sepd_needle());
    }
    let window = slice_subrange(krnl, anchor as usize, (anchor + 128) as usize);
    let stride: u64 = match first_match(window, &sepd) {
        Some(x) => x as u64,
        None => {
            return Err(SplitError::AnchorNotFound);
        },
    };
    proof {
        // The sentinel cannot sit at the anchor itself: the anchor bytes
        // are the name token, which differs at its fourth byte.
        let hs = s.subrange(pos0 as int, s.len() as int);
        assert(hs.subrange(tailoff as int, tailoff as int + 12)[3] == hs[tailoff as int + 3]);
        let ws = s.subrange(anchor as int, anchor as int + 128);
        if stride == 0 {
            assert(ws.subrange(0, 4)[3] == ws[3]);
            assert(ws[3] == s[anchor as int + 3]);
            assert(hs[tailoff as int + 3] == s[anchor as int + 3]);
            assert(false);
        }
        assert(1 <= stride <= 124);
    }
    let ghost g_tailoff = tailoff as int;
    let ghost g_stride = stride as int;
    let mut outs: Vec<OutputFile> = Vec::new();
    let mut pos: u64 = pos0;
    let mut k: u64 = 0;
    loop
        invariant_except_break
            s == krnl@,
            s.len() <= u64::MAX - 0x1000,
            blen == s.len(),
            pos0 <= s.len(),
            1 <= stride <= 124,
            spec_tailoff(s, pos0 as int) == Some(g_tailoff),
            readable(s, pos0 + g_tailoff, 128),
            spec_old_stride(s, pos0 as int) == Some(g_stride),
            g_tailoff == tailoff,
            g_stride == stride,
            anchor == pos0 + tailoff,
            pos as int == pos0 + k * g_stride,
            k <= pos,
            pos <= u64::MAX - 0x200,
            (match spec_old_stop(s, pos as int, g_stride) {
                None => spec_old_stop(s, pos0 as int, g_stride) is None,
                Some(m) => spec_old_stop(s, pos0 as int, g_stride) == Some((k + m) as nat),
            }),
            forall|j: int|
                0 <= j < k ==> spec_old_entry_ok(s, pos0 as int, g_tailoff, g_stride, j),
            k == 0 ==> outs@.len() == 0,
            k > 0 ==> outs@.len() == k + 1 && spec_old_extra_output(s, pos0 as int, outs@[0]),
            forall|j: int|
                0 <= j < k ==> spec_old_module_output(
                    s,
                    pos0 as int,
                    g_tailoff,
                    g_stride,
                    j,
                    #[trigger] outs@[1 + j],
                ),
        ensures
            s == krnl@,
            spec_old_stop(s, pos0 as int, g_stride) == Some(k as nat),
            spec_tailoff(s, pos0 as int) == Some(g_tailoff),
            spec_old_stride(s, pos0 as int) == Some(g_stride),
            g_tailoff == tailoff,
            g_stride == stride,
            pos0 <= s.len(),
            readable(s, pos0 + g_tailoff, 128),
            forall|j: int|
                0 <= j < k ==> spec_old_entry_ok(s, pos0 as int, g_tailoff, g_stride, j),
            k == 0 ==> outs@.len() == 0,
            k > 0 ==> outs@.len() == k + 1 && spec_old_extra_output(s, pos0 as int, outs@[0]),
            forall|j: int|
                0 <= j < k ==> spec_old_module_output(
                    s,
                    pos0 as int,
                    g_tailoff,
                    g_stride,
                    j,
                    #[trigger] outs@[1 + j],
                ),
        decreases s.len() + 125 - pos,
    {
        let a = match decode_app_old(krnl, pos) {
            Ok(a) => a,
            Err(_) => {
                return Err(SplitError::Truncated);
            },
        };
        if a.phys == 0 {
            break ;
        }
        proof {
            // The table does not stop at this entry, so either the walk
            // ahead leaves the blob or the stop count lies beyond `k`.
            match spec_old_stop(s, pos as int + g_stride, g_stride) {
                None => {
                    assert(spec_old_stop(s, pos as int, g_stride) is None);
                },
                Some(m) => {
                    assert(spec_old_stop(s, pos as int, g_stride) == Some((m + 1) as nat));
                },
            }
            assert(spec_old_stop(s, pos0 as int, g_stride) is None || spec_old_stop(
                s,
                pos0 as int,
                g_stride,
            )->Some_0 > k);
        }
        let adj_phys: u64;
        let adj_size: u32;
        if k == 0 {
            if !range_ok(krnl, a.phys, 0x1000) {
                proof {
                    assert(!spec_old_entry_ok(s, pos0 as int, g_tailoff, g_stride, k as int));
                }
                return Err(SplitError::Truncated);
            }
            if a.size < 0x1000 {
                proof {
                    assert(!spec_old_entry_ok(s, pos0 as int, g_tailoff, g_stride, k as int));
                }
                return Err(SplitError::Truncated);
            }
            let extra_bytes = read_vec(krnl, a.phys, 0x1000).unwrap();
            // "extra_struct"
            let extra_tail: Vec<u8> = vec![
                0x65,
                0x78,
                0x74,
                0x72,
                0x61,
                0x5f,
                0x73,
                0x74,
                0x72,
                0x75,
                0x63,
                0x74,
            ];
            proof {
                assert(extra_tail@ =~= seq![
                    0x65u8,
                    0x78,
                    0x74,
                    0x72,
                    0x61,
                    0x5f,
                    0x73,
                    0x74,
                    0x72,
                    0x75,
                    0x63,
                    0x74,
                ]);
            }
            outs.push(
                OutputFile {
                    index: 0,
                    tail: extra_tail,
                    bytes: extra_bytes,
                    extra: true,
                    info: None,
                },
            );
            adj_phys = a.phys + 0x1000;
            adj_size = a.size - 0x1000;
        } else {
            adj_phys = a.phys;
            adj_size = a.size;
        }
        let name_pos = match pos.checked_add(tailoff) {
            Some(x) => x,
            None => {
                proof {
                    assert(!spec_old_entry_ok(s, pos0 as int, g_tailoff, g_stride, k as int));
                }
                return Err(SplitError::Truncated);
            },
        };
        if name_pos > u64::MAX - 28 {
            proof {
                assert(!spec_old_entry_ok(s, pos0 as int, g_tailoff, g_stride, k as int));
            }
            return Err(SplitError::Truncated);
        }
        if !range_ok(krnl, name_pos, 12) || !range_ok(krnl, name_pos + 12, 16) {
            proof {
                assert(!spec_old_entry_ok(s, pos0 as int, g_tailoff, g_stride, k as int));
            }
            return Err(SplitError::Truncated);
        }
        if !range_ok(krnl, adj_phys, adj_size as u64) {
            proof {
                assert(!spec_old_entry_ok(s, pos0 as int, g_tailoff, g_stride, k as int));
            }
            return Err(SplitError::Truncated);
        }
        let name_field = read_vec(krnl, name_pos, 12).unwrap();
        let uuid_field = read_vec(krnl, name_pos + 12, 16).unwrap();
        let src = read_vec(krnl, adj_phys, adj_size as usize).unwrap();
        let restored = match restore_image(src.as_slice(), None, None) {
            Ok(res) => res,
            Err(_) => {
                proof {
                    assert(!spec_old_entry_ok(s, pos0 as int, g_tailoff, g_stride, k as int));
                }
                return Err(SplitError::Truncated);
            },
        };
        let tail = extract_name(name_field.as_slice());
        let uuid_str = uuid_string_le(uuid_field.as_slice());
        outs.push(
            OutputFile {
                index: 2 + k,
                tail,
                bytes: restored.bytes,
                extra: false,
                info: Some(
                    ModuleInfo {
                        phys_text: adj_phys,
                        size_text: adj_size as u64,
                        phys_data: 0,
                        size_data: 0,
                        virt: a.virt as u64,
                        ventry: a.entry as u64,
                        uuid_str,
                    },
                ),
            },
        );
        proof {
            assert((k + 1) * g_stride == k * g_stride + g_stride) by (nonlinear_arith);
        }
        k += 1;
        pos = pos + stride;
    }
    Ok(outs)
}

/// The stride of 64-bit-shaped entries embedded in legacy firmware:
/// selected by the source-version major of the first entry.
pub open spec fn spec_new_stride(s: Seq<u8>, pos0: int, ver: u8) -> int {
    crate::srcver::spec_stride64_embedded(
        crate::srcver::spec_major(le64(s, crate::hdr64::spec_app64_name_off(s, pos0, ver) + 32)),
    ) as int
}

/// How many modules the new-style walk in legacy firmware produces: all
/// counted modules and shared libraries when there are shared libraries,
/// else the module count less the two the boot arguments already cover.
pub open spec fn spec_new_count(n_apps: int, shlib: int) -> int {
    if shlib != 0 {
        n_apps + shlib
    } else if n_apps >= 2 {
        n_apps - 2
    } else {
        0
    }
}

/// The first entry supports the structure dump: it decodes, the page at
/// its physical offset lies inside the blob, and its size covers that
/// page.
pub open spec fn spec_new_first_ok(s: Seq<u8>, pos0: int, ver: u8) -> bool {
    &&& crate::hdr64::spec_app64_wf(s, pos0, ver)
    &&& le64(s, pos0) + 0x1000 <= s.len()
    &&& le64(s, pos0 + 8) >= 0x1000
}

/// Whether new-style entry `k` is the one whose ranges are shifted past
/// the structure dump: only the first, and only when the first loop of
/// the walk processes it.
pub open spec fn spec_new_adjusted(n_apps: int, k: int) -> bool {
    k == 0 && n_apps > 2
}

/// Whether new-style entry `k` has its data spliced at its text size, as
/// a shared library.
pub open spec fn spec_new_forced(n_apps: int, k: int) -> bool {
    2 + k >= n_apps
}

/// New-style entry `k` extracts cleanly.
pub open spec fn spec_new_module_ok(
    s: Seq<u8>,
    pos0: int,
    stride: int,
    ver: u8,
    n_apps: int,
    k: int,
) -> bool {
    let eoff = pos0 + k * stride;
    let adj: int = if spec_new_adjusted(n_apps, k) {
        0x1000
    } else {
        0
    };
    let pt = le64(s, eoff) + adj;
    let st = le64(s, eoff + 8) - adj;
    let pd = le64(s, eoff + 16) as int;
    let sd = le64(s, eoff + 24) as int;
    &&& crate::hdr64::spec_app64_wf(s, eoff, ver)
    &&& pd + sd <= s.len()
    &&& pt + st + sd <= s.len()
    &&& spec_restore_ok(
        s.subrange(pt, pt + st + sd),
        Some(s.subrange(pd, pd + sd)),
        if spec_new_forced(n_apps, k) {
            Some(le64(s, eoff + 8))
        } else {
            None
        },
    )
}

/// The output record of new-style entry `k`.
pub open spec fn spec_new_module_output(
    s: Seq<u8>,
    pos0: int,
    stride: int,
    ver: u8,
    n_apps: int,
    k: int,
    f: OutputFile,
) -> bool {
    let eoff = pos0 + k * stride;
    let adj: int = if spec_new_adjusted(n_apps, k) {
        0x1000
    } else {
        0
    };
    let pt = le64(s, eoff) + adj;
    let st = le64(s, eoff + 8) - adj;
    let pd = le64(s, eoff + 16) as int;
    let sd = le64(s, eoff + 24) as int;
    let name_off = crate::hdr64::spec_app64_name_off(s, eoff, ver);
    &&& f.index == 2 + k
    &&& !f.extra
    &&& f.tail@ == spec_extract_name(s.subrange(name_off, name_off + 16))
    &&& f.bytes@ == spec_restore_out(
        s.subrange(pt, pt + st + sd),
        Some(s.subrange(pd, pd + sd)),
        if spec_new_forced(n_apps, k) {
            Some(le64(s, eoff + 8))
        } else {
            None
        },
    )
    &&& (f.info matches Some(mi) && {
        &&& mi.phys_text == pt
        &&& mi.size_text == st
        &&& mi.phys_data == pd
        &&& mi.size_data == sd
        &&& mi.virt == le64(s, eoff + 32)
        &&& mi.ventry == le64(s, eoff + 40)
        &&& mi.uuid_str@ == spec_uuid_str_le(s.subrange(name_off + 16, name_off + 32))
    })
}

/// The structure dump at the first new-style entry's unadjusted physical
/// offset.
pub open spec fn spec_new_extra_output(s: Seq<u8>, pos0: int, f: OutputFile) -> bool {
    &&& f.extra
    &&& f.index == 0
    &&& f.tail@ == seq![0x73u8, 0x74, 0x72, 0x75, 0x63, 0x74, 0x2e, 0x65, 0x78, 0x74, 0x72, 0x61]
    &&& f.bytes@ == s.subrange(le64(s, pos0) as int, le64(s, pos0) + 0x1000)
    &&& f.info is None
}

/// The whole new-style walk succeeds on `s`.
pub open spec fn spec_split32_new_ok(s: Seq<u8>, pos0: int, ver: u8, n_apps: int, shlib: int) -> bool {
    &&& spec_new_first_ok(s, pos0, ver)
    &&& forall|k: int|
        0 <= k < spec_new_count(n_apps, shlib) ==> spec_new_module_ok(
            s,
            pos0,
            spec_new_stride(s, pos0, ver),
            ver,
            n_apps,
            k,
        )
}

/// Walk 64-bit-shaped module entries embedded in a legacy firmware: the
/// first entry contributes a bare structure dump and, when the walk's
/// first phase covers it, has its own ranges shifted past that page;
/// entries counted as shared libraries have their data spliced at their
/// text size.
pub fn split32_new_outputs(krnl: &[u8], pos0: u64, n_apps: u64, shlib: u64) -> (r: Result<
    Vec<OutputFile>,
    SplitError,
>)
    requires
        krnl@.len() <= u64::MAX - 0x1000,
        pos0 <= u64::MAX - 0x1000,
        n_apps <= 0xFF,
        shlib <= 0xFFFF_FFFF,
    ensures
        ({
            let ver: u8 = if shlib == 0 {
                0
            } else {
                4
            };
            match r {
                Ok(fs) => {
                    &&& spec_split32_new_ok(krnl@, pos0 as int, ver, n_apps as int, shlib as int)
                    &&& fs@.len() == 1 + spec_new_count(n_apps as int, shlib as int)
                    &&& spec_new_extra_output(krnl@, pos0 as int, fs@[0])
                    &&& forall|k: int|
                        0 <= k < spec_new_count(n_apps as int, shlib as int)
                            ==> spec_new_module_output(
                            krnl@,
                            pos0 as int,
                            spec_new_stride(krnl@, pos0 as int, ver),
                            ver,
                            n_apps as int,
                            k,
                            #[trigger] fs@[1 + k],
                        )
                },
                Err(SplitError::Truncated) => !spec_split32_new_ok(
                    krnl@,
                    pos0 as int,
                    ver,
                    n_apps as int,
                    shlib as int,
                ),
                _ => false,
            }
        }),
{
    let ghost s = krnl@;
    let ver: u8 = if shlib == 0 {
        0
    } else {
        4
    };
    let blen = krnl.len();
    let first = match crate::hdr64::decode_app64(krnl, pos0, ver) {
        Ok(a) => a,
        Err(_) => {
            return Err(SplitError::Truncated);
        },
    };
    if !range_ok(krnl, first.phys_text, 0x1000) {
        return Err(SplitError::Truncated);
    }
    if first.size_text < 0x1000 {
        return Err(SplitError::Truncated);
    }
    let extra_bytes = read_vec(krnl, first.phys_text, 0x1000).unwrap();
    // "struct.extra"
    let extra_tail: Vec<u8> = vec![
        0x73,
        0x74,
        0x72,
        0x75,
        0x63,
        0x74,
        0x2e,
        0x65,
        0x78,
        0x74,
        0x72,
        0x61,
    ];
    proof {
        assert(extra_tail@ =~= seq![
            0x73u8,
            0x74,
            0x72,
            0x75,
            0x63,
            0x74,
            0x2e,
            0x65,
            0x78,
            0x74,
            0x72,
            0x61,
        ]);
    }
    let mut outs: Vec<OutputFile> = Vec::new();
    outs.push(
        OutputFile { index: 0, tail: extra_tail, bytes: extra_bytes, extra: true, info: None },
    );
    let stride = crate::srcver::stride64_embedded(first.srcver.get_major());
    let count: u64 = if shlib != 0 {
        n_apps + shlib
    } else if n_apps >= 2 {
        n_apps - 2
    } else {
        0
    };
    let mut k: u64 = 0;
    let mut eoff: u64 = pos0;
    while k < count
        invariant
            0 <= k <= count,
            s == krnl@,
            s.len() <= u64::MAX - 0x1000,
            s.len() <= usize::MAX,
            pos0 <= u64::MAX - 0x1000,
            n_apps <= 0xFF,
            shlib <= 0xFFFF_FFFF,
            ver == (if shlib == 0 {
                0u8
            } else {
                4u8
            }),
            count == spec_new_count(n_apps as int, shlib as int),
            spec_new_first_ok(s, pos0 as int, ver),
            stride as int == spec_new_stride(s, pos0 as int, ver),
            128 <= stride <= 164,
            eoff as int == pos0 + k * (stride as int),
            eoff <= u64::MAX - 0x200,
            outs@.len() == 1 + k,
            spec_new_extra_output(s, pos0 as int, outs@[0]),
            forall|j: int|
                0 <= j < k ==> spec_new_module_ok(
                    s,
                    pos0 as int,
                    stride as int,
                    ver,
                    n_apps as int,
                    j,
                ),
            forall|j: int|
                0 <= j < k ==> spec_new_module_output(
                    s,
                    pos0 as int,
                    stride as int,
                    ver,
                    n_apps as int,
                    j,
                    #[trigger] outs@[1 + j],
                ),
        decreases count - k,
    {
        let a = match crate::hdr64::decode_app64(krnl, eoff, ver) {
            Ok(a) => a,
            Err(_) => {
                proof {
                    assert(!spec_new_module_ok(
                        s,
                        pos0 as int,
                        spec_new_stride(s, pos0 as int, ver),
                        ver,
                        n_apps as int,
                        k as int,
                    ));
                }
                return Err(SplitError::Truncated);
            },
        };
        let adjusted = k == 0 && n_apps > 2;
        let pt: u64;
        let st: u64;
        if adjusted {
            pt = a.phys_text + 0x1000;
            proof {
                assert(eoff == pos0);
                assert(a.size_text == le64(s, pos0 as int + 8));
            }
            if a.size_text < 0x1000 {
                return Err(SplitError::Truncated);
            }
            st = a.size_text - 0x1000;
        } else {
            pt = a.phys_text;
            st = a.size_text;
        }
        if !range_ok(krnl, a.phys_data, a.size_data) {
            proof {
                assert(!spec_new_module_ok(
                    s,
                    pos0 as int,
                    spec_new_stride(s, pos0 as int, ver),
                    ver,
                    n_apps as int,
                    k as int,
                ));
            }
            return Err(SplitError::Truncated);
        }
        let tlen = match st.checked_add(a.size_data) {
            Some(x) => x,
            None => {
                proof {
                    assert(!spec_new_module_ok(
                        s,
                        pos0 as int,
                        stride as int,
                        ver,
                        n_apps as int,
                        k as int,
                    ));
                }
                return Err(SplitError::Truncated);
            },
        };
        if !range_ok(krnl, pt, tlen) {
            proof {
                assert(!spec_new_module_ok(
                    s,
                    pos0 as int,
                    spec_new_stride(s, pos0 as int, ver),
                    ver,
                    n_apps as int,
                    k as int,
                ));
            }
            return Err(SplitError::Truncated);
        }
        let data = read_vec(krnl, a.phys_data, a.size_data as usize).unwrap();
        let text = read_vec(krnl, pt, tlen as usize).unwrap();
        let forced = 2 + k >= n_apps;
        let dataoff: Option<u64> = if forced {
            Some(a.size_text)
        } else {
            None
        };
        let restored = match restore_image(text.as_slice(), Some(data.as_slice()), dataoff) {
            Ok(res) => res,
            Err(_) => {
                proof {
                    assert(!spec_new_module_ok(
                        s,
                        pos0 as int,
                        spec_new_stride(s, pos0 as int, ver),
                        ver,
                        n_apps as int,
                        k as int,
                    ));
                }
                return Err(SplitError::Truncated);
            },
        };
        proof {
            assert(spec_new_module_ok(s, pos0 as int, stride as int, ver, n_apps as int, k as int));
        }
        let tail = extract_name(a.app_name.as_slice());
        let uuid_str = uuid_string_le(a.app_uuid.as_slice());
        outs.push(
            OutputFile {
                index: 2 + k,
                tail,
                bytes: restored.bytes,
                extra: false,
                info: Some(
                    ModuleInfo {
                        phys_text: pt,
                        size_text: st,
                        phys_data: a.phys_data,
                        size_data: a.size_data,
                        virt: a.virt,
                        ventry: a.ventry,
                        uuid_str,
                    },
                ),
            },
        );
        proof {
            assert((k + 1) * (stride as int) == k * (stride as int) + stride) by (nonlinear_arith);
        }
        k += 1;
        eoff = eoff + stride;
    }
    Ok(outs)
}

/// The extent-calculator size of the legacy kernel at its usual offset.
pub open spec fn spec_k32_sz1(s: Seq<u8>) -> int {
    spec_calc_size(s.subrange(0x1000, s.len() as int))
}

/// The four bytes at the usual kernel offset are all zero: one firmware
/// family stores the kernel later instead.
pub open spec fn spec_k32_probe_zero(s: Seq<u8>) -> bool {
    crate::bytes::matches_at(s, crate::bytes::zero_bytes(4), 0x1000)
}

/// The extent-calculator size of the legacy kernel at the later offset.
pub open spec fn spec_k32_sz2(s: Seq<u8>) -> int {
    spec_calc_size(s.subrange(0x4000, s.len() as int))
}

/// The legacy boot and kernel extraction stays inside the blob: the
/// recognized kernel image (at the usual or the later offset) with its
/// fixups, or the fixed fallback region.
pub open spec fn spec_split32_kernel_ok(s: Seq<u8>) -> bool {
    &&& s.len() >= 0x1000
    &&& (if spec_k32_sz1(s) != 0 {
        0x1000 + spec_k32_sz1(s) <= s.len() && spec_restore_ok(
            s.subrange(0x1000, 0x1000 + spec_k32_sz1(s)),
            None,
            None,
        )
    } else if spec_k32_probe_zero(s) {
        &&& s.len() >= 0x4000
        &&& 0x4000 + spec_k32_sz2(s) <= s.len()
        &&& spec_restore_ok(s.subrange(0x4000, 0x4000 + spec_k32_sz2(s)), None, None)
    } else {
        s.len() >= 0xf000
    })
}

/// The legacy boot record: the first page, named `boot`.
pub open spec fn spec_boot32_output(s: Seq<u8>, f: OutputFile) -> bool {
    &&& f.index == 0
    &&& !f.extra
    &&& f.tail@ == seq![0x62u8, 0x6f, 0x6f, 0x74]
    &&& f.bytes@ == s.subrange(0, 0x1000)
    &&& f.info is None
}

/// The legacy kernel record, named `kernel`: the fixed-up image where one
/// is recognized, else the fixed fallback region.
pub open spec fn spec_k32_output(s: Seq<u8>, f: OutputFile) -> bool {
    &&& f.index == 1
    &&& !f.extra
    &&& f.tail@ == seq![0x6bu8, 0x65, 0x72, 0x6e, 0x65, 0x6c]
    &&& (if spec_k32_sz1(s) != 0 {
        f.bytes@ == spec_restore_out(s.subrange(0x1000, 0x1000 + spec_k32_sz1(s)), None, None)
    } else if spec_k32_probe_zero(s) {
        f.bytes@ == spec_restore_out(s.subrange(0x4000, 0x4000 + spec_k32_sz2(s)), None, None)
    } else {
        f.bytes@ == s.subrange(0x1000, 0xf000)
    })
    &&& f.info is None
}

/// The probed first legacy entry has size 0: the table holds 64-bit-shaped
/// entries.
pub open spec fn spec_probe_new(s: Seq<u8>, pos0: int) -> bool {
    le32(s, pos0 + 12) == 0
}

/// The shared-library count the new-style walk uses.
pub open spec fn spec_info_shlib(info: crate::locate::SEPinfo) -> int {
    match info.shlibs {
        Some(x) => x as int,
        None => 0,
    }
}

/// The revision tag the new-style walk decodes entries with.
pub open spec fn spec_info_ver(info: crate::locate::SEPinfo) -> u8 {
    if spec_info_shlib(info) == 0 {
        0
    } else {
        4
    }
}

/// The shape of a successful legacy split: boot and kernel records first,
/// then the module table in whichever of its two shapes the probe of its
/// first entry selected.
pub open spec fn spec_split32_post(
    s: Seq<u8>,
    info: crate::locate::SEPinfo,
    fs: Seq<OutputFile>,
) -> bool {
    let pos0 = info.sep_app_pos as int;
    &&& spec_split32_kernel_ok(s)
    &&& crate::hdr64::spec_app_old_wf(s, pos0)
    &&& spec_boot32_output(s, fs[0])
    &&& spec_k32_output(s, fs[1])
    &&& fs.len() >= 2
    &&& (if spec_probe_new(s, pos0) {
        &&& info.sepapps is Some
        &&& spec_split32_new_ok(
            s,
            pos0,
            spec_info_ver(info),
            info.sepapps->Some_0 as int,
            spec_info_shlib(info),
        )
        &&& fs.len() == 3 + spec_new_count(info.sepapps->Some_0 as int, spec_info_shlib(info))
        &&& spec_new_extra_output(s, pos0, fs[2])
        &&& forall|k: int|
            0 <= k < spec_new_count(info.sepapps->Some_0 as int, spec_info_shlib(info))
                ==> spec_new_module_output(
                s,
                pos0,
                spec_new_stride(s, pos0, spec_info_ver(info)),
                spec_info_ver(info),
                info.sepapps->Some_0 as int,
                k,
                #[trigger] fs[3 + k],
            )
    } else {
        &&& spec_split32_old_ok(s, pos0)
        &&& (spec_old_count(s, pos0) == 0 ==> fs.len() == 2)
        &&& (spec_old_count(s, pos0) > 0 ==> {
            &&& fs.len() == 3 + spec_old_count(s, pos0)
            &&& spec_old_extra_output(s, pos0, fs[2])
            &&& forall|k: int|
                0 <= k < spec_old_count(s, pos0) ==> spec_old_module_output(
                    s,
                    pos0,
                    spec_tailoff(s, pos0)->Some_0,
                    spec_old_stride(s, pos0)->Some_0,
                    k,
                    #[trigger] fs[3 + k],
                )
        })
    })
}

/// When the legacy split reports each of its errors.
pub open spec fn spec_split32_err(s: Seq<u8>, info: crate::locate::SEPinfo, e: SplitError) -> bool {
    let pos0 = info.sep_app_pos as int;
    match e {
        SplitError::MissingAppCount => {
            &&& spec_split32_kernel_ok(s)
            &&& crate::hdr64::spec_app_old_wf(s, pos0)
            &&& spec_probe_new(s, pos0)
            &&& info.sepapps is None
        },
        SplitError::AnchorNotFound => {
            &&& spec_split32_kernel_ok(s)
            &&& crate::hdr64::spec_app_old_wf(s, pos0)
            &&& !spec_probe_new(s, pos0)
            &&& pos0 <= s.len()
            &&& (spec_tailoff(s, pos0) is None || (readable(
                s,
                pos0 + spec_tailoff(s, pos0)->Some_0,
                128,
            ) && spec_old_stride(s, pos0) is None))
        },
        SplitError::Truncated => !spec_split32_kernel_ok(s) || !crate::hdr64::spec_app_old_wf(
            s,
            pos0,
        ) || (spec_probe_new(s, pos0) && info.sepapps is Some && !spec_split32_new_ok(
            s,
            pos0,
            spec_info_ver(info),
            info.sepapps->Some_0 as int,
            spec_info_shlib(info),
        )) || (!spec_probe_new(s, pos0) && (pos0 > s.len() || (spec_tailoff(s, pos0) is Some
            && !readable(s, pos0 + spec_tailoff(s, pos0)->Some_0, 128)) || (spec_old_stride(
            s,
            pos0,
        ) is Some && !spec_split32_old_ok(s, pos0)))),
        _ => false,
    }
}

/// Split a legacy firmware: the first page as boot, the kernel by the
/// three-way heuristic, then the module table in whichever of its two
/// shapes the probe of its first entry selects.
pub fn split32_outputs(krnl: &[u8], info: &crate::locate::SEPinfo) -> (r: Result<
    Vec<OutputFile>,
    SplitError,
>)
    requires
        krnl@.len() <= u64::MAX - 0x1000,
        info.sep_app_pos <= u64::MAX - 0x1000,
        (info.sepapps matches Some(n) ==> n <= 0xFF),
        (info.shlibs matches Some(x) ==> x <= 0xFFFF_FFFF),
    ensures
        match r {
            Ok(fs) => spec_split32_post(krnl@, *info, fs@),
            Err(e) => spec_split32_err(krnl@, *info, e),
        },
{
    let ghost s = krnl@;
    let blen = krnl.len();
    if blen < 0x1000 {
        return Err(SplitError::Truncated);
    }
    let mut outs: Vec<OutputFile> = Vec::new();

    // Boot: the first page.
    let boot_bytes = read_vec(krnl, 0, 0x1000).unwrap();
    let boot_tail: Vec<u8> = vec![0x62, 0x6f, 0x6f, 0x74];
    proof {
        assert(boot_tail@ =~= seq![0x62u8, 0x6f, 0x6f, 0x74]);
    }
    outs.push(OutputFile { index: 0, tail: boot_tail, bytes: boot_bytes, extra: false, info: None });

    // Kernel: recognized image at the usual offset; else, all-zero probe
    // selects the later offset; else the fixed fallback region.
    let kernel_tail: Vec<u8> = vec![0x6b, 0x65, 0x72, 0x6e, 0x65, 0x6c];
    proof {
        assert(kernel_tail@ =~= seq![0x6bu8, 0x65, 0x72, 0x6e, 0x65, 0x6c]);
    }
    let ksz1 = calc_size(slice_subrange(krnl, 0x1000, blen));
    let kernel_bytes: Vec<u8>;
    if ksz1 != 0 {
        match 0x1000u64.checked_add(ksz1 as u64) {
            Some(e) if e <= blen as u64 => {},
            _ => {
                return Err(SplitError::Truncated);
            },
        }
        let src = read_vec(krnl, 0x1000, ksz1).unwrap();
        match restore_image(src.as_slice(), None, None) {
            Ok(res) => {
                kernel_bytes = res.bytes;
            },
            Err(_) => {
                return Err(SplitError::Truncated);
            },
        }
    } else {
        let zero4: [u8; 4] = [0, 0, 0, 0];
        proof {
            assert(zero4@ =~= crate::bytes::zero_bytes(4));
        }
        if crate::bytes::match_at(krnl, 0x1000, &zero4) {
            if blen < 0x4000 {
                return Err(SplitError::Truncated);
            }
            let ksz2 = calc_size(slice_subrange(krnl, 0x4000, blen));
            match 0x4000u64.checked_add(ksz2 as u64) {
                Some(e) if e <= blen as u64 => {},
                _ => {
                    return Err(SplitError::Truncated);
                },
            }
            let src = read_vec(krnl, 0x4000, ksz2).unwrap();
            match restore_image(src.as_slice(), None, None) {
                Ok(res) => {
                    kernel_bytes = res.bytes;
                },
                Err(_) => {
                    return Err(SplitError::Truncated);
                },
            }
        } else {
            if blen < 0xf000 {
                return Err(SplitError::Truncated);
            }
            kernel_bytes = read_vec(krnl, 0x1000, 0xe000).unwrap();
        }
    }
    outs.push(
        OutputFile { index: 1, tail: kernel_tail, bytes: kernel_bytes, extra: false, info: None },
    );

    // Probe the first table entry: a zero size selects the newer shape.
    let pos0 = info.sep_app_pos;
    let probe = match decode_app_old(krnl, pos0) {
        Ok(a) => a,
        Err(_) => {
            return Err(SplitError::Truncated);
        },
    };
    if probe.size == 0 {
        let n_apps: u64 = match info.sepapps {
            Some(n) => n,
            None => {
                return Err(SplitError::MissingAppCount);
            },
        };
        let shlib: u64 = match info.shlibs {
            Some(x) => x,
            None => 0,
        };
        let mut sub = match split32_new_outputs(krnl, pos0, n_apps, shlib) {
            Ok(fs) => fs,
            Err(_) => {
                return Err(SplitError::Truncated);
            },
        };
        let ghost sub0 = sub@;
        outs.append(&mut sub);
        proof {
            let gver = spec_info_ver(*info);
            let cnt = spec_new_count(n_apps as int, shlib as int);
            assert forall|k: int| 0 <= k < cnt implies spec_new_module_output(
                s,
                pos0 as int,
                spec_new_stride(s, pos0 as int, gver),
                gver,
                n_apps as int,
                k,
                #[trigger] outs@[3 + k],
            ) by {
                assert(outs@[3 + k] == sub0[1 + k]);
            }
        }
        Ok(outs)
    } else {
        let mut sub = match split32_old_outputs(krnl, pos0) {
            Ok(fs) => fs,
            Err(e) => {
                return Err(e);
            },
        };
        let ghost sub0 = sub@;
        outs.append(&mut sub);
        proof {
            if spec_old_count(s, pos0 as int) > 0 {
                assert(outs@[2] == sub0[0]);
                assert forall|k: int| 0 <= k < spec_old_count(s, pos0 as int)
                    implies spec_old_module_output(
                    s,
                    pos0 as int,
                    spec_tailoff(s, pos0 as int)->Some_0,
                    spec_old_stride(s, pos0 as int)->Some_0,
                    k,
                    #[trigger] outs@[3 + k],
                ) by {
                    assert(outs@[3 + k] == sub0[1 + k]);
                }
            }
        }
        Ok(outs)
    }
}

} // verus!
