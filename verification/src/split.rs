//! Module Table Walker and the extraction pipelines.
//!
//! From a located descriptor the pipeline produces one output record per
//! extracted file: the boot region, the kernel, the root server, and one
//! record per application and shared library, each with its display name,
//! its fixed-up bytes, and the decoded entry fields for reporting.
//! Shared libraries differ from applications in one way: their writable
//! data is spliced at an explicit offset equal to the module's text size,
//! because they are packed text-then-data contiguously.

use crate::bytes::{le32, le64, range_ok, readable, read_u32, read_vec};
use crate::extent::{calc_size, spec_calc_size};
use crate::fixup::{restore_image, spec_restore_ok, spec_restore_out};
use crate::hdr64::{
    decode_app64, decode_hdr64, spec_app64_name_off, spec_app64_wf, spec_hdr64_counts_off,
    spec_hdr64_init_off, spec_hdr64_name_off, spec_hdr64_wf, SEPHDR_SIZE,
};
use crate::name::{extract_name, spec_extract_name};
use crate::srcver::{spec_major, spec_stride64, stride64};
use crate::uuidstr::{spec_uuid_str_le, uuid_string_le};
use crate::SplitError;
use vstd::prelude::*;
use vstd::slice::slice_subrange;

verus! {

/// The decoded fields of one module, carried alongside its output file
/// for reporting.
pub struct ModuleInfo {
    /// Physical offset of the module's image in the blob.
    pub phys_text: u64,
    /// Size of the image, writable data not included.
    pub size_text: u64,
    /// Physical offset of the module's writable data.
    pub phys_data: u64,
    /// Size of the writable data.
    pub size_data: u64,
    /// Virtual load address.
    pub virt: u64,
    /// Entry point, from the start of the image.
    pub ventry: u64,
    /// Canonical hyphenated form of the module's UUID.
    pub uuid_str: String,
}

/// One file the pipeline produces.
pub struct OutputFile {
    /// Position of the file in the output numbering.
    pub index: u64,
    /// The name part of the file name.
    pub tail: Vec<u8>,
    /// The file contents.
    pub bytes: Vec<u8>,
    /// A bare structure dump, named without an index.
    pub extra: bool,
    /// The decoded entry fields, for modules and the kernel.
    pub info: Option<ModuleInfo>,
}

/// The kernel's physical offset, from the descriptor at `off`.
pub open spec fn spec_kb(s: Seq<u8>, off: int) -> int {
    le64(s, off + 24) as int
}

/// The kernel's physical end bound, from the descriptor at `off`.
pub open spec fn spec_km(s: Seq<u8>, off: int) -> int {
    le64(s, off + 32) as int
}

/// The root server's physical offset.
pub open spec fn spec_ib(s: Seq<u8>, off: int, ver: u8) -> int {
    le64(s, spec_hdr64_init_off(s, off, ver)) as int
}

/// Where the module table starts, before the hidden-region adjustment:
/// the descriptor offset plus the fixed descriptor size, adjusted by the
/// same revision conditions that shift the descriptor's own fields.
pub open spec fn spec_table_off(s: Seq<u8>, off: int, ver: u8) -> int {
    off + SEPHDR_SIZE + (if ver == 4 {
        56int
    } else if le64(s, off + 80) != 0 {
        24int
    } else {
        0int
    }) - (if le64(s, spec_hdr64_init_off(s, off, ver) + 48) == 0 && ver != 4 {
        24int
    } else {
        0int
    })
}

/// The module count as the descriptor's own count field holds it; zero
/// switches the pipeline to the hidden count region.
pub open spec fn spec_napps_raw(s: Seq<u8>, off: int, ver: u8) -> int {
    le32(s, spec_hdr64_counts_off(s, off, ver)) as int
}

/// The module count the walk uses: the descriptor's, or the hidden
/// region's when the descriptor's is zero.
pub open spec fn spec_napps(s: Seq<u8>, off: int, ver: u8) -> int {
    if spec_napps_raw(s, off, ver) == 0 {
        le32(s, off + 0x210) as int
    } else {
        spec_napps_raw(s, off, ver)
    }
}

/// The shared-library count the walk uses.
pub open spec fn spec_nshlibs(s: Seq<u8>, off: int, ver: u8) -> int {
    if spec_napps_raw(s, off, ver) == 0 {
        le32(s, off + 0x214) as int
    } else {
        le32(s, spec_hdr64_counts_off(s, off, ver) + 4) as int
    }
}

/// Modules and shared libraries together.
pub open spec fn spec_total(s: Seq<u8>, off: int, ver: u8) -> int {
    spec_napps(s, off, ver) + spec_nshlibs(s, off, ver)
}

/// Where the first module entry lies: the table offset, pushed past the
/// hidden region when the descriptor's own count field is zero.
pub open spec fn spec_table_start(s: Seq<u8>, off: int, ver: u8) -> int {
    spec_table_off(s, off, ver) + (if spec_napps_raw(s, off, ver) == 0 {
        0x100int
    } else {
        0int
    })
}

/// The stride of the 64-bit module table: selected by the source-version
/// major of the root server.
pub open spec fn spec_table_stride(s: Seq<u8>, off: int, ver: u8) -> int {
    spec_stride64(spec_major(le64(s, spec_hdr64_name_off(s, off, ver) + 32))) as int
}

/// The byte offset of module entry `k`.
pub open spec fn spec_entry64_off(s: Seq<u8>, off: int, ver: u8, k: int) -> int {
    spec_table_start(s, off, ver) + k * spec_table_stride(s, off, ver)
}

/// Stride stability law: within one module table — whose stride is fixed
/// by the source-version major decoded from the table's first entry — the
/// offset of entry `k + 1` minus the offset of entry `k` is that stride,
/// for every entry index and every major bucket.
pub proof fn lemma_stride_stability(s: Seq<u8>, off: int, ver: u8, k: int)
    requires
        0 <= k,
    ensures
        spec_entry64_off(s, off, ver, k + 1) - spec_entry64_off(s, off, ver, k)
            == spec_table_stride(s, off, ver),
{
    let st = spec_table_stride(s, off, ver);
    assert((k + 1) * st == k * st + st) by (nonlinear_arith);
}

/// The image bytes of the module entry at `eoff`: text and writable data
/// as one physical range.
pub open spec fn spec_text_sub(s: Seq<u8>, eoff: int) -> Seq<u8> {
    s.subrange(le64(s, eoff) as int, le64(s, eoff) + le64(s, eoff + 8) + le64(s, eoff + 24))
}

/// The separately-stored writable data of the module entry at `eoff`.
pub open spec fn spec_data_sub(s: Seq<u8>, eoff: int) -> Seq<u8> {
    s.subrange(le64(s, eoff + 16) as int, le64(s, eoff + 16) + le64(s, eoff + 24))
}

/// Where the module's data is spliced: at the offset the image's own
/// writable-data segment declares, or — for a shared library — at the
/// module's text size.
pub open spec fn spec_forced_off(s: Seq<u8>, eoff: int, forced: bool) -> Option<u64> {
    if forced {
        Some(le64(s, eoff + 8))
    } else {
        None
    }
}

/// The module entry at `eoff` decodes, its physical ranges lie inside the
/// blob, and its fixups stay inside its image.
pub open spec fn spec_module_ok(s: Seq<u8>, eoff: int, ver: u8, forced: bool) -> bool {
    &&& spec_app64_wf(s, eoff, ver)
    &&& le64(s, eoff + 16) + le64(s, eoff + 24) <= s.len()
    &&& le64(s, eoff) + le64(s, eoff + 8) + le64(s, eoff + 24) <= s.len()
    &&& spec_restore_ok(
        spec_text_sub(s, eoff),
        Some(spec_data_sub(s, eoff)),
        spec_forced_off(s, eoff, forced),
    )
}

/// The output record of the module entry at `eoff`: its index, its
/// display name, its fixed-up bytes, and its reported fields.
pub open spec fn spec_module_output(
    s: Seq<u8>,
    eoff: int,
    ver: u8,
    forced: bool,
    idx: u64,
    f: OutputFile,
) -> bool {
    &&& f.index == idx
    &&& !f.extra
    &&& f.tail@ == spec_extract_name(
        s.subrange(spec_app64_name_off(s, eoff, ver), spec_app64_name_off(s, eoff, ver) + 16),
    )
    &&& f.bytes@ == spec_restore_out(
        spec_text_sub(s, eoff),
        Some(spec_data_sub(s, eoff)),
        spec_forced_off(s, eoff, forced),
    )
    &&& (f.info matches Some(mi) && {
        &&& mi.phys_text == le64(s, eoff)
        &&& mi.size_text == le64(s, eoff + 8)
        &&& mi.phys_data == le64(s, eoff + 16)
        &&& mi.size_data == le64(s, eoff + 24)
        &&& mi.virt == le64(s, eoff + 32)
        &&& mi.ventry == le64(s, eoff + 40)
        &&& mi.uuid_str@ == spec_uuid_str_le(
            s.subrange(
                spec_app64_name_off(s, eoff, ver) + 16,
                spec_app64_name_off(s, eoff, ver) + 32,
            ),
        )
    })
}

/// Extract one module: copy its text-and-data range, run the fixups,
/// splice its writable data, and record its fields.
pub fn module_output(krnl: &[u8], eoff: u64, ver: u8, idx: u64, forced: bool) -> (r: Result<
    OutputFile,
    SplitError,
>)
    requires
        eoff <= u64::MAX - 0x200,
    ensures
        match r {
            Ok(f) => spec_module_ok(krnl@, eoff as int, ver, forced) && spec_module_output(
                krnl@,
                eoff as int,
                ver,
                forced,
                idx,
                f,
            ),
            Err(SplitError::Truncated) => !spec_module_ok(krnl@, eoff as int, ver, forced),
            _ => false,
        },
{
    let blen = krnl.len();
    let app = match decode_app64(krnl, eoff, ver) {
        Ok(a) => a,
        Err(_) => {
            return Err(SplitError::Truncated);
        },
    };
    if !range_ok(krnl, app.phys_data, app.size_data) {
        return Err(SplitError::Truncated);
    }
    let text_len = match app.size_text.checked_add(app.size_data) {
        Some(x) => x,
        None => {
            proof {
                assert(krnl@.len() <= usize::MAX);
                assert(le64(krnl@, eoff as int) + le64(krnl@, eoff as int + 8) + le64(
                    krnl@,
                    eoff as int + 24,
                ) > krnl@.len());
            }
            return Err(SplitError::Truncated);
        },
    };
    if !range_ok(krnl, app.phys_text, text_len) {
        return Err(SplitError::Truncated);
    }
    let data = read_vec(krnl, app.phys_data, app.size_data as usize).unwrap();
    let text = read_vec(krnl, app.phys_text, text_len as usize).unwrap();
    let dataoff: Option<u64> = if forced {
        Some(app.size_text)
    } else {
        None
    };
    let restored = match restore_image(text.as_slice(), Some(data.as_slice()), dataoff) {
        Ok(res) => res,
        Err(_) => {
            return Err(SplitError::Truncated);
        },
    };
    let tail = extract_name(app.app_name.as_slice());
    let uuid_str = uuid_string_le(app.app_uuid.as_slice());
    Ok(
        OutputFile {
            index: idx,
            tail,
            bytes: restored.bytes,
            extra: false,
            info: Some(
                ModuleInfo {
                    phys_text: app.phys_text,
                    size_text: app.size_text,
                    phys_data: app.phys_data,
                    size_data: app.size_data,
                    virt: app.virt,
                    ventry: app.ventry,
                    uuid_str,
                },
            ),
        },
    )
}

/// The kernel-image size the extent calculator reports at the kernel's
/// physical offset.
pub open spec fn spec_kernel_sz(s: Seq<u8>, off: int) -> int {
    spec_calc_size(s.subrange(spec_kb(s, off), s.len() as int))
}

/// The root-server image size the extent calculator reports at the root
/// server's physical offset.
pub open spec fn spec_root_sz(s: Seq<u8>, off: int, ver: u8) -> int {
    spec_calc_size(s.subrange(spec_ib(s, off, ver), s.len() as int))
}

/// The whole 64-bit pipeline succeeds on `s`: the descriptor decodes, the
/// counts are readable, boot, kernel and root-server ranges lie inside
/// the blob, their fixups stay inside their images, and the same holds
/// for every module entry.
pub open spec fn spec_split64_ok(s: Seq<u8>, off: int, ver: u8) -> bool {
    &&& spec_hdr64_wf(s, off, ver)
    &&& (spec_napps_raw(s, off, ver) == 0 ==> readable(s, off + 0x210, 8))
    &&& spec_kb(s, off) <= s.len()
    &&& (if spec_kernel_sz(s, off) == 0 {
        spec_kb(s, off) <= spec_km(s, off) <= s.len()
    } else {
        spec_kb(s, off) + spec_kernel_sz(s, off) <= s.len() && spec_restore_ok(
            s.subrange(spec_kb(s, off), spec_kb(s, off) + spec_kernel_sz(s, off)),
            None,
            None,
        )
    })
    &&& spec_ib(s, off, ver) <= s.len()
    &&& spec_ib(s, off, ver) + spec_root_sz(s, off, ver) <= s.len()
    &&& spec_restore_ok(
        s.subrange(spec_ib(s, off, ver), spec_ib(s, off, ver) + spec_root_sz(s, off, ver)),
        None,
        None,
    )
    &&& forall|k: int|
        0 <= k < spec_total(s, off, ver) ==> spec_module_ok(
            s,
            #[trigger] spec_entry64_off(s, off, ver, k),
            ver,
            k >= spec_napps(s, off, ver),
        )
}

/// The boot record: everything before the kernel, named `boot`.
pub open spec fn spec_boot_output(s: Seq<u8>, off: int, f: OutputFile) -> bool {
    &&& f.index == 0
    &&& !f.extra
    &&& f.tail@ == seq![0x62u8, 0x6f, 0x6f, 0x74]
    &&& f.bytes@ == s.subrange(0, spec_kb(s, off))
    &&& f.info is None
}

/// The kernel record: the extent-sized image with its fixups when the
/// extent calculator recognizes one, else the descriptor-bounded raw
/// range; named `kernel`, reported with the kernel UUID.
pub open spec fn spec_kernel_output(s: Seq<u8>, off: int, f: OutputFile) -> bool {
    &&& f.index == 1
    &&& !f.extra
    &&& f.tail@ == seq![0x6bu8, 0x65, 0x72, 0x6e, 0x65, 0x6c]
    &&& (if spec_kernel_sz(s, off) == 0 {
        f.bytes@ == s.subrange(spec_kb(s, off), spec_km(s, off))
    } else {
        f.bytes@ == spec_restore_out(
            s.subrange(spec_kb(s, off), spec_kb(s, off) + spec_kernel_sz(s, off)),
            None,
            None,
        )
    })
    &&& (f.info matches Some(mi) && {
        &&& mi.phys_text == spec_kb(s, off)
        &&& mi.size_text == (if spec_kernel_sz(s, off) == 0 {
            spec_km(s, off) - spec_kb(s, off)
        } else {
            spec_kernel_sz(s, off)
        })
        &&& mi.phys_data == 0
        &&& mi.size_data == 0
        &&& mi.virt == 0
        &&& mi.ventry == 0
        &&& mi.uuid_str@ == spec_uuid_str_le(s.subrange(off, off + 16))
    })
}

/// The root-server record: the extent-sized image at the root server's
/// offset with its fixups, named from the descriptor's name field.
pub open spec fn spec_root_output(s: Seq<u8>, off: int, ver: u8, f: OutputFile) -> bool {
    &&& f.index == 2
    &&& !f.extra
    &&& f.tail@ == spec_extract_name(
        s.subrange(spec_hdr64_name_off(s, off, ver), spec_hdr64_name_off(s, off, ver) + 16),
    )
    &&& f.bytes@ == spec_restore_out(
        s.subrange(spec_ib(s, off, ver), spec_ib(s, off, ver) + spec_root_sz(s, off, ver)),
        None,
        None,
    )
    &&& (f.info matches Some(mi) && {
        &&& mi.phys_text == spec_ib(s, off, ver)
        &&& mi.size_text == spec_root_sz(s, off, ver)
        &&& mi.phys_data == 0
        &&& mi.size_data == 0
        &&& mi.virt == 0
        &&& mi.ventry == 0
        &&& mi.uuid_str@ == spec_uuid_str_le(
            s.subrange(
                spec_hdr64_name_off(s, off, ver) + 16,
                spec_hdr64_name_off(s, off, ver) + 32,
            ),
        )
    })
}

/// The shape of a successful 64-bit split: boot, kernel and root-server
/// records first, then one module record per table entry in table order.
pub open spec fn spec_split64_post(s: Seq<u8>, off: int, ver: u8, fs: Seq<OutputFile>) -> bool {
    &&& fs.len() == 3 + spec_total(s, off, ver)
    &&& spec_boot_output(s, off, fs[0])
    &&& spec_kernel_output(s, off, fs[1])
    &&& spec_root_output(s, off, ver, fs[2])
    &&& forall|k: int|
        0 <= k < spec_total(s, off, ver) ==> spec_module_output(
            s,
            spec_entry64_off(s, off, ver, k),
            ver,
            k >= spec_napps(s, off, ver),
            (3 + k) as u64,
            #[trigger] fs[3 + k],
        )
}

/// Split a 64-bit firmware: the boot region, the kernel, the root server,
/// then every application and shared library from the module table, in
/// table order. Success is owed exactly when [`spec_split64_ok`] holds;
/// any structure or range that leaves the blob is `Truncated`.
#[verifier::rlimit(60)]
pub fn split64_outputs(krnl: &[u8], off: u64, ver: u8) -> (r: Result<Vec<OutputFile>, SplitError>)
    requires
        off <= u64::MAX - 0x1000,
        krnl@.len() <= u64::MAX - 0x1000,
    ensures
        match r {
            Ok(fs) => spec_split64_ok(krnl@, off as int, ver) && spec_split64_post(
                krnl@,
                off as int,
                ver,
                fs@,
            ),
            Err(SplitError::Truncated) => !spec_split64_ok(krnl@, off as int, ver),
            _ => false,
        },
{
    let ghost s = krnl@;
    let blen = krnl.len();
    let hdr = match decode_hdr64(krnl, off, ver) {
        Ok(h) => h,
        Err(_) => {
            return Err(SplitError::Truncated);
        },
    };
    let n_apps: u32;
    let n_shlibs: u32;
    let hidden_shift: u64;
    if hdr.n_apps == 0 {
        if !range_ok(krnl, off + 0x210, 8) {
            return Err(SplitError::Truncated);
        }
        n_apps = read_u32(krnl, off + 0x210).unwrap();
        n_shlibs = read_u32(krnl, off + 0x214).unwrap();
        hidden_shift = 0x100;
    } else {
        n_apps = hdr.n_apps;
        n_shlibs = hdr.n_shlibs;
        hidden_shift = 0;
    }
    let mut outs: Vec<OutputFile> = Vec::new();

    // Boot: everything before the kernel.
    let kb = hdr.kernel_base_paddr;
    if kb > blen as u64 {
        return Err(SplitError::Truncated);
    }
    let boot_bytes = read_vec(krnl, 0, kb as usize).unwrap();
    let boot_tail: Vec<u8> = vec![0x62, 0x6f, 0x6f, 0x74];
    proof {
        assert(boot_tail@ =~= seq![0x62u8, 0x6f, 0x6f, 0x74]);
    }
    outs.push(OutputFile { index: 0, tail: boot_tail, bytes: boot_bytes, extra: false, info: None });

    // Kernel: the embedded image at its offset, or the raw descriptor-bounded
    // range when no image is recognized there.
    let ksz = calc_size(slice_subrange(krnl, kb as usize, blen));
    let kernel_tail: Vec<u8> = vec![0x6b, 0x65, 0x72, 0x6e, 0x65, 0x6c];
    proof {
        assert(kernel_tail@ =~= seq![0x6bu8, 0x65, 0x72, 0x6e, 0x65, 0x6c]);
    }
    let kernel_uuid_str = uuid_string_le(hdr.kernel_uuid.as_slice());
    if ksz == 0 {
        let km = hdr.kernel_max_paddr;
        if km > blen as u64 || kb > km {
            return Err(SplitError::Truncated);
        }
        let kbytes = read_vec(krnl, kb, (km - kb) as usize).unwrap();
        outs.push(
            OutputFile {
                index: 1,
                tail: kernel_tail,
                bytes: kbytes,
                extra: false,
                info: Some(
                    ModuleInfo {
                        phys_text: kb,
                        size_text: km - kb,
                        phys_data: 0,
                        size_data: 0,
                        virt: 0,
                        ventry: 0,
                        uuid_str: kernel_uuid_str,
                    },
                ),
            },
        );
    } else {
        let kend = match kb.checked_add(ksz as u64) {
            Some(x) => x,
            None => {
                return Err(SplitError::Truncated);
            },
        };
        if kend > blen as u64 {
            return Err(SplitError::Truncated);
        }
        let ksrc = read_vec(krnl, kb, ksz).unwrap();
        let restored = match restore_image(ksrc.as_slice(), None, None) {
            Ok(res) => res,
            Err(_) => {
                return Err(SplitError::Truncated);
            },
        };
        outs.push(
            OutputFile {
                index: 1,
                tail: kernel_tail,
                bytes: restored.bytes,
                extra: false,
                info: Some(
                    ModuleInfo {
                        phys_text: kb,
                        size_text: ksz as u64,
                        phys_data: 0,
                        size_data: 0,
                        virt: 0,
                        ventry: 0,
                        uuid_str: kernel_uuid_str,
                    },
                ),
            },
        );
    }

    // Root server: the embedded image at its offset.
    let ib = hdr.init_base_paddr;
    if ib > blen as u64 {
        return Err(SplitError::Truncated);
    }
    let rsz = calc_size(slice_subrange(krnl, ib as usize, blen));
    let rend = match ib.checked_add(rsz as u64) {
        Some(x) => x,
        None => {
            return Err(SplitError::Truncated);
        },
    };
    if rend > blen as u64 {
        return Err(SplitError::Truncated);
    }
    let rsrc = read_vec(krnl, ib, rsz).unwrap();
    let rrestored = match restore_image(rsrc.as_slice(), None, None) {
        Ok(res) => res,
        Err(_) => {
            return Err(SplitError::Truncated);
        },
    };
    let root_tail = extract_name(hdr.init_name.as_slice());
    let root_uuid_str = uuid_string_le(hdr.init_uuid.as_slice());
    outs.push(
        OutputFile {
            index: 2,
            tail: root_tail,
            bytes: rrestored.bytes,
            extra: false,
            info: Some(
                ModuleInfo {
                    phys_text: ib,
                    size_text: rsz as u64,
                    phys_data: 0,
                    size_data: 0,
                    virt: 0,
                    ventry: 0,
                    uuid_str: root_uuid_str,
                },
            ),
        },
    );

    // The module table: applications, then shared libraries.
    let stride = stride64(hdr.srcver.get_major());
    let ar_shift: u64 = if ver == 4 {
        56
    } else if hdr.ar_min_size != 0 {
        24
    } else {
        0
    };
    let stack_cut: u64 = if hdr.stack_size == 0 && ver != 4 {
        24
    } else {
        0
    };
    let table: u64 = off + SEPHDR_SIZE + ar_shift + hidden_shift - stack_cut;
    proof {
        assert(table as int == spec_table_start(s, off as int, ver));
        assert(stride as int == spec_table_stride(s, off as int, ver));
    }
    let total: u64 = n_apps as u64 + n_shlibs as u64;
    let mut k: u64 = 0;
    let mut eoff: u64 = table;
    while k < total
        invariant
            0 <= k <= total,
            s == krnl@,
            s.len() <= u64::MAX - 0x1000,
            outs@.len() == 3 + k,
            spec_boot_output(s, off as int, outs@[0]),
            spec_kernel_output(s, off as int, outs@[1]),
            spec_root_output(s, off as int, ver, outs@[2]),
            total == spec_total(s, off as int, ver),
            n_apps as int == spec_napps(s, off as int, ver),
            stride as int == spec_table_stride(s, off as int, ver),
            stride <= 164,
            eoff as int == spec_entry64_off(s, off as int, ver, k as int),
            eoff <= u64::MAX - 0x200,
            forall|j: int|
                0 <= j < k ==> spec_module_ok(
                    s,
                    #[trigger] spec_entry64_off(s, off as int, ver, j),
                    ver,
                    j >= spec_napps(s, off as int, ver),
                ),
            forall|j: int|
                0 <= j < k ==> spec_module_output(
                    s,
                    spec_entry64_off(s, off as int, ver, j),
                    ver,
                    j >= spec_napps(s, off as int, ver),
                    (3 + j) as u64,
                    #[trigger] outs@[3 + j],
                ),
        decreases total - k,
    {
        let f = match module_output(krnl, eoff, ver, 3 + k, k >= n_apps as u64) {
            Ok(f) => f,
            Err(_) => {
                return Err(SplitError::Truncated);
            },
        };
        outs.push(f);
        proof {
            assert((k + 1) * stride == k * stride + stride) by (nonlinear_arith);
        }
        k += 1;
        eoff = eoff + stride;
    }
    Ok(outs)
}

/// The Version Locator finds a marker whose locator structure lies inside
/// the blob.
pub open spec fn spec_loc_ok(s: Seq<u8>) -> bool {
    if crate::locate::spec_marker64_old(s) {
        readable(s, 0x1014, 2)
    } else if crate::locate::spec_marker64_new(s) {
        readable(s, 0x104c, 2)
    } else {
        crate::locate::spec_marker32(s)
    }
}

/// The descriptor offset the Version Locator yields.
pub open spec fn spec_loc_off(s: Seq<u8>) -> int {
    if crate::locate::spec_marker64_old(s) {
        crate::bytes::le16(s, 0x1014) as int
    } else if crate::locate::spec_marker64_new(s) {
        crate::bytes::le16(s, 0x104c) as int
    } else {
        le32(s, 0x404) as int
    }
}

/// The format revision the Version Locator yields.
pub open spec fn spec_loc_ver(s: Seq<u8>) -> u8 {
    if crate::locate::spec_marker64_old(s) {
        (le32(s, 0x1000) & 0xff) as u8
    } else if crate::locate::spec_marker64_new(s) {
        (le32(s, 0x1038) & 0xff) as u8
    } else {
        (le32(s, 0x400) & 0xff) as u8
    }
}

/// The legacy locator chain lies inside the blob.
pub open spec fn spec_sep32_wf(s: Seq<u8>) -> bool {
    &&& readable(s, 0x400, 24)
    &&& readable(s, crate::locate::spec_mon_off(s), 40)
    &&& readable(s, crate::locate::spec_args_off(s), crate::locate::KRNLBOOTARGS_SIZE as int)
}

/// What the legacy locator chain decodes to.
pub open spec fn spec_sep32_info(s: Seq<u8>) -> crate::locate::SEPinfo {
    crate::locate::SEPinfo {
        sep_app_pos: (crate::locate::spec_args_off(s) + crate::locate::KRNLBOOTARGS_SIZE) as u64,
        sepapp_size: crate::srcver::SEPAPP_SIZE,
        sepapps: if le32(s, crate::locate::spec_args_off(s) + 72) < 0xFF {
            Some(le32(s, crate::locate::spec_args_off(s) + 72) as u64)
        } else {
            None
        },
        shlibs: if le32(s, crate::locate::spec_args_off(s) + 76) != 0 {
            Some(le32(s, crate::locate::spec_args_off(s) + 76) as u64)
        } else {
            None
        },
    }
}

/// Split a raw (already decompressed) firmware blob into its module
/// files: locate the descriptor, then run the 64-bit pipeline, or — when
/// the revision tag is 1 — the legacy pipeline rooted at the boot-argument
/// chain. Each produced record carries the file's index, display name and
/// fixed-up bytes. The blob must leave the cursors a little headroom
/// below `u64::MAX`; every real buffer does.
pub fn split_blob(krnl: &[u8]) -> (r: Result<Vec<OutputFile>, SplitError>)
    requires
        krnl@.len() <= u64::MAX - 0x1000,
    ensures
        ({
            let s = krnl@;
            match r {
                Ok(fs) => spec_loc_ok(s) && (if spec_loc_ver(s) == 1 {
                    spec_sep32_wf(s) && crate::split32::spec_split32_post(
                        s,
                        spec_sep32_info(s),
                        fs@,
                    )
                } else {
                    spec_split64_ok(s, spec_loc_off(s), spec_loc_ver(s)) && spec_split64_post(
                        s,
                        spec_loc_off(s),
                        spec_loc_ver(s),
                        fs@,
                    )
                }),
                Err(SplitError::UnrecognizedFirmware) => !crate::locate::spec_marker64_old(s)
                    && !crate::locate::spec_marker64_new(s) && !crate::locate::spec_marker32(s),
                Err(e) => (e == SplitError::Truncated && !spec_loc_ok(s) && (
                crate::locate::spec_marker64_old(s) || crate::locate::spec_marker64_new(s))) || (
                spec_loc_ok(s) && (if spec_loc_ver(s) == 1 {
                    (e == SplitError::Truncated && !spec_sep32_wf(s)) || (spec_sep32_wf(s)
                        && crate::split32::spec_split32_err(s, spec_sep32_info(s), e))
                } else {
                    e == SplitError::Truncated && !spec_split64_ok(
                        s,
                        spec_loc_off(s),
                        spec_loc_ver(s),
                    )
                })),
            }
        }),
{
    let loc = match crate::locate::locate_descriptor(krnl) {
        Ok(l) => l,
        Err(e) => {
            return Err(e);
        },
    };
    if loc.ver == 1 {
        let info = match crate::locate::sep32_info(krnl) {
            Ok(i) => i,
            Err(e) => {
                return Err(e);
            },
        };
        crate::split32::split32_outputs(krnl, &info)
    } else {
        split64_outputs(krnl, loc.hdr_offset, loc.ver)
    }
}

} // verus!
