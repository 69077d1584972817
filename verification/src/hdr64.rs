//! Descriptor Decoder: the main firmware descriptor and the module-table
//! entry structures.
//!
//! The 64-bit descriptor and the 64-bit module entry both shift their
//! field offsets by revision-conditional amounts: three shared-memory
//! fields exist only when the anti-replay minimum size is nonzero or the
//! revision is 4, three stack-memory fields only when the stack size is
//! nonzero or the revision is 4, and revision 4 inserts further fields of
//! its own. The spec functions here pin each decoded field to the exact
//! byte range it came from, offsets included.

use crate::bytes::{le32, le64, range_ok, readable, read_u32, read_u64, read_vec};
use crate::srcver::SrcVer;
use crate::SplitError;
use vstd::prelude::*;

verus! {

/// Size of the descriptor without optional fields and without the hidden
/// count region; the module-table offset is computed from it.
pub const SEPHDR_SIZE: u64 = 224;

/// Shift for the shared-memory fields of the descriptor: present when
/// the anti-replay minimum size (at offset 80) is nonzero or the revision
/// is 4.
pub open spec fn spec_hdr64_ar_shift(s: Seq<u8>, off: int, ver: u8) -> int {
    if le64(s, off + 80) != 0 || ver == 4 {
        24
    } else {
        0
    }
}

/// Offset of the root-server block of the descriptor.
pub open spec fn spec_hdr64_init_off(s: Seq<u8>, off: int, ver: u8) -> int {
    off + 88 + spec_hdr64_ar_shift(s, off, ver)
}

/// Shift for the stack-memory fields of the descriptor: present when the
/// root server's stack size is nonzero or the revision is 4.
pub open spec fn spec_hdr64_stack_shift(s: Seq<u8>, off: int, ver: u8) -> int {
    if le64(s, spec_hdr64_init_off(s, off, ver) + 48) != 0 || ver == 4 {
        24
    } else {
        0
    }
}

/// Offset of the root-server name field of the descriptor.
pub open spec fn spec_hdr64_name_off(s: Seq<u8>, off: int, ver: u8) -> int {
    spec_hdr64_init_off(s, off, ver) + 56 + spec_hdr64_stack_shift(s, off, ver) + (if ver == 4 {
        32int
    } else {
        0int
    })
}

/// Shift for the hidden region before the module counts, signalled by a
/// particular three-byte padding value after the coredump flag.
pub open spec fn spec_hdr64_hidden_shift(s: Seq<u8>, off: int, ver: u8) -> int {
    if s[spec_hdr64_name_off(s, off, ver) + 45] == 0x40 && s[spec_hdr64_name_off(s, off, ver) + 46]
        == 0x04 && s[spec_hdr64_name_off(s, off, ver) + 47] == 0x00 {
        0x100
    } else {
        0
    }
}

/// Offset of the module and shared-library counts of the descriptor.
pub open spec fn spec_hdr64_counts_off(s: Seq<u8>, off: int, ver: u8) -> int {
    spec_hdr64_name_off(s, off, ver) + 48 + spec_hdr64_hidden_shift(s, off, ver)
}

/// Every field of the descriptor lies inside the blob.
pub open spec fn spec_hdr64_wf(s: Seq<u8>, off: int, ver: u8) -> bool {
    &&& readable(s, off, 88)
    &&& readable(s, spec_hdr64_init_off(s, off, ver), 56)
    &&& readable(s, spec_hdr64_name_off(s, off, ver), 48)
    &&& readable(s, spec_hdr64_counts_off(s, off, ver), 8)
}

/// The decoded 64-bit firmware descriptor: the fields the extraction
/// pipeline reads.
pub struct SEPDataHDR64 {
    /// UUID of the kernel, as stored (little-endian bytes).
    pub kernel_uuid: Vec<u8>,
    /// Physical offset of the kernel image.
    pub kernel_base_paddr: u64,
    /// Physical end bound of the kernel image.
    pub kernel_max_paddr: u64,
    /// Minimum size of the anti-replay region; its presence flag.
    pub ar_min_size: u64,
    /// Physical offset of the root server.
    pub init_base_paddr: u64,
    /// Stack size of the root server; its presence flag.
    pub stack_size: u64,
    /// Fixed-width name field of the root server.
    pub init_name: Vec<u8>,
    /// UUID of the root server, as stored.
    pub init_uuid: Vec<u8>,
    /// Source version of the root server; selects the module-table stride.
    pub srcver: SrcVer,
    /// Number of application entries that follow.
    pub n_apps: u32,
    /// Number of shared-library entries after the applications.
    pub n_shlibs: u32,
}

/// Decode the 64-bit descriptor at `off`. Every field is pinned to the
/// byte range the revision-conditional layout assigns it; a field that
/// would leave the blob is `Truncated`.
pub fn decode_hdr64(krnl: &[u8], off: u64, ver: u8) -> (r: Result<SEPDataHDR64, SplitError>)
    requires
        off <= u64::MAX - 0x300,
    ensures
        match r {
            Ok(h) => {
                &&& spec_hdr64_wf(krnl@, off as int, ver)
                &&& h.kernel_uuid@ == krnl@.subrange(off as int, off as int + 16)
                &&& h.kernel_base_paddr == le64(krnl@, off as int + 24)
                &&& h.kernel_max_paddr == le64(krnl@, off as int + 32)
                &&& h.ar_min_size == le64(krnl@, off as int + 80)
                &&& h.init_base_paddr == le64(krnl@, spec_hdr64_init_off(krnl@, off as int, ver))
                &&& h.stack_size == le64(krnl@, spec_hdr64_init_off(krnl@, off as int, ver) + 48)
                &&& h.init_name@ == krnl@.subrange(
                    spec_hdr64_name_off(krnl@, off as int, ver),
                    spec_hdr64_name_off(krnl@, off as int, ver) + 16,
                )
                &&& h.init_uuid@ == krnl@.subrange(
                    spec_hdr64_name_off(krnl@, off as int, ver) + 16,
                    spec_hdr64_name_off(krnl@, off as int, ver) + 32,
                )
                &&& h.srcver.raw == le64(krnl@, spec_hdr64_name_off(krnl@, off as int, ver) + 32)
                &&& h.n_apps == le32(krnl@, spec_hdr64_counts_off(krnl@, off as int, ver))
                &&& h.n_shlibs == le32(krnl@, spec_hdr64_counts_off(krnl@, off as int, ver) + 4)
            },
            Err(SplitError::Truncated) => !spec_hdr64_wf(krnl@, off as int, ver),
            _ => false,
        },
{
    if !range_ok(krnl, off, 88) {
        return Err(SplitError::Truncated);
    }
    let kernel_uuid = read_vec(krnl, off, 16).unwrap();
    let kernel_base_paddr = read_u64(krnl, off + 24).unwrap();
    let kernel_max_paddr = read_u64(krnl, off + 32).unwrap();
    let ar_min_size = read_u64(krnl, off + 80).unwrap();
    let ar_shift: u64 = if ar_min_size != 0 || ver == 4 {
        24
    } else {
        0
    };
    let init_off = off + 88 + ar_shift;
    if !range_ok(krnl, init_off, 56) {
        return Err(SplitError::Truncated);
    }
    let init_base_paddr = read_u64(krnl, init_off).unwrap();
    let stack_size = read_u64(krnl, init_off + 48).unwrap();
    let stack_shift: u64 = if stack_size != 0 || ver == 4 {
        24
    } else {
        0
    };
    let name_off = init_off + 56 + stack_shift + (if ver == 4 {
        32
    } else {
        0
    });
    if !range_ok(krnl, name_off, 48) {
        return Err(SplitError::Truncated);
    }
    let init_name = read_vec(krnl, name_off, 16).unwrap();
    let init_uuid = read_vec(krnl, name_off + 16, 16).unwrap();
    let srcver_raw = read_u64(krnl, name_off + 32).unwrap();
    let pad = read_vec(krnl, name_off + 45, 3).unwrap();
    let hidden: u64 = if pad[0] == 0x40 && pad[1] == 0x04 && pad[2] == 0x00 {
        0x100
    } else {
        0
    };
    let counts_off = name_off + 48 + hidden;
    if !range_ok(krnl, counts_off, 8) {
        return Err(SplitError::Truncated);
    }
    let n_apps = read_u32(krnl, counts_off).unwrap();
    let n_shlibs = read_u32(krnl, counts_off + 4).unwrap();
    Ok(
        SEPDataHDR64 {
            kernel_uuid,
            kernel_base_paddr,
            kernel_max_paddr,
            ar_min_size,
            init_base_paddr,
            stack_size,
            init_name,
            init_uuid,
            srcver: SrcVer { raw: srcver_raw },
            n_apps,
            n_shlibs,
        },
    )
}

/// Shift for the heap field of a 64-bit module entry: present when the
/// entry's stack size (at offset 48) is nonzero or the revision is 4.
pub open spec fn spec_app64_stack_shift(s: Seq<u8>, off: int, ver: u8) -> int {
    if le64(s, off + 48) != 0 || ver == 4 {
        8
    } else {
        0
    }
}

/// Offset of the name field of a 64-bit module entry.
pub open spec fn spec_app64_name_off(s: Seq<u8>, off: int, ver: u8) -> int {
    off + 80 + spec_app64_stack_shift(s, off, ver) + (if ver == 4 {
        32int
    } else {
        0int
    })
}

/// Every field of a 64-bit module entry lies inside the blob.
pub open spec fn spec_app64_wf(s: Seq<u8>, off: int, ver: u8) -> bool {
    &&& readable(s, off, 72)
    &&& readable(s, spec_app64_name_off(s, off, ver), 40)
}

/// One decoded 64-bit module-table entry: the fields the extraction
/// pipeline reads.
pub struct SEPApp64 {
    /// Physical offset of the module's image.
    pub phys_text: u64,
    /// Size of the image (without the writable data).
    pub size_text: u64,
    /// Physical offset of the module's writable data.
    pub phys_data: u64,
    /// Size of the writable data.
    pub size_data: u64,
    /// Virtual load address of the module.
    pub virt: u64,
    /// Entry point of the module, from the start of its image.
    pub ventry: u64,
    /// Stack size of the module; its presence flag.
    pub stack_size: u64,
    /// Fixed-width name field of the module.
    pub app_name: Vec<u8>,
    /// UUID of the module, as stored.
    pub app_uuid: Vec<u8>,
    /// Source version of the module; selects the module-table stride.
    pub srcver: SrcVer,
}

/// Decode the 64-bit module entry at `off`, with the same
/// revision-conditional layout rules as the descriptor.
pub fn decode_app64(krnl: &[u8], off: u64, ver: u8) -> (r: Result<SEPApp64, SplitError>)
    requires
        off <= u64::MAX - 0x200,
    ensures
        match r {
            Ok(a) => {
                &&& spec_app64_wf(krnl@, off as int, ver)
                &&& a.phys_text == le64(krnl@, off as int)
                &&& a.size_text == le64(krnl@, off as int + 8)
                &&& a.phys_data == le64(krnl@, off as int + 16)
                &&& a.size_data == le64(krnl@, off as int + 24)
                &&& a.virt == le64(krnl@, off as int + 32)
                &&& a.ventry == le64(krnl@, off as int + 40)
                &&& a.stack_size == le64(krnl@, off as int + 48)
                &&& a.app_name@ == krnl@.subrange(
                    spec_app64_name_off(krnl@, off as int, ver),
                    spec_app64_name_off(krnl@, off as int, ver) + 16,
                )
                &&& a.app_uuid@ == krnl@.subrange(
                    spec_app64_name_off(krnl@, off as int, ver) + 16,
                    spec_app64_name_off(krnl@, off as int, ver) + 32,
                )
                &&& a.srcver.raw == le64(krnl@, spec_app64_name_off(krnl@, off as int, ver) + 32)
            },
            Err(SplitError::Truncated) => !spec_app64_wf(krnl@, off as int, ver),
            _ => false,
        },
{
    if !range_ok(krnl, off, 72) {
        return Err(SplitError::Truncated);
    }
    let phys_text = read_u64(krnl, off).unwrap();
    let size_text = read_u64(krnl, off + 8).unwrap();
    let phys_data = read_u64(krnl, off + 16).unwrap();
    let size_data = read_u64(krnl, off + 24).unwrap();
    let virt = read_u64(krnl, off + 32).unwrap();
    let ventry = read_u64(krnl, off + 40).unwrap();
    let stack_size = read_u64(krnl, off + 48).unwrap();
    let stack_shift: u64 = if stack_size != 0 || ver == 4 {
        8
    } else {
        0
    };
    let name_off = off + 80 + stack_shift + (if ver == 4 {
        32
    } else {
        0
    });
    if !range_ok(krnl, name_off, 40) {
        return Err(SplitError::Truncated);
    }
    let app_name = read_vec(krnl, name_off, 16).unwrap();
    let app_uuid = read_vec(krnl, name_off + 16, 16).unwrap();
    let srcver_raw = read_u64(krnl, name_off + 32).unwrap();
    Ok(
        SEPApp64 {
            phys_text,
            size_text,
            phys_data,
            size_data,
            virt,
            ventry,
            stack_size,
            app_name,
            app_uuid,
            srcver: SrcVer { raw: srcver_raw },
        },
    )
}

/// One decoded legacy module-table entry.
#[derive(Clone, Copy, Debug, PartialEq, Eq, Structural)]
pub struct SEPAppOld {
    /// Physical offset of the module's image; zero ends the table.
    pub phys: u64,
    /// Virtual load address of the module.
    pub virt: u32,
    /// Size of the module's image, writable data included.
    pub size: u32,
    /// Entry point of the module.
    pub entry: u32,
}

/// Every field of a legacy module entry lies inside the blob.
pub open spec fn spec_app_old_wf(s: Seq<u8>, off: int) -> bool {
    readable(s, off, 20)
}

/// Decode the legacy module entry at `off`.
pub fn decode_app_old(krnl: &[u8], off: u64) -> (r: Result<SEPAppOld, SplitError>)
    ensures
        match r {
            Ok(a) => {
                &&& spec_app_old_wf(krnl@, off as int)
                &&& a.phys == le64(krnl@, off as int)
                &&& a.virt == le32(krnl@, off as int + 8)
                &&& a.size == le32(krnl@, off as int + 12)
                &&& a.entry == le32(krnl@, off as int + 16)
            },
            Err(SplitError::Truncated) => !spec_app_old_wf(krnl@, off as int),
            _ => false,
        },
{
    let blen = krnl.len();
    if !range_ok(krnl, off, 20) {
        return Err(SplitError::Truncated);
    }
    assert(off + 20 <= blen);
    let phys = read_u64(krnl, off).unwrap();
    let virt = read_u32(krnl, off + 8).unwrap();
    let size = read_u32(krnl, off + 12).unwrap();
    let entry = read_u32(krnl, off + 16).unwrap();
    Ok(SEPAppOld { phys, virt, size, entry })
}

} // verus!
