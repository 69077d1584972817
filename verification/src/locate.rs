//! Version Locator: find the main descriptor and the format revision.
//!
//! Three fixed candidate offsets are probed, newest format first, for the
//! 16-byte generation-marker string. The locator structure around the
//! first match yields the absolute offset of the main descriptor and a
//! one-byte revision tag; revision 1 selects the legacy 32-bit decode
//! path, which additionally indirects through two boot-argument
//! structures to reach the module table and its counts.

use crate::bytes::{le16, le32, matches_at, range_ok, readable, read_u16, read_u32};
use crate::SplitError;
use vstd::prelude::*;

verus! {

/// Size of the legacy kernel boot-argument structure, which the module
/// table directly follows.
pub const KRNLBOOTARGS_SIZE: u64 = 312;

/// The 16-byte generation-marker string.
pub open spec fn spec_legion_marker() -> Seq<u8> {
    seq![0x42, 0x75, 0x69, 0x6c, 0x74, 0x20, 0x62, 0x79, 0x20, 0x6c, 0x65, 0x67, 0x69, 0x6f, 0x6e, 0x32]
}

/// The marker sits where the older 64-bit locator keeps it.
pub open spec fn spec_marker64_old(s: Seq<u8>) -> bool {
    matches_at(s, spec_legion_marker(), 0x1004)
}

/// The marker sits where the newer 64-bit locator keeps it.
pub open spec fn spec_marker64_new(s: Seq<u8>) -> bool {
    matches_at(s, spec_legion_marker(), 0x103c)
}

/// The marker sits where the 32-bit locator keeps it.
pub open spec fn spec_marker32(s: Seq<u8>) -> bool {
    matches_at(s, spec_legion_marker(), 0x408)
}

/// Where the Version Locator found the descriptor.
pub struct LocatedDescriptor {
    /// Absolute byte offset of the main descriptor structure.
    pub hdr_offset: u64,
    /// The format revision tag; 1 selects the legacy 32-bit path.
    pub ver: u8,
    /// The locator's own UUID, where the locator shape carries one.
    pub header_uuid: Option<Vec<u8>>,
}

/// Probe the three candidate offsets for the generation marker, newest
/// format first, and decode the locator around the first match. No match
/// at any candidate offset is `UnrecognizedFirmware`; a matched locator
/// whose descriptor-offset field leaves the blob is `Truncated`.
pub fn locate_descriptor(krnl: &[u8]) -> (r: Result<LocatedDescriptor, SplitError>)
    ensures
        match r {
            Ok(l) => if spec_marker64_old(krnl@) {
                &&& readable(krnl@, 0x1014, 2)
                &&& l.hdr_offset == le16(krnl@, 0x1014)
                &&& l.ver == (le32(krnl@, 0x1000) & 0xff) as u8
                &&& l.header_uuid is None
            } else if spec_marker64_new(krnl@) {
                &&& readable(krnl@, 0x104c, 2)
                &&& l.hdr_offset == le16(krnl@, 0x104c)
                &&& l.ver == (le32(krnl@, 0x1038) & 0xff) as u8
                &&& (l.header_uuid matches Some(u) && u@ == krnl@.subrange(0x1018, 0x1028))
            } else if spec_marker32(krnl@) {
                &&& l.hdr_offset == le32(krnl@, 0x404)
                &&& l.ver == (le32(krnl@, 0x400) & 0xff) as u8
                &&& l.header_uuid is None
            } else {
                false
            },
            Err(SplitError::UnrecognizedFirmware) => !spec_marker64_old(krnl@)
                && !spec_marker64_new(krnl@) && !spec_marker32(krnl@),
            Err(SplitError::Truncated) => (spec_marker64_old(krnl@) && !readable(
                krnl@,
                0x1014,
                2,
            )) || (!spec_marker64_old(krnl@) && spec_marker64_new(krnl@) && !readable(
                krnl@,
                0x104c,
                2,
            )),
            _ => false,
        },
{
    // "Built by legion2"
    let marker: [u8; 16] = [
        0x42,
        0x75,
        0x69,
        0x6c,
        0x74,
        0x20,
        0x62,
        0x79,
        0x20,
        0x6c,
        0x65,
        0x67,
        0x69,
        0x6f,
        0x6e,
        0x32,
    ];
    proof {
        assert(marker@ =~= spec_legion_marker());
    }
    if crate::bytes::match_at(krnl, 0x1004, &marker) {
        // Older 64-bit locator: revision tag first, marker, descriptor offset.
        let sub = read_u32(krnl, 0x1000).unwrap();
        let structoff = match read_u16(krnl, 0x1014) {
            Some(x) => x,
            None => {
                return Err(SplitError::Truncated);
            },
        };
        Ok(
            LocatedDescriptor {
                hdr_offset: structoff as u64,
                ver: (sub & 0xff) as u8,
                header_uuid: None,
            },
        )
    } else if crate::bytes::match_at(krnl, 0x103c, &marker) {
        // Newer 64-bit locator: carries its own UUID before the marker.
        let uuid = crate::bytes::read_vec(krnl, 0x1018, 16).unwrap();
        let sub = read_u32(krnl, 0x1038).unwrap();
        let structoff = match read_u16(krnl, 0x104c) {
            Some(x) => x,
            None => {
                return Err(SplitError::Truncated);
            },
        };
        Ok(
            LocatedDescriptor {
                hdr_offset: structoff as u64,
                ver: (sub & 0xff) as u8,
                header_uuid: Some(uuid),
            },
        )
    } else if crate::bytes::match_at(krnl, 0x408, &marker) {
        // 32-bit locator: revision tag, descriptor offset, marker.
        let sub = read_u32(krnl, 0x400).unwrap();
        let off = read_u32(krnl, 0x404).unwrap();
        Ok(
            LocatedDescriptor {
                hdr_offset: off as u64,
                ver: (sub & 0xff) as u8,
                header_uuid: None,
            },
        )
    } else {
        Err(SplitError::UnrecognizedFirmware)
    }
}

/// The offset of the legacy monitor boot-argument structure.
pub open spec fn spec_mon_off(s: Seq<u8>) -> int {
    le32(s, 0x404) as int
}

/// The offset of the legacy kernel boot-argument structure.
pub open spec fn spec_args_off(s: Seq<u8>) -> int {
    le32(s, spec_mon_off(s) + 16) as int
}

/// Where the legacy module table starts and what it holds.
pub struct SEPinfo {
    /// Byte offset of the first module-table entry.
    pub sep_app_pos: u64,
    /// Provisional entry stride, until the derived stride replaces it.
    pub sepapp_size: u64,
    /// The module count, where the boot arguments carry a credible one.
    pub sepapps: Option<u64>,
    /// The shared-library count, where nonzero.
    pub shlibs: Option<u64>,
}

/// Decode the legacy locator chain: the 32-bit locator at its fixed
/// offset points at the monitor boot arguments, which point at the kernel
/// boot arguments, which the module table directly follows and which hold
/// the module and shared-library counts.
pub fn sep32_info(krnl: &[u8]) -> (r: Result<SEPinfo, SplitError>)
    ensures
        match r {
            Ok(info) => {
                &&& readable(krnl@, 0x400, 24)
                &&& readable(krnl@, spec_mon_off(krnl@), 40)
                &&& readable(krnl@, spec_args_off(krnl@), KRNLBOOTARGS_SIZE as int)
                &&& info.sep_app_pos == spec_args_off(krnl@) + KRNLBOOTARGS_SIZE
                &&& info.sepapp_size == crate::srcver::SEPAPP_SIZE
                &&& info.sepapps == (if le32(krnl@, spec_args_off(krnl@) + 72) < 0xFF {
                    Some(le32(krnl@, spec_args_off(krnl@) + 72) as u64)
                } else {
                    Option::<u64>::None
                })
                &&& info.shlibs == (if le32(krnl@, spec_args_off(krnl@) + 76) != 0 {
                    Some(le32(krnl@, spec_args_off(krnl@) + 76) as u64)
                } else {
                    Option::<u64>::None
                })
            },
            Err(SplitError::Truncated) => !readable(krnl@, 0x400, 24) || !readable(
                krnl@,
                spec_mon_off(krnl@),
                40,
            ) || !readable(krnl@, spec_args_off(krnl@), KRNLBOOTARGS_SIZE as int),
            _ => false,
        },
{
    if !range_ok(krnl, 0x400, 24) {
        return Err(SplitError::Truncated);
    }
    let mon_off = read_u32(krnl, 0x404).unwrap() as u64;
    if !range_ok(krnl, mon_off, 40) {
        return Err(SplitError::Truncated);
    }
    let args_off = read_u32(krnl, mon_off + 16).unwrap() as u64;
    if !range_ok(krnl, args_off, KRNLBOOTARGS_SIZE) {
        return Err(SplitError::Truncated);
    }
    let num_apps = read_u32(krnl, args_off + 72).unwrap();
    let num_shlibs = read_u32(krnl, args_off + 76).unwrap();
    Ok(
        SEPinfo {
            sep_app_pos: args_off + KRNLBOOTARGS_SIZE,
            sepapp_size: crate::srcver::SEPAPP_SIZE,
            sepapps: if num_apps < 0xFF {
                Some(num_apps as u64)
            } else {
                None
            },
            shlibs: if num_shlibs != 0 {
                Some(num_shlibs as u64)
            } else {
                None
            },
        },
    )
}

} // verus!
