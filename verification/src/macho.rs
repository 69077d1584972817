//! The embedded loadable-image format: header, load commands, segments.
//!
//! An extracted module is a Mach-O-shaped image: a fixed header holding a
//! magic value and a command count, followed by a list of load commands,
//! each a 32-bit type tag and a 32-bit total size. Segment commands carry a
//! 16-byte name, addresses and a file range. Every decode here is a
//! bounds-checked read through [`crate::bytes`], with each field pinned to
//! the byte range it came from.

use crate::bytes::{le32, matches_at, readable, read_u32};
use vstd::prelude::*;

verus! {

/// Size of the image header.
pub const MACHHEADER_SIZE: u64 = 28;

/// Size of the tag/size prefix of every load command.
pub const LOADCOMMAND_SIZE: u64 = 8;

/// Byte count of a 32-bit segment command body (after the prefix).
pub const SEGMENT_BODY_SIZE: u64 = 44;

/// Byte count of a 64-bit segment command body (after the prefix).
pub const SEGMENT64_BODY_SIZE: u64 = 60;

/// Byte count of a symbol-table command body (after the prefix).
pub const SYMTAB_BODY_SIZE: u64 = 16;

/// Byte count of a dynamic-symbol-table command body (after the prefix).
pub const DYSYMTAB_BODY_SIZE: u64 = 72;

/// Load-command tag of a 32-bit segment.
pub const CMD_SEGMENT: u32 = 0x1;

/// Load-command tag of a 64-bit segment.
pub const CMD_SEGMENT64: u32 = 0x19;

/// Load-command tag of the symbol table.
pub const CMD_SYMTAB: u32 = 0x2;

/// Load-command tag of the dynamic symbol table.
pub const CMD_DYSYMTAB: u32 = 0xB;

/// The image header, decoded from the first 28 bytes of an image.
#[derive(Clone, Copy, Debug, PartialEq, Eq, Structural)]
pub struct MachHeader {
    pub magic: u32,
    pub cputype: u32,
    pub cpusubtype: u32,
    pub filetype: u32,
    pub ncmds: u32,
    pub sizeofcmds: u32,
    pub flags: u32,
}

/// The header fields held by the first 28 bytes of `s`.
pub open spec fn spec_mach_header(s: Seq<u8>) -> MachHeader {
    MachHeader {
        magic: le32(s, 0),
        cputype: le32(s, 4),
        cpusubtype: le32(s, 8),
        filetype: le32(s, 12),
        ncmds: le32(s, 16),
        sizeofcmds: le32(s, 20),
        flags: le32(s, 24),
    }
}

/// A magic value names the image format, in either width.
pub open spec fn spec_magic_is_macho(magic: u32) -> bool {
    magic & 0xffff_fffe == 0xfeed_face
}

/// A magic value names the 64-bit width of the image format.
pub open spec fn spec_magic_is64(magic: u32) -> bool {
    magic & 1 == 1
}

/// `s` is long enough for a header whose magic names the image format.
pub open spec fn spec_is_macho(s: Seq<u8>) -> bool {
    s.len() >= 28 && spec_magic_is_macho(le32(s, 0))
}

/// The offset of the first load command: the 64-bit header carries four
/// more bytes than the 32-bit one.
pub open spec fn spec_cmds_start(s: Seq<u8>) -> int {
    if spec_magic_is64(le32(s, 0)) {
        32
    } else {
        28
    }
}

impl MachHeader {
    /// The magic names the image format (either width).
    pub fn is_macho(&self) -> (r: bool)
        ensures
            r == spec_magic_is_macho(self.magic),
    {
        self.magic & 0xffff_fffe == 0xfeed_face
    }

    /// The magic names the 64-bit width of the image format.
    pub fn is64(&self) -> (r: bool)
        ensures
            r == spec_magic_is64(self.magic),
    {
        self.magic & 1 == 1
    }
}

/// Decode the image header at the start of `b`, or `None` if fewer than 28
/// bytes are available.
pub fn decode_mach_header(b: &[u8]) -> (r: Option<MachHeader>)
    ensures
        match r {
            Some(h) => b@.len() >= 28 && h == spec_mach_header(b@),
            None => b@.len() < 28,
        },
{
    if b.len() < 28 {
        return None;
    }
    let magic = read_u32(b, 0).unwrap();
    let cputype = read_u32(b, 4).unwrap();
    let cpusubtype = read_u32(b, 8).unwrap();
    let filetype = read_u32(b, 12).unwrap();
    let ncmds = read_u32(b, 16).unwrap();
    let sizeofcmds = read_u32(b, 20).unwrap();
    let flags = read_u32(b, 24).unwrap();
    Some(MachHeader { magic, cputype, cpusubtype, filetype, ncmds, sizeofcmds, flags })
}

/// The tag/size prefix of one load command.
#[derive(Clone, Copy, Debug, PartialEq, Eq, Structural)]
pub struct LoadCommand {
    pub cmd: u32,
    pub cmdsize: u32,
}

/// Decode the load-command prefix at `off`, or `None` if it leaves the
/// buffer.
pub fn decode_load_command(b: &[u8], off: u64) -> (r: Option<LoadCommand>)
    ensures
        match r {
            Some(l) => readable(b@, off as int, 8) && l.cmd == le32(b@, off as int) && l.cmdsize
                == le32(b@, off as int + 4),
            None => !readable(b@, off as int, 8),
        },
{
    let blen = b.len();
    if !crate::bytes::range_ok(b, off, 8) {
        return None;
    }
    assert(off + 8 <= blen);
    let cmd = read_u32(b, off).unwrap();
    let cmdsize = read_u32(b, off + 4).unwrap();
    Some(LoadCommand { cmd, cmdsize })
}

/// A 32-bit segment command body: name, addresses and file range.
pub struct Segment {
    pub segname: Vec<u8>,
    pub vmaddr: u32,
    pub vmsize: u32,
    pub fileoff: u32,
    pub filesize: u32,
    pub maxprot: u32,
    pub initprot: u32,
    pub flags: u32,
}

/// Decode the 32-bit segment command body at `body`, or `None` if it
/// leaves the buffer.
pub fn decode_segment(b: &[u8], body: u64) -> (r: Option<Segment>)
    ensures
        match r {
            Some(g) => {
                &&& readable(b@, body as int, SEGMENT_BODY_SIZE as int)
                &&& g.segname@ == b@.subrange(body as int, body as int + 16)
                &&& g.vmaddr == le32(b@, body as int + 16)
                &&& g.vmsize == le32(b@, body as int + 20)
                &&& g.fileoff == le32(b@, body as int + 24)
                &&& g.filesize == le32(b@, body as int + 28)
                &&& g.maxprot == le32(b@, body as int + 32)
                &&& g.initprot == le32(b@, body as int + 36)
                &&& g.flags == le32(b@, body as int + 40)
            },
            None => !readable(b@, body as int, SEGMENT_BODY_SIZE as int),
        },
{
    let blen = b.len();
    if !crate::bytes::range_ok(b, body, SEGMENT_BODY_SIZE) {
        return None;
    }
    assert(body + SEGMENT_BODY_SIZE <= blen);
    let segname = crate::bytes::read_vec(b, body, 16).unwrap();
    let vmaddr = read_u32(b, body + 16).unwrap();
    let vmsize = read_u32(b, body + 20).unwrap();
    let fileoff = read_u32(b, body + 24).unwrap();
    let filesize = read_u32(b, body + 28).unwrap();
    let maxprot = read_u32(b, body + 32).unwrap();
    let initprot = read_u32(b, body + 36).unwrap();
    let flags = read_u32(b, body + 40).unwrap();
    Some(Segment { segname, vmaddr, vmsize, fileoff, filesize, maxprot, initprot, flags })
}

/// A 64-bit segment command body.
pub struct Segment64 {
    pub segname: Vec<u8>,
    pub vmaddr: u64,
    pub vmsize: u64,
    pub fileoff: u64,
    pub filesize: u64,
    pub maxprot: u32,
    pub initprot: u32,
    pub flags: u32,
}

/// Decode the 64-bit segment command body at `body`, or `None` if it
/// leaves the buffer.
pub fn decode_segment64(b: &[u8], body: u64) -> (r: Option<Segment64>)
    ensures
        match r {
            Some(g) => {
                &&& readable(b@, body as int, SEGMENT64_BODY_SIZE as int)
                &&& g.segname@ == b@.subrange(body as int, body as int + 16)
                &&& g.vmaddr == crate::bytes::le64(b@, body as int + 16)
                &&& g.vmsize == crate::bytes::le64(b@, body as int + 24)
                &&& g.fileoff == crate::bytes::le64(b@, body as int + 32)
                &&& g.filesize == crate::bytes::le64(b@, body as int + 40)
                &&& g.maxprot == le32(b@, body as int + 48)
                &&& g.initprot == le32(b@, body as int + 52)
                &&& g.flags == le32(b@, body as int + 56)
            },
            None => !readable(b@, body as int, SEGMENT64_BODY_SIZE as int),
        },
{
    let blen = b.len();
    if !crate::bytes::range_ok(b, body, SEGMENT64_BODY_SIZE) {
        return None;
    }
    assert(body + SEGMENT64_BODY_SIZE <= blen);
    let segname = crate::bytes::read_vec(b, body, 16).unwrap();
    let vmaddr = crate::bytes::read_u64(b, body + 16).unwrap();
    let vmsize = crate::bytes::read_u64(b, body + 24).unwrap();
    let fileoff = crate::bytes::read_u64(b, body + 32).unwrap();
    let filesize = crate::bytes::read_u64(b, body + 40).unwrap();
    let maxprot = read_u32(b, body + 48).unwrap();
    let initprot = read_u32(b, body + 52).unwrap();
    let flags = read_u32(b, body + 56).unwrap();
    Some(Segment64 { segname, vmaddr, vmsize, fileoff, filesize, maxprot, initprot, flags })
}

/// The 16-byte name of the writable-data segment.
pub open spec fn spec_seg_data() -> Seq<u8> {
    seq![0x5f, 0x5f, 0x44, 0x41, 0x54, 0x41, 0, 0, 0, 0, 0, 0, 0, 0, 0, 0]
}

/// The 16-byte name of the zero-page segment.
pub open spec fn spec_seg_pagezero() -> Seq<u8> {
    seq![0x5f, 0x5f, 0x50, 0x41, 0x47, 0x45, 0x5a, 0x45, 0x52, 0x4f, 0, 0, 0, 0, 0, 0]
}

/// The 16-byte name of the metadata segment.
pub open spec fn spec_seg_linkedit() -> Seq<u8> {
    seq![0x5f, 0x5f, 0x4c, 0x49, 0x4e, 0x4b, 0x45, 0x44, 0x49, 0x54, 0, 0, 0, 0, 0, 0]
}

/// The segment name at `off` is the writable-data segment's.
pub fn name_is_data(b: &[u8], off: u64) -> (r: bool)
    ensures
        r == matches_at(b@, spec_seg_data(), off as int),
{
    // "__DATA", zero-padded to 16 bytes
    let pat: [u8; 16] = [0x5f, 0x5f, 0x44, 0x41, 0x54, 0x41, 0, 0, 0, 0, 0, 0, 0, 0, 0, 0];
    proof {
        assert(pat@ =~= spec_seg_data());
    }
    crate::bytes::match_at(b, off, &pat)
}

/// The segment name at `off` is the zero-page segment's.
pub fn name_is_pagezero(b: &[u8], off: u64) -> (r: bool)
    ensures
        r == matches_at(b@, spec_seg_pagezero(), off as int),
{
    // "__PAGEZERO", zero-padded to 16 bytes
    let pat: [u8; 16] = [
        0x5f,
        0x5f,
        0x50,
        0x41,
        0x47,
        0x45,
        0x5a,
        0x45,
        0x52,
        0x4f,
        0,
        0,
        0,
        0,
        0,
        0,
    ];
    proof {
        assert(pat@ =~= spec_seg_pagezero());
    }
    crate::bytes::match_at(b, off, &pat)
}

/// The segment name at `off` is the metadata segment's.
pub fn name_is_linkedit(b: &[u8], off: u64) -> (r: bool)
    ensures
        r == matches_at(b@, spec_seg_linkedit(), off as int),
{
    // "__LINKEDIT", zero-padded to 16 bytes
    let pat: [u8; 16] = [
        0x5f,
        0x5f,
        0x4c,
        0x49,
        0x4e,
        0x4b,
        0x45,
        0x44,
        0x49,
        0x54,
        0,
        0,
        0,
        0,
        0,
        0,
    ];
    proof {
        assert(pat@ =~= spec_seg_linkedit());
    }
    crate::bytes::match_at(b, off, &pat)
}

} // verus!
