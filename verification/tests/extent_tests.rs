//! The Image Extent Calculator on crafted images.

use sepsplit::extent::calc_size;

fn put_u32(buf: &mut Vec<u8>, off: usize, x: u32) {
    buf[off..off + 4].copy_from_slice(&x.to_le_bytes());
}

fn put_u64(buf: &mut Vec<u8>, off: usize, x: u64) {
    buf[off..off + 8].copy_from_slice(&x.to_le_bytes());
}

/// A 32-bit image header at offset 0 with `ncmds` commands.
fn mach_header32(buf: &mut Vec<u8>, ncmds: u32) {
    put_u32(buf, 0, 0xfeed_face);
    put_u32(buf, 16, ncmds);
}

/// A 32-bit segment command at `off` with the given name, addresses and
/// file range; returns the offset after the command.
fn segment32(buf: &mut Vec<u8>, off: usize, name: &[u8], vmaddr: u32, fileoff: u32, filesize: u32) -> usize {
    put_u32(buf, off, 0x1); // segment command
    put_u32(buf, off + 4, 52);
    buf[off + 8..off + 8 + name.len()].copy_from_slice(name);
    put_u32(buf, off + 24, vmaddr);
    put_u32(buf, off + 28, filesize); // vmsize, unread by the walkers
    put_u32(buf, off + 32, fileoff);
    put_u32(buf, off + 36, filesize);
    off + 52
}

#[test]
fn extent_is_max_of_segment_ends() {
    let mut img = vec![0u8; 2048];
    mach_header32(&mut img, 2);
    let p = segment32(&mut img, 28, b"__TEXT", 0, 0, 0x300);
    segment32(&mut img, p, b"__DATA", 0x300, 0x300, 0x84);
    // max(0 + 0x300, 0x300 + 0x84)
    assert_eq!(calc_size(&img), 0x384);
}

#[test]
fn extent_of_single_segment() {
    let mut img = vec![0u8; 1024];
    mach_header32(&mut img, 1);
    segment32(&mut img, 28, b"__TEXT", 0, 0x40, 0x140);
    assert_eq!(calc_size(&img), 0x180);
}

#[test]
fn extent_of_64bit_image() {
    let mut img = vec![0u8; 2048];
    put_u32(&mut img, 0, 0xfeed_facf); // 64-bit magic
    put_u32(&mut img, 16, 1);
    let off = 32; // 64-bit header is four bytes longer
    put_u32(&mut img, off, 0x19); // 64-bit segment command
    put_u32(&mut img, off + 4, 68);
    img[off + 8..off + 8 + 6].copy_from_slice(b"__TEXT");
    put_u64(&mut img, off + 8 + 32, 0x100); // file offset
    put_u64(&mut img, off + 8 + 40, 0x250); // file size
    assert_eq!(calc_size(&img), 0x350);
}

#[test]
fn short_buffer_has_no_extent() {
    // Anything under 1024 bytes is never treated as an image.
    let mut img = vec![0u8; 1023];
    mach_header32(&mut img, 1);
    segment32(&mut img, 28, b"__TEXT", 0, 0, 0x100);
    assert_eq!(calc_size(&img), 0);
}

#[test]
fn wrong_magic_has_no_extent() {
    let mut img = vec![0u8; 1024];
    put_u32(&mut img, 0, 0xcafe_babe);
    put_u32(&mut img, 16, 1);
    segment32(&mut img, 28, b"__TEXT", 0, 0, 0x100);
    assert_eq!(calc_size(&img), 0);
}

#[test]
fn no_segments_means_zero() {
    let mut img = vec![0u8; 1024];
    mach_header32(&mut img, 0);
    assert_eq!(calc_size(&img), 0);
}

#[test]
fn truncated_command_walk_means_zero() {
    let mut img = vec![0u8; 1024];
    mach_header32(&mut img, 3);
    // One real segment, then a command that points past the buffer.
    let p = segment32(&mut img, 28, b"__TEXT", 0, 0, 0x100);
    put_u32(&mut img, p, 0x1);
    put_u32(&mut img, p + 4, 0x10000); // command size leaves the buffer
    assert_eq!(calc_size(&img), 0);
}
