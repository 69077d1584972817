//! Extraction of synthetic legacy (32-bit) firmware blobs.

use sepsplit::split::split_blob;
use sepsplit::SplitError;

fn put_u32(buf: &mut Vec<u8>, off: usize, x: u32) {
    buf[off..off + 4].copy_from_slice(&x.to_le_bytes());
}

fn put_u64(buf: &mut Vec<u8>, off: usize, x: u64) {
    buf[off..off + 8].copy_from_slice(&x.to_le_bytes());
}

fn put(buf: &mut Vec<u8>, off: usize, bytes: &[u8]) {
    buf[off..off + bytes.len()].copy_from_slice(bytes);
}

/// One legacy module-table entry: physical offset, virtual address, size,
/// entry point, 12-byte name, 16-byte UUID — 48 bytes, so the sentinel
/// token of the second entry's name lies 48 bytes past the anchor.
fn old_entry(buf: &mut Vec<u8>, off: usize, phys: u64, virt: u32, size: u32, entry: u32, name: &[u8]) {
    put_u64(buf, off, phys);
    put_u32(buf, off + 8, virt);
    put_u32(buf, off + 12, size);
    put_u32(buf, off + 16, entry);
    put(buf, off + 20, name);
    for k in 0..16 {
        buf[off + 32 + k] = (k as u8) + 1;
    }
}

/// A legacy firmware: locator at 0x400, monitor boot arguments at 0x500,
/// kernel boot arguments at 0x600, module table right after them with two
/// modules and a zero-physical terminator.
fn synthetic32() -> Vec<u8> {
    let mut b = vec![0u8; 0x10000];

    // legacy locator
    put_u32(&mut b, 0x400, 1); // revision tag 1: the 32-bit path
    put_u32(&mut b, 0x404, 0x500); // monitor boot arguments
    put(&mut b, 0x408, b"Built by legion2");

    // monitor boot arguments: the kernel boot arguments offset
    put_u32(&mut b, 0x510, 0x600);

    // kernel boot arguments: counts (unused by the old-shape table)
    put_u32(&mut b, 0x600 + 72, 2);
    put_u32(&mut b, 0x600 + 76, 0);

    // something nonzero at the usual kernel offset: the fixed fallback
    // region [0x1000, 0xf000) is taken
    b[0x1000] = 0xFF;

    // module table at 0x600 + 312 = 0x738
    let t = 0x738;
    old_entry(&mut b, t, 0x2000, 0xD000, 0x1100, 0x40, b"SEPOS       ");
    old_entry(&mut b, t + 48, 0x3800, 0xE000, 0x100, 0x44, b"SEPDriver   ");
    // the terminator: physical field 0
    old_entry(&mut b, t + 96, 0, 0, 0x10, 0, b"unused      ");
    b
}

#[test]
fn legacy_table_stops_at_zero_physical_entry() {
    let blob = synthetic32();
    let files = split_blob(&blob).unwrap();
    // boot, kernel, the structure dump, and exactly the two modules
    // before the zero-physical terminator
    assert_eq!(files.len(), 5);

    assert_eq!(files[0].tail, b"boot".to_vec());
    assert_eq!(files[0].bytes, blob[..0x1000].to_vec());

    assert_eq!(files[1].tail, b"kernel".to_vec());
    assert_eq!(files[1].bytes, blob[0x1000..0xf000].to_vec());

    // the first module donates its first page as a structure dump
    assert!(files[2].extra);
    assert_eq!(files[2].tail, b"extra_struct".to_vec());
    assert_eq!(files[2].bytes, blob[0x2000..0x3000].to_vec());

    assert_eq!(files[3].index, 2);
    assert_eq!(files[3].tail, b"SEPOS".to_vec());
    assert_eq!(files[3].bytes, blob[0x3000..0x3100].to_vec());
    let i3 = files[3].info.as_ref().unwrap();
    assert_eq!(i3.phys_text, 0x3000);
    assert_eq!(i3.size_text, 0x100);
    assert_eq!(i3.virt, 0xD000);
    assert_eq!(i3.ventry, 0x40);
    assert_eq!(i3.uuid_str, "04030201-0605-0807-090a-0b0c0d0e0f10");

    assert_eq!(files[4].index, 3);
    assert_eq!(files[4].tail, b"SEPDriver".to_vec());
    assert_eq!(files[4].bytes, blob[0x3800..0x3900].to_vec());
}

#[test]
fn legacy_table_without_name_anchor_is_reported() {
    let mut blob = synthetic32();
    // wreck the anchor token of the first entry
    blob[0x738 + 20] = b'X';
    assert!(matches!(split_blob(&blob), Err(SplitError::AnchorNotFound)));
}

#[test]
fn legacy_module_past_the_blob_is_truncated() {
    let mut blob = synthetic32();
    // the second module's range leaves the blob
    put_u32(&mut blob, 0x738 + 48 + 12, 0x5000_0000);
    assert!(matches!(split_blob(&blob), Err(SplitError::Truncated)));
}

#[test]
fn new_shape_table_without_counts_is_reported() {
    let mut blob = synthetic32();
    // the probe sees a zero size field: the table is new-shape, and the
    // boot arguments carry no usable module count
    put_u32(&mut blob, 0x738 + 12, 0);
    put_u32(&mut blob, 0x600 + 72, 0x1234); // not a credible count
    assert!(matches!(split_blob(&blob), Err(SplitError::MissingAppCount)));
}

#[test]
fn new_shape_table_is_walked_with_64bit_entries() {
    let mut b = vec![0u8; 0x10000];
    put_u32(&mut b, 0x400, 1);
    put_u32(&mut b, 0x404, 0x500);
    put(&mut b, 0x408, b"Built by legion2");
    put_u32(&mut b, 0x510, 0x600);
    put_u32(&mut b, 0x600 + 72, 3); // three counted modules, no libraries
    put_u32(&mut b, 0x600 + 76, 0);
    b[0x1000] = 0xFF; // kernel fallback region

    // first entry at 0x738, 64-bit shape, revision tag 0 (no libraries):
    // name sits at entry + 88 when the stack size is nonzero
    let e = 0x738;
    put_u64(&mut b, e, 0x2000); // text
    put_u64(&mut b, e + 8, 0x1100); // text size (the first page is split off)
    put_u64(&mut b, e + 16, 0x4000); // data
    put_u64(&mut b, e + 24, 0x10); // data size
    put_u64(&mut b, e + 32, 0xD000);
    put_u64(&mut b, e + 40, 0x40);
    put_u64(&mut b, e + 48, 1); // stack size nonzero
    put(&mut b, e + 88, b"skg             ");
    for k in 0..16 {
        b[e + 104 + k] = (k as u8) + 1;
    }
    put_u64(&mut b, e + 120, 1500u64 << 40); // major 1500: stride 128
    for i in 0..0x10 {
        b[0x4000 + i] = 0xB0 + i as u8;
    }

    let files = split_blob(&b).unwrap();
    // boot, kernel, the structure dump, and one module (three counted,
    // less the two the boot arguments already cover)
    assert_eq!(files.len(), 4);
    assert!(files[2].extra);
    assert_eq!(files[2].tail, b"struct.extra".to_vec());
    assert_eq!(files[2].bytes, b[0x2000..0x3000].to_vec());
    assert_eq!(files[3].index, 2);
    assert_eq!(files[3].tail, b"skg".to_vec());
    // the module range is shifted past the donated page, data appended
    assert_eq!(files[3].bytes.len(), 0x110);
    assert_eq!(&files[3].bytes[..0x100], &b[0x3000..0x3100]);
    let info = files[3].info.as_ref().unwrap();
    assert_eq!(info.phys_text, 0x3000);
    assert_eq!(info.size_text, 0x100);
    assert_eq!(info.phys_data, 0x4000);
}
