//! End-to-end extraction of a synthetic 64-bit firmware blob.

use sepsplit::hdr64::decode_hdr64;
use sepsplit::split::split_blob;
use sepsplit::SplitError;

fn put_u16(buf: &mut Vec<u8>, off: usize, x: u16) {
    buf[off..off + 2].copy_from_slice(&x.to_le_bytes());
}

fn put_u32(buf: &mut Vec<u8>, off: usize, x: u32) {
    buf[off..off + 4].copy_from_slice(&x.to_le_bytes());
}

fn put_u64(buf: &mut Vec<u8>, off: usize, x: u64) {
    buf[off..off + 8].copy_from_slice(&x.to_le_bytes());
}

fn put(buf: &mut Vec<u8>, off: usize, bytes: &[u8]) {
    buf[off..off + bytes.len()].copy_from_slice(bytes);
}

fn segment32(buf: &mut Vec<u8>, off: usize, name: &[u8], vmaddr: u32, fileoff: u32, filesize: u32) -> usize {
    put_u32(buf, off, 0x1);
    put_u32(buf, off + 4, 52);
    put(buf, off + 8, name);
    put_u32(buf, off + 24, vmaddr);
    put_u32(buf, off + 28, filesize);
    put_u32(buf, off + 32, fileoff);
    put_u32(buf, off + 36, filesize);
    off + 52
}

/// A minimal 64-bit firmware: locator at the older fixed offset,
/// descriptor at 0x100 with kernel range [0x1000, 0x2000), a root server
/// at 0x2000 whose embedded image ends at 0x2200, and one application
/// with text [0x3000, 0x3100) and data [0x4000, 0x4010).
fn synthetic64() -> Vec<u8> {
    let mut b = vec![0u8; 0x4010];

    // locator (older 64-bit shape) at 0x1000
    put_u32(&mut b, 0x1000, 3); // revision tag
    put(&mut b, 0x1004, b"Built by legion2");
    put_u16(&mut b, 0x1014, 0x100); // descriptor offset

    // descriptor at 0x100
    let d = 0x100;
    put(&mut b, d, &[1, 2, 3, 4, 5, 6, 7, 8, 9, 10, 11, 12, 13, 14, 15, 16]); // kernel uuid
    put_u64(&mut b, d + 24, 0x1000); // kernel base
    put_u64(&mut b, d + 32, 0x2000); // kernel max
    put_u64(&mut b, d + 80, 0); // anti-replay minimum size: absent fields
    let init = d + 88;
    put_u64(&mut b, init, 0x2000); // root server base
    put_u64(&mut b, init + 48, 0x10); // stack size: stack fields present
    let name = init + 56 + 24;
    put(&mut b, name, b"SEPOS           ");
    put(&mut b, name + 16, &[16, 15, 14, 13, 12, 11, 10, 9, 8, 7, 6, 5, 4, 3, 2, 1]); // root uuid
    put_u64(&mut b, name + 32, 1500u64 << 40); // source version major 1500
    // counts right after crc, coredump flag and plain padding
    put_u32(&mut b, name + 48, 1); // one application
    put_u32(&mut b, name + 52, 0); // no shared libraries

    // module table at d + 224, stride 128 for major 1500
    let e = d + 224;
    put_u64(&mut b, e, 0x3000); // text offset
    put_u64(&mut b, e + 8, 0x100); // text size
    put_u64(&mut b, e + 16, 0x4000); // data offset
    put_u64(&mut b, e + 24, 0x10); // data size
    put_u64(&mut b, e + 32, 0xD000); // virtual address
    put_u64(&mut b, e + 40, 0x40); // entry point
    put_u64(&mut b, e + 48, 1); // stack size: heap field present
    let ename = e + 80 + 8;
    put(&mut b, ename, b"testapp         ");
    put(&mut b, ename + 16, &[1, 2, 3, 4, 5, 6, 7, 8, 9, 10, 11, 12, 13, 14, 15, 16]);
    put_u64(&mut b, ename + 32, 1500u64 << 40);

    // root server image at 0x2000: one segment ending at 0x200
    put_u32(&mut b, 0x2000, 0xfeed_face);
    put_u32(&mut b, 0x2010, 1);
    segment32(&mut b, 0x201c, b"__TEXT\0\0\0\0\0\0\0\0\0\0", 0, 0, 0x200);

    // application image at 0x3000: text and writable-data segments
    put_u32(&mut b, 0x3000, 0xfeed_face);
    put_u32(&mut b, 0x3010, 2);
    let p = segment32(&mut b, 0x301c, b"__TEXT\0\0\0\0\0\0\0\0\0\0", 0, 0, 0x100);
    segment32(&mut b, p, b"__DATA\0\0\0\0\0\0\0\0\0\0", 0x100, 0x100, 0x10);

    // the application's separately-stored writable data
    for i in 0..0x10 {
        b[0x4000 + i] = 0xA0 + i as u8;
    }
    b
}

#[test]
fn end_to_end_synthetic64() {
    let blob = synthetic64();
    let files = split_blob(&blob).unwrap();
    assert_eq!(files.len(), 4);

    // boot: everything before the kernel
    assert_eq!(files[0].index, 0);
    assert!(!files[0].extra);
    assert_eq!(files[0].tail, b"boot".to_vec());
    assert_eq!(files[0].bytes, blob[..0x1000].to_vec());

    // kernel: no image is recognized at 0x1000, so the raw descriptor-bounded
    // range is taken
    assert_eq!(files[1].index, 1);
    assert_eq!(files[1].tail, b"kernel".to_vec());
    assert_eq!(files[1].bytes, blob[0x1000..0x2000].to_vec());
    let kinfo = files[1].info.as_ref().unwrap();
    assert_eq!(kinfo.size_text, 0x1000);
    assert_eq!(kinfo.uuid_str, "04030201-0605-0807-090a-0b0c0d0e0f10");

    // root server: the embedded image, 0x200 bytes
    assert_eq!(files[2].index, 2);
    assert_eq!(files[2].tail, b"SEPOS".to_vec());
    assert_eq!(files[2].bytes, blob[0x2000..0x2200].to_vec());

    // the application: text and data, with the data spliced at the offset
    // its writable-data segment declares
    assert_eq!(files[3].index, 3);
    assert_eq!(files[3].tail, b"testapp".to_vec());
    assert_eq!(files[3].bytes.len(), 0x110);
    assert_eq!(&files[3].bytes[..0x100], &blob[0x3000..0x3100]);
    assert_eq!(&files[3].bytes[0x100..0x110], &blob[0x4000..0x4010]);
    let ainfo = files[3].info.as_ref().unwrap();
    assert_eq!(ainfo.phys_text, 0x3000);
    assert_eq!(ainfo.size_text, 0x100);
    assert_eq!(ainfo.phys_data, 0x4000);
    assert_eq!(ainfo.size_data, 0x10);
    assert_eq!(ainfo.virt, 0xD000);
    assert_eq!(ainfo.ventry, 0x40);
    assert_eq!(ainfo.uuid_str, "04030201-0605-0807-090a-0b0c0d0e0f10");
}

#[test]
fn shared_library_data_is_forced_to_its_text_size() {
    let mut blob = synthetic64();
    // one shared library after the application
    let d = 0x100;
    let name = d + 88 + 56 + 24;
    put_u32(&mut blob, name + 52, 1);
    // its entry, one stride (128) past the first
    let e = d + 224 + 128;
    put_u64(&mut blob, e, 0x3800); // text offset
    put_u64(&mut blob, e + 8, 0x100); // text size: the forced data target
    put_u64(&mut blob, e + 16, 0x4000);
    put_u64(&mut blob, e + 24, 0x10);
    put_u64(&mut blob, e + 48, 1);
    let ename = e + 88;
    put(&mut blob, ename, b"shlib           ");
    // its image declares its writable data at 0x90, but a shared library
    // is packed text-then-data, so the splice is forced to 0x100
    put_u32(&mut blob, 0x3800, 0xfeed_face);
    put_u32(&mut blob, 0x3810, 2);
    let p = segment32(&mut blob, 0x381c, b"__TEXT\0\0\0\0\0\0\0\0\0\0", 0, 0, 0x100);
    segment32(&mut blob, p, b"__DATA\0\0\0\0\0\0\0\0\0\0", 0x100, 0x90, 0x10);

    let files = split_blob(&blob).unwrap();
    assert_eq!(files.len(), 5);
    assert_eq!(files[4].index, 4);
    assert_eq!(files[4].tail, b"shlib".to_vec());
    assert_eq!(&files[4].bytes[0x100..0x110], &blob[0x4000..0x4010]);
    // the declared offset was not used
    assert_eq!(&files[4].bytes[0x90..0xa0], &blob[0x3890..0x38a0]);
}

#[test]
fn zero_count_field_selects_the_hidden_count_region() {
    let mut blob = synthetic64();
    let d = 0x100;
    let name = d + 88 + 56 + 24;
    // the descriptor's own count fields are zero
    put_u32(&mut blob, name + 48, 0);
    put_u32(&mut blob, name + 52, 0);
    // the counts sit in the hidden region instead
    put_u32(&mut blob, d + 0x210, 1);
    put_u32(&mut blob, d + 0x214, 0);
    // and the table starts a page-quarter later: entry at d + 224 + 0x100
    let e = d + 224 + 0x100;
    put_u64(&mut blob, e, 0x3000);
    put_u64(&mut blob, e + 8, 0x100);
    put_u64(&mut blob, e + 16, 0x4000);
    put_u64(&mut blob, e + 24, 0x10);
    put_u64(&mut blob, e + 32, 0xE000);
    put_u64(&mut blob, e + 40, 0x44);
    // the stack-size word of this entry overlaps the hidden counts and is
    // nonzero through them, so the heap field is present
    let ename = e + 88;
    put(&mut blob, ename, b"sks             ");
    put_u64(&mut blob, ename + 32, 1500u64 << 40);

    let files = split_blob(&blob).unwrap();
    assert_eq!(files.len(), 4);
    assert_eq!(files[3].index, 3);
    assert_eq!(files[3].tail, b"sks".to_vec());
    assert_eq!(files[3].bytes.len(), 0x110);
    assert_eq!(&files[3].bytes[0x100..0x110], &blob[0x4000..0x4010]);
}

#[test]
fn revision4_descriptor_fields_sit_at_their_shifted_offsets() {
    let mut b = vec![0u8; 0x200];
    put_u64(&mut b, 24, 0x111); // kernel base
    put_u64(&mut b, 32, 0x222); // kernel max
    put_u64(&mut b, 80, 7); // anti-replay minimum size
    // revision 4 always carries the shared-memory fields: the root-server
    // block starts at 112
    put_u64(&mut b, 112, 0x999); // root server base
    put_u64(&mut b, 112 + 48, 0x5); // stack size
    // and always carries the stack-memory and compact-version fields:
    // the name field lands at 224
    put(&mut b, 224, b"vtest           ");
    put_u64(&mut b, 256, 2100u64 << 40);
    put_u32(&mut b, 272, 9); // modules
    put_u32(&mut b, 276, 4); // shared libraries
    let h = decode_hdr64(&b, 0, 4).unwrap();
    assert_eq!(h.kernel_base_paddr, 0x111);
    assert_eq!(h.kernel_max_paddr, 0x222);
    assert_eq!(h.ar_min_size, 7);
    assert_eq!(h.init_base_paddr, 0x999);
    assert_eq!(h.stack_size, 5);
    assert_eq!(&h.init_name[..5], b"vtest");
    assert_eq!(h.srcver.get_major(), 2100);
    assert_eq!(h.n_apps, 9);
    assert_eq!(h.n_shlibs, 4);
}

#[test]
fn unknown_blobs_are_unrecognized() {
    let blob = vec![0u8; 0x2000];
    assert!(matches!(split_blob(&blob), Err(SplitError::UnrecognizedFirmware)));
}

#[test]
fn marker_without_room_for_the_locator_is_truncated() {
    let mut blob = vec![0u8; 0x1014];
    blob[0x1004..0x1014].copy_from_slice(b"Built by legion2");
    assert!(matches!(split_blob(&blob), Err(SplitError::Truncated)));
}

#[test]
fn descriptor_past_the_blob_is_truncated() {
    let mut blob = synthetic64();
    // point the locator at a descriptor the blob cannot hold
    put_u16(&mut blob, 0x1014, 0x4000);
    assert!(matches!(split_blob(&blob), Err(SplitError::Truncated)));
}

#[test]
fn newer_locator_is_found_at_its_own_offset() {
    // the same firmware, moved under the newer locator shape
    let mut blob = synthetic64();
    blob[0x1004..0x1014].copy_from_slice(&[0u8; 16]);
    put_u32(&mut blob, 0x1038, 3);
    blob[0x103c..0x104c].copy_from_slice(b"Built by legion2");
    put_u16(&mut blob, 0x104c, 0x100);
    let files = split_blob(&blob).unwrap();
    assert_eq!(files.len(), 4);
    assert_eq!(files[3].tail, b"testapp".to_vec());
}
