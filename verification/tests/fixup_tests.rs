//! The Segment Fixup Engine: metadata offset correction and the
//! writable-data splice, and their composition.

use sepsplit::fixup::{fix_data_segment, fix_linkedit, restore_image};
use sepsplit::SplitError;

fn put_u32(buf: &mut Vec<u8>, off: usize, x: u32) {
    buf[off..off + 4].copy_from_slice(&x.to_le_bytes());
}

fn segment32(buf: &mut Vec<u8>, off: usize, name: &[u8], vmaddr: u32, fileoff: u32, filesize: u32) -> usize {
    put_u32(buf, off, 0x1);
    put_u32(buf, off + 4, 52);
    buf[off + 8..off + 8 + name.len()].copy_from_slice(name);
    put_u32(buf, off + 24, vmaddr);
    put_u32(buf, off + 28, filesize);
    put_u32(buf, off + 32, fileoff);
    put_u32(buf, off + 36, filesize);
    off + 52
}

/// An image with text, metadata and writable-data segments plus a
/// symbol-table command, over patterned filler bytes.
fn fixture() -> Vec<u8> {
    let mut img: Vec<u8> = (0..0x200u32).map(|i| (i % 251) as u8).collect();
    put_u32(&mut img, 0, 0xfeed_face);
    put_u32(&mut img, 16, 4); // ncmds
    let p = segment32(&mut img, 28, b"__TEXT\0\0\0\0\0\0\0\0\0\0", 0x1000, 0, 0x100);
    let p = segment32(&mut img, p, b"__LINKEDIT\0\0\0\0\0\0", 0x2000, 0x50, 0x10);
    // a symbol-table command with stale, nonzero fields
    put_u32(&mut img, p, 0x2);
    put_u32(&mut img, p + 4, 24);
    for k in 0..16 {
        img[p + 8 + k] = 0x77;
    }
    let p2 = p + 24;
    segment32(&mut img, p2, b"__DATA\0\0\0\0\0\0\0\0\0\0", 0x1100, 0x60, 0x8);
    img
}

#[test]
fn linkedit_offset_is_rebased_and_symtab_blanked() {
    let orig = fixture();
    let mut img = orig.clone();
    fix_linkedit(&mut img).unwrap();
    // metadata file offset := vmaddr - min(vmaddr) = 0x2000 - 0x1000
    let linkedit_fileoff_field = 80 + 8 + 24;
    assert_eq!(
        u32::from_le_bytes(img[linkedit_fileoff_field..linkedit_fileoff_field + 4].try_into().unwrap()),
        0x1000
    );
    // the symbol-table body is blanked
    assert_eq!(&img[140..156], &[0u8; 16]);
    // nothing else moved
    for i in 0..orig.len() {
        if (linkedit_fileoff_field..linkedit_fileoff_field + 4).contains(&i) || (140..156).contains(&i) {
            continue;
        }
        assert_eq!(img[i], orig[i], "byte {i} changed");
    }
}

#[test]
fn data_segment_content_lands_at_forced_offset() {
    let orig = fixture();
    let mut img = orig.clone();
    let data = [0xEEu8; 8];
    fix_linkedit(&mut img).unwrap();
    fix_data_segment(&mut img, &data, Some(0x70)).unwrap();
    // the data bytes sit exactly at the forced offset
    assert_eq!(&img[0x70..0x78], &data);
    // and the bytes outside the three edits kept their original values
    let linkedit_fileoff_field = 80 + 8 + 24;
    for i in 0..orig.len() {
        if (linkedit_fileoff_field..linkedit_fileoff_field + 4).contains(&i)
            || (140..156).contains(&i)
            || (0x70..0x78).contains(&i)
        {
            continue;
        }
        assert_eq!(img[i], orig[i], "byte {i} changed");
    }
}

#[test]
fn data_segment_content_lands_at_declared_offset() {
    let mut img = fixture();
    let data = [0xABu8; 8];
    // without a forced target the declared file offset (0x60) is used
    fix_data_segment(&mut img, &data, None).unwrap();
    assert_eq!(&img[0x60..0x68], &data);
}

fn segment64(buf: &mut Vec<u8>, off: usize, name: &[u8], vmaddr: u64, fileoff: u64, filesize: u64) -> usize {
    put_u32(buf, off, 0x19);
    put_u32(buf, off + 4, 68);
    buf[off + 8..off + 8 + name.len()].copy_from_slice(name);
    buf[off + 24..off + 32].copy_from_slice(&vmaddr.to_le_bytes());
    buf[off + 32..off + 40].copy_from_slice(&filesize.to_le_bytes());
    buf[off + 40..off + 48].copy_from_slice(&fileoff.to_le_bytes());
    buf[off + 48..off + 56].copy_from_slice(&filesize.to_le_bytes());
    off + 68
}

#[test]
fn linkedit_offset_is_rebased_in_64bit_images() {
    let mut img: Vec<u8> = (0..0x200u32).map(|i| (i % 241) as u8).collect();
    put_u32(&mut img, 0, 0xfeed_facf); // 64-bit magic
    put_u32(&mut img, 16, 2);
    let p = segment64(&mut img, 32, b"__TEXT\0\0\0\0\0\0\0\0\0\0", 0x4000, 0, 0x100);
    segment64(&mut img, p, b"__LINKEDIT\0\0\0\0\0\0", 0x7000, 0x123, 0x10);
    let orig = img.clone();
    fix_linkedit(&mut img).unwrap();
    // metadata file offset := vmaddr - min(vmaddr), as a 64-bit field
    let field = p + 40;
    assert_eq!(u64::from_le_bytes(img[field..field + 8].try_into().unwrap()), 0x3000);
    for i in 0..orig.len() {
        if (field..field + 8).contains(&i) {
            continue;
        }
        assert_eq!(img[i], orig[i], "byte {i} changed");
    }
}

#[test]
fn fixups_reject_non_images() {
    let mut img = vec![0u8; 64];
    assert_eq!(fix_linkedit(&mut img), Err(SplitError::NotMachO));
    assert_eq!(fix_data_segment(&mut img, &[1, 2], None), Err(SplitError::NotMachO));
    // the buffer is untouched
    assert_eq!(img, vec![0u8; 64]);
}

#[test]
fn fixups_reject_truncated_walks() {
    let mut img = vec![0u8; 40];
    put_u32(&mut img, 0, 0xfeed_face);
    put_u32(&mut img, 16, 2); // two commands, but no room for them
    put_u32(&mut img, 28, 0x1);
    put_u32(&mut img, 32, 52);
    assert_eq!(fix_linkedit(&mut img), Err(SplitError::Truncated));
}

#[test]
fn restore_applies_both_fixups() {
    let orig = fixture();
    let data = [0x5Au8; 8];
    let restored = restore_image(&orig, Some(&data), None).unwrap();
    assert!(restored.linkedit_applied);
    assert!(restored.data_applied);
    assert_eq!(&restored.bytes[0x60..0x68], &data);
    // the input buffer shape is kept
    assert_eq!(restored.bytes.len(), orig.len());
}

#[test]
fn restore_keeps_unrecognized_buffers() {
    let buf = vec![9u8; 100];
    let restored = restore_image(&buf, None, None).unwrap();
    assert!(!restored.linkedit_applied);
    assert_eq!(restored.bytes, buf);
}
