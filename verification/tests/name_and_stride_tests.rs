//! Display-name extraction and the stride buckets of the packed source
//! version.

use sepsplit::name::extract_name;
use sepsplit::srcver::{stride64, stride64_embedded, SrcVer};

#[test]
fn name_of_space_padded_field() {
    assert_eq!(extract_name(b"SEPOS       "), b"SEPOS".to_vec());
}

#[test]
fn name_extraction_is_idempotent_on_concrete_fields() {
    let fields: [&[u8]; 4] = [b"SEPOS       ", b"sks\0\0\0\0\0", b"  two words ", b"            "];
    for f in fields {
        let once = extract_name(f);
        let twice = extract_name(&once);
        assert_eq!(once, twice);
    }
}

#[test]
fn name_without_whitespace_stops_at_first_nul() {
    assert_eq!(extract_name(b"sks\0abc"), b"sks".to_vec());
    assert_eq!(extract_name(b"noterm"), b"noterm".to_vec());
}

#[test]
fn name_skips_leading_whitespace() {
    assert_eq!(extract_name(b"  two words "), b"two".to_vec());
}

#[test]
fn major_version_is_top_bits() {
    let v = SrcVer { raw: (1700u64 << 40) | (2u64 << 30) | (3u64 << 20) | (4u64 << 10) | 5 };
    assert_eq!(v.get_major(), 1700);
    assert_eq!(v.get_minor(), 2);
    assert_eq!(v.get_patch1(), 3);
    assert_eq!(v.get_patch2(), 4);
    assert_eq!(v.get_patch3(), 5);
}

#[test]
fn stride_buckets_of_the_descriptor_walk() {
    // below 1300: eight bytes fewer
    assert_eq!(stride64(0), 120);
    assert_eq!(stride64(1299), 120);
    // 1300 to 1699: the plain entry size
    assert_eq!(stride64(1300), 128);
    assert_eq!(stride64(1699), 128);
    // 1700 to 1999: four more
    assert_eq!(stride64(1700), 132);
    assert_eq!(stride64(1999), 132);
    // 2000 on: thirty-six more instead
    assert_eq!(stride64(2000), 164);
    assert_eq!(stride64(2500), 164);
}

#[test]
fn stride_buckets_of_the_embedded_walk() {
    assert_eq!(stride64_embedded(0), 128);
    assert_eq!(stride64_embedded(1699), 128);
    assert_eq!(stride64_embedded(1700), 132);
    assert_eq!(stride64_embedded(2099), 132);
    assert_eq!(stride64_embedded(2100), 164);
}
