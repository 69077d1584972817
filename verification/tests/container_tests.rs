//! The Container Decoder and the decompression growth policy.

use sepsplit::container::{classify_container, decompress_step, Container, DecompressStep};
use sepsplit::SplitError;

#[test]
fn sealed_containers_are_rejected() {
    let blob = vec![0x30, 0x83, 0, 0, 0, 0, 0, 0, 0, 0];
    assert_eq!(classify_container(&blob), Err(SplitError::SealedContainer));
}

#[test]
fn raw_blobs_pass_through() {
    let blob = vec![7u8; 64];
    assert_eq!(classify_container(&blob), Ok(Container::Raw));
}

#[test]
fn compressed_container_with_first_candidate_offset() {
    let mut blob = vec![0u8; 0x20010];
    blob[8..16].copy_from_slice(b"eGirBwRD");
    blob[0x18..0x1c].copy_from_slice(&0x1234u32.to_le_bytes());
    blob[0x10000] = 1; // the probe is not all-zero: first candidate wins
    assert_eq!(
        classify_container(&blob),
        Ok(Container::Compressed { payload_start: 0x10000, expected_len: 0x1234 })
    );
}

#[test]
fn compressed_container_with_second_candidate_offset() {
    let mut blob = vec![0u8; 0x20010];
    blob[8..16].copy_from_slice(b"eGirBwRD");
    blob[0x18..0x1c].copy_from_slice(&0x99u32.to_le_bytes());
    // all-zero probe at the first candidate: use the second
    assert_eq!(
        classify_container(&blob),
        Ok(Container::Compressed { payload_start: 0x20000, expected_len: 0x99 })
    );
}

#[test]
fn compressed_container_too_short_is_truncated() {
    let mut blob = vec![0u8; 0x100];
    blob[8..16].copy_from_slice(b"eGirBwRD");
    assert_eq!(classify_container(&blob), Err(SplitError::Truncated));
}

#[test]
fn zero_report_is_fatal() {
    assert_eq!(decompress_step(0x100, 0), DecompressStep::Fail);
}

#[test]
fn smaller_report_is_accepted() {
    assert_eq!(decompress_step(0x100, 0xff), DecompressStep::Accept { len: 0xff });
}

#[test]
fn equal_report_grows_the_buffer() {
    // a report equal to the candidate is ambiguous: retry doubled
    assert_eq!(decompress_step(0x100, 0x100), DecompressStep::Grow { next: 0x200 });
}

#[test]
fn doubling_loop_terminates_against_a_lying_header() {
    // A collaborator whose true output is 1000 bytes, against a container
    // that claimed 16: the loop must stop within a bounded number of
    // doublings once the candidate passes the true size.
    let true_size: u64 = 1000;
    let mut destlen: u64 = 16;
    let mut rounds = 0;
    loop {
        assert!(rounds < 64, "the doubling loop failed to terminate");
        let complen = if destlen > true_size { true_size } else { destlen };
        match decompress_step(destlen, complen) {
            DecompressStep::Fail => panic!("mock never fails"),
            DecompressStep::Accept { len } => {
                assert_eq!(len, true_size);
                break;
            }
            DecompressStep::Grow { next } => {
                assert_eq!(next, destlen * 2);
                destlen = next;
            }
        }
        rounds += 1;
    }
    assert_eq!(rounds, 6); // 16 doubles past 1000 in six steps
}
