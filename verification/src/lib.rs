//! Decoder and offset-reconciliation engine for monolithic Secure Enclave
//! Processor firmware images: locates the version-dependent descriptor
//! structures inside a firmware blob, walks the module table, computes the
//! extent of each embedded loadable image, and rewrites segment offsets so
//! that every extracted module is independently loadable.

use vstd::prelude::*;

pub mod bytes;
pub mod container;
pub mod extent;
pub mod fixup;
pub mod hdr64;
pub mod locate;
pub mod macho;
pub mod name;
pub mod search;
pub mod split;
pub mod split32;
pub mod srcver;
pub mod uuidstr;

verus! {

/// The failures of the extraction pipeline.
///
/// `SealedContainer` and `UnrecognizedFirmware` come from inspecting the
/// outer container; `Truncated` is any structure, range or cursor that does
/// not fit inside the blob it was decoded from; `NotMachO` is the one
/// recoverable failure of the segment fixups; `MissingAppCount` is a legacy
/// table in the newer entry shape without a usable module count;
/// `AnchorNotFound` is a legacy table without the name anchor or the stride
/// sentinel.
#[derive(Clone, Copy, Debug, PartialEq, Eq, Structural)]
pub enum SplitError {
    SealedContainer,
    UnrecognizedFirmware,
    Truncated,
    NotMachO,
    MissingAppCount,
    AnchorNotFound,
}

} // verus!
