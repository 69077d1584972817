//! The packed source-version field and the entry strides it selects.
//!
//! A module entry carries its source version packed into one 64-bit field:
//! a 24-bit major component in the top bits, then four 10-bit components.
//! The major component of the first decoded entry selects the byte stride
//! of the whole module table, by fixed thresholds.

use vstd::prelude::*;

verus! {

/// Unadjusted size of a 64-bit module-table entry.
pub const SEPAPP_64_SIZE: u64 = 128;

/// Stride of a legacy module-table entry, before the derived stride
/// replaces it.
pub const SEPAPP_SIZE: u64 = 32;

/// A packed source version: 24-bit major, then minor and three patch
/// components of 10 bits each, major in the topmost bits.
#[derive(Clone, Copy, Debug, PartialEq, Eq, Structural)]
pub struct SrcVer {
    pub raw: u64,
}

/// The 24-bit major component: the top 24 bits of the packed field.
pub open spec fn spec_major(v: u64) -> u32 {
    (v >> 40) as u32
}

/// The 10-bit minor component.
pub open spec fn spec_minor(v: u64) -> u32 {
    ((v >> 30) & 0x3ff) as u32
}

/// The first 10-bit patch component.
pub open spec fn spec_patch1(v: u64) -> u32 {
    ((v >> 20) & 0x3ff) as u32
}

/// The second 10-bit patch component.
pub open spec fn spec_patch2(v: u64) -> u32 {
    ((v >> 10) & 0x3ff) as u32
}

/// The third 10-bit patch component.
pub open spec fn spec_patch3(v: u64) -> u32 {
    (v & 0x3ff) as u32
}

impl SrcVer {
    /// The major component, which selects the module-table stride.
    pub fn get_major(self) -> (r: u32)
        ensures
            r == spec_major(self.raw),
    {
        proof {
            let v = self.raw;
            assert(v >> 40 < 0x100_0000) by (bit_vector);
        }
        (self.raw >> 40) as u32
    }

    /// The minor component.
    pub fn get_minor(self) -> (r: u32)
        ensures
            r == spec_minor(self.raw),
    {
        proof {
            let v = self.raw;
            assert((v >> 30) & 0x3ff < 0x400) by (bit_vector);
        }
        ((self.raw >> 30) & 0x3ff) as u32
    }

    /// The first patch component.
    pub fn get_patch1(self) -> (r: u32)
        ensures
            r == spec_patch1(self.raw),
    {
        proof {
            let v = self.raw;
            assert((v >> 20) & 0x3ff < 0x400) by (bit_vector);
        }
        ((self.raw >> 20) & 0x3ff) as u32
    }

    /// The second patch component.
    pub fn get_patch2(self) -> (r: u32)
        ensures
            r == spec_patch2(self.raw),
    {
        proof {
            let v = self.raw;
            assert((v >> 10) & 0x3ff < 0x400) by (bit_vector);
        }
        ((self.raw >> 10) & 0x3ff) as u32
    }

    /// The third patch component.
    pub fn get_patch3(self) -> (r: u32)
        ensures
            r == spec_patch3(self.raw),
    {
        proof {
            let v = self.raw;
            assert(v & 0x3ff < 0x400) by (bit_vector);
        }
        (self.raw & 0x3ff) as u32
    }
}

/// The module-table stride of the 64-bit walk, keyed on the source-version
/// major of the first decoded entry: the base entry size, less 8 below
/// major 1300, plus 4 from major 1700, plus 36 instead from major 2000.
pub open spec fn spec_stride64(major: u32) -> u64 {
    (SEPAPP_64_SIZE - (if major < 1300 {
        8int
    } else {
        0int
    }) + (if major >= 2000 {
        36int
    } else if major >= 1700 {
        4int
    } else {
        0int
    })) as u64
}

/// Exec mirror of [`spec_stride64`].
pub fn stride64(major: u32) -> (r: u64)
    ensures
        r == spec_stride64(major),
{
    let base: u64 = if major < 1300 {
        SEPAPP_64_SIZE - 8
    } else {
        SEPAPP_64_SIZE
    };
    if major >= 2000 {
        base + 36
    } else if major >= 1700 {
        base + 4
    } else {
        base
    }
}

/// The stride of 64-bit-shaped entries embedded in a legacy firmware,
/// keyed on the same major: the base entry size, plus 4 from major 1700,
/// plus 36 instead from major 2100.
pub open spec fn spec_stride64_embedded(major: u32) -> u64 {
    (SEPAPP_64_SIZE + (if major >= 2100 {
        36int
    } else if major >= 1700 {
        4int
    } else {
        0int
    })) as u64
}

/// Exec mirror of [`spec_stride64_embedded`].
pub fn stride64_embedded(major: u32) -> (r: u64)
    ensures
        r == spec_stride64_embedded(major),
{
    if major >= 2100 {
        SEPAPP_64_SIZE + 36
    } else if major >= 1700 {
        SEPAPP_64_SIZE + 4
    } else {
        SEPAPP_64_SIZE
    }
}

} // verus!
