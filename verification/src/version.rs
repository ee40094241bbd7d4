//! Certificate versions.

use vstd::prelude::*;

verus! {

/// The version of an encoded certificate.
///
/// A raw value outside `0..=2` is kept as it was found.
#[derive(Debug, Clone, Copy, PartialEq, Eq, Structural)]
pub enum X509Version {
    V1,
    V2,
    V3,
    Invalid(u32),
}

impl X509Version {
    /// The version that the raw value `raw` of a certificate's version field stands for.
    pub open spec fn spec_from_raw(raw: u32) -> X509Version {
        if raw == 0 {
            X509Version::V1
        } else if raw == 1 {
            X509Version::V2
        } else if raw == 2 {
            X509Version::V3
        } else {
            X509Version::Invalid(raw)
        }
    }

    /// Interprets the raw value of a version field.
    pub fn from_raw(raw: u32) -> (version: X509Version)
        ensures
            version == Self::spec_from_raw(raw),
    {
        match raw {
            0 => X509Version::V1,
            1 => X509Version::V2,
            2 => X509Version::V3,
            n => X509Version::Invalid(n),
        }
    }
}

} // verus!
