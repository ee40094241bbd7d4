//! Errors.

use vstd::prelude::*;

verus! {

/// What can go wrong in this library.
#[derive(Debug, Clone, Copy, PartialEq, Eq, Structural)]
pub enum X509Error {
    /// A name holds an attribute value that has no byte form, so the name has no text form.
    InvalidX509Name,
}

} // verus!
