//! The ways in which decoding can fail.

use vstd::prelude::*;

verus! {

/// Why a buffer could not be decoded.
#[derive(Debug, Clone, Copy, PartialEq, Eq, Structural)]
pub enum Error {
    /// The buffer ends before a field that it declares or that the format requires.
    Length,
    /// A decoded value is outside what its field allows.
    InvalidValue,
}

} // verus!
