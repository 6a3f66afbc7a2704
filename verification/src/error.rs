//! The failures that a request can end in.

use vstd::prelude::*;

verus! {

/// Why a request is answered with an error.
#[derive(Clone, Copy, Debug, PartialEq, Eq, Structural)]
pub enum ErrorKind {
    /// A query parameter does not decode to its declared type.
    Malformed,
    /// A query parameter is longer than its field allows.
    TooLong,
    /// A static asset could not be read.
    AssetIo,
}

} // verus!
