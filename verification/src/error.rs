//! Failure values reported by the library.

use vstd::prelude::*;

verus! {

/// Why a permission string does not follow the symbolic mode grammar.
#[derive(Clone, Copy, Debug, PartialEq, Eq)]
pub enum PermissionFault {
    /// The string does not have exactly nine characters; `length` is the
    /// number of characters it has.
    WrongLength { length: usize },
    /// The character `found` at position `index` is neither `-` nor the
    /// letter that this position admits. It is the first such position.
    UnexpectedSymbol { index: usize, found: char },
}

/// The four kinds of failure a caller can meet.
#[derive(Clone, Copy, Debug, PartialEq, Eq)]
pub enum AfeError {
    /// The container cannot be serialized.
    Encoding,
    /// The bytes are truncated or corrupt, or declare a format version that
    /// this decoder does not know.
    Decoding,
    /// The target could not be opened or written. The library itself does no
    /// I/O; the storage layer around it reports through this variant.
    Io,
    /// A permission string fails the grammar.
    Validation(PermissionFault),
}

} // verus!
