//! A content-addressable object store for a small version-control repository:
//! a digest function, three object kinds (blob, tree, commit) with canonical
//! byte encodings, durable-table models keyed by digest, and the repository
//! bootstrap/discovery protocol that locates or creates the on-disk layout.

use vstd::prelude::*;

pub mod canon;
pub mod commands;
pub mod config;
pub mod digest;
pub mod object;
pub mod path;
pub mod repo;
pub mod store;

verus! {

/// The failures this library reports; see the per-function contracts for
/// exactly when each arises.
#[derive(Clone, Copy, Debug, PartialEq, Eq, Structural)]
pub enum Error {
    /// The candidate control path exists but is not a directory.
    NotADirectory,
    /// No control directory was found where one was required.
    NotARepository,
    /// The repository configuration file is missing.
    ConfigNotFound,
    /// The stored repository format version differs from the supported one.
    UnsupportedVersion,
    /// Lookup miss in an object table.
    HashNotFound,
    /// Stored data cannot be converted back to the requested representation.
    EncodingError,
    /// An underlying filesystem or storage failure, reported by the caller
    /// that performed the I/O.
    IoError,
    /// The operation is not implemented for the requested object kind.
    Unimplemented,
}

} // verus!
