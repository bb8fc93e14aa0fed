//! Error taxonomy of the index core.

use vstd::prelude::*;

verus! {

/// The kind of a failure reported by the index core or a storage backend.
#[derive(Clone, Copy, Debug, PartialEq, Eq, Structural)]
pub enum ErrorKind {
    /// A catalog file was absent on open, or a component file was absent on read.
    NotFound,
    /// An underlying I/O failure reported by a storage backend.
    StorageFailure,
    /// A guard protecting shared state could not be acquired because a prior
    /// holder terminated abnormally. The verified guards this library uses
    /// cannot fail to acquire; the kind stands for backends whose guards can.
    GuardFailure,
    /// Catalog content did not parse as the expected structure.
    DecodeFailure,
}

/// A typed failure, carrying the path it concerns so that a caller can
/// diagnose it without inspecting internals.
#[derive(Clone, Debug)]
pub struct IndexError {
    pub kind: ErrorKind,
    /// The storage path the failing operation addressed; empty when the
    /// failure is not tied to one path.
    pub path: String,
}

impl IndexError {
    /// Builds an error of the given kind for the given path.
    pub fn at_path(kind: ErrorKind, path: &String) -> (r: IndexError)
        ensures
            r.kind == kind,
            r.path@ == path@,
    {
        IndexError { kind, path: path.clone() }
    }
}

} // verus!
