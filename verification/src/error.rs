//! The failures that the store reports to its callers.

use vstd::prelude::*;
use crate::text::owned;

verus! {

/// What went wrong, as a closed set of kinds.
#[derive(Debug, Clone, Copy, PartialEq, Eq, Structural)]
pub enum ErrorKind {
    /// The backend could not be reached or answered out of turn.
    ConnectionFailure,
    /// The registry tables could not be set up.
    MigrationFailure,
    /// A project or column that the operation needs does not exist.
    NotFound,
    /// A project, table or column of that name already exists.
    SchemaConflict,
    /// A name has no character that may appear in an identifier.
    EmptyIdentifier,
    /// A field name encodes to the name of the reserved timestamp column.
    ReservedName,
    /// A registry row does not decode.
    CorruptMetadata,
    /// A value cannot be stored under the declared type of its column.
    TypeMismatch,
}

/// A failure, with the name it concerns and what the backend said, if anything.
#[derive(Debug, PartialEq, Eq)]
pub struct Error {
    pub kind: ErrorKind,
    pub identifier: String,
    pub detail: String,
}

impl Error {
    /// A failure of the given kind about the given name, with a note.
    pub fn new(kind: ErrorKind, identifier: &str, detail: &str) -> (e: Error)
        ensures
            e.kind == kind,
            e.identifier@ == identifier@,
            e.detail@ == detail@,
    {
        Error { kind, identifier: owned(identifier), detail: owned(detail) }
    }

    /// This failure is of the given kind and concerns the given name.
    pub open spec fn is(&self, kind: ErrorKind, identifier: Seq<char>) -> bool {
        self.kind == kind && self.identifier@ == identifier
    }
}

/// `r` is a failure of the given kind about the given name.
pub open spec fn fails<T>(r: Result<T, Error>, kind: ErrorKind, identifier: Seq<char>) -> bool {
    r is Err && r->Err_0.is(kind, identifier)
}

impl Clone for Error {
    fn clone(&self) -> (r: Error)
        ensures
            r == *self,
    {
        Error { kind: self.kind, identifier: self.identifier.clone(), detail: self.detail.clone() }
    }
}

} // verus!
