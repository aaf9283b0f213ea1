use vstd::prelude::*;

verus! {

/// The machine-readable kind of every error the library reports.
#[derive(Clone, Copy, Debug, PartialEq, Eq, Structural)]
pub enum ErrorKind {
    MalformedRequest,
    InstanceNotFound,
    InstanceStarted,
    PermissionDenied,
    BadRequest,
    NotFound,
    FailedToRemoveFileOrDir,
    IOFailure,
    Unsupported,
}

/// An error kind together with a human-readable detail.
#[derive(Debug)]
pub struct Error {
    pub kind: ErrorKind,
    pub detail: String,
}

impl Error {
    pub fn new(kind: ErrorKind, detail: &str) -> (r: Error)
        ensures
            r.kind == kind,
            r.detail@ == detail@,
    {
        Error { kind, detail: String::from_str(detail) }
    }

    pub fn from_string(kind: ErrorKind, detail: String) -> (r: Error)
        ensures
            r.kind == kind,
            r.detail == detail,
    {
        Error { kind, detail }
    }
}

} // verus!
