//! File-system events: what an instance-scoped file operation did, to which
//! path, and on whose behalf. They are values; publishing them is up to the
//! caller.
use vstd::prelude::*;

verus! {

/// On whose behalf an event happened.
#[derive(Debug, PartialEq, Eq)]
pub enum CausedBy {
    User { user_id: String, user_name: String },
    System,
    Unknown,
}

/// What a file-system operation did.
#[derive(Debug, PartialEq, Eq)]
pub enum FsOperation {
    Read,
    Write,
    Create,
    Delete,
    Move { source: Vec<String> },
    Download,
    Upload,
}

/// The file or directory an operation touched.
#[derive(Debug, PartialEq, Eq)]
pub enum FsTarget {
    File(Vec<String>),
    Directory(Vec<String>),
}

/// One file-system event.
#[derive(Debug, PartialEq, Eq)]
pub struct FsEvent {
    pub operation: FsOperation,
    pub target: FsTarget,
    pub caused_by: CausedBy,
}

impl FsEvent {
    /// The event of a move from `source` to the file `dest`.
    pub fn moved(source: Vec<String>, dest: Vec<String>, caused_by: CausedBy) -> (r: FsEvent)
        ensures
            r == (FsEvent {
                operation: FsOperation::Move { source },
                target: FsTarget::File(dest),
                caused_by,
            }),
    {
        FsEvent { operation: FsOperation::Move { source }, target: FsTarget::File(dest), caused_by }
    }
}

} // verus!
