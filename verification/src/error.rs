//! The errors that the engine reports.

use vstd::prelude::*;

verus! {

/// The kinds of failure of a single file operation or record.
#[derive(Clone, Copy, Debug, PartialEq, Eq, Structural)]
pub enum FailureKind {
    /// A file or directory could not be written.
    Write,
    /// A file or directory could not be read.
    Read,
    /// A file could not be removed, or was not there.
    Delete,
    /// A record does not have the shape of a note.
    Malformed,
    /// The live notes could not be cleared before a rebuild.
    Sync,
    /// A note could not be written into a snapshot.
    Backup,
}

/// One input of an import that failed, and why.
#[derive(Debug, PartialEq, Eq)]
pub struct ImportFailure {
    /// The path of the input, as the caller named it.
    pub path: String,
    pub error: NoteError,
}

/// An error of the engine. Each variant but the last carries the message of
/// the operation that failed.
#[derive(Debug, PartialEq, Eq)]
pub enum NoteError {
    WriteFailure(String),
    ReadFailure(String),
    DeleteFailure(String),
    MalformedRecord(String),
    SyncFailure(String),
    BackupFailure(String),
    /// One entry for each input that failed, in the order of the inputs.
    ImportBatchFailure(Vec<ImportFailure>),
}

impl NoteError {
    /// Whether this is the failure of one operation, of kind `kind` and with message `message`.
    pub open spec fn is_failure(&self, kind: FailureKind, message: Seq<char>) -> bool {
        match (self, kind) {
            (NoteError::WriteFailure(m), FailureKind::Write) => m@ == message,
            (NoteError::ReadFailure(m), FailureKind::Read) => m@ == message,
            (NoteError::DeleteFailure(m), FailureKind::Delete) => m@ == message,
            (NoteError::MalformedRecord(m), FailureKind::Malformed) => m@ == message,
            (NoteError::SyncFailure(m), FailureKind::Sync) => m@ == message,
            (NoteError::BackupFailure(m), FailureKind::Backup) => m@ == message,
            _ => false,
        }
    }

    /// The error for one failed operation.
    pub fn new(kind: FailureKind, message: String) -> (error: NoteError)
        ensures
            error.is_failure(kind, message@),
    {
        match kind {
            FailureKind::Write => NoteError::WriteFailure(message),
            FailureKind::Read => NoteError::ReadFailure(message),
            FailureKind::Delete => NoteError::DeleteFailure(message),
            FailureKind::Malformed => NoteError::MalformedRecord(message),
            FailureKind::Sync => NoteError::SyncFailure(message),
            FailureKind::Backup => NoteError::BackupFailure(message),
        }
    }
}

} // verus!
