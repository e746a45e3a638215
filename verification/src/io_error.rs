//! The errors of the streams.
use vstd::prelude::*;
use vstd::string::*;

verus! {

/// What went wrong, in the terms of the standard library's I/O errors.
#[derive(Clone, Copy, PartialEq, Eq, Debug, Structural)]
pub enum IoErrorKind {
    AddrInUse,
    AddrNotAvailable,
    AlreadyExists,
    ArgumentListTooLong,
    BrokenPipe,
    ConnectionAborted,
    ConnectionRefused,
    ConnectionReset,
    CrossesDevices,
    Deadlock,
    DirectoryNotEmpty,
    ExecutableFileBusy,
    FileTooLarge,
    HostUnreachable,
    Interrupted,
    InvalidData,
    InvalidFilename,
    InvalidInput,
    IsADirectory,
    NetworkDown,
    NetworkUnreachable,
    NotADirectory,
    NotConnected,
    NotFound,
    NotSeekable,
    OutOfMemory,
    PermissionDenied,
    QuotaExceeded,
    ReadOnlyFilesystem,
    ResourceBusy,
    StaleNetworkFileHandle,
    StorageFull,
    TimedOut,
    TooManyLinks,
    UnexpectedEof,
    Unsupported,
    WouldBlock,
    WriteZero,
    /// Any other kind.
    Other,
}

/// An error of a stream: its kind and a text for people.
#[derive(Debug)]
pub struct IoError {
    pub kind: IoErrorKind,
    pub message: String,
}

impl IoError {
    /// Whether the error is of the given kind and carries the given text.
    pub open spec fn says(self, kind: IoErrorKind, message: Seq<char>) -> bool {
        self.kind == kind && self.message@ == message
    }

    /// An error of the given kind with the given text.
    pub fn new(kind: IoErrorKind, message: &str) -> (error: IoError)
        ensures
            error.says(kind, message@),
    {
        IoError { kind, message: message.to_owned() }
    }
}

impl Clone for IoError {
    fn clone(&self) -> (copy: IoError)
        ensures
            copy.says(self.kind, self.message@),
    {
        IoError { kind: self.kind, message: self.message.clone() }
    }
}

/// The text of the error for a seek to a position that does not exist.
pub open spec fn bad_seek_text() -> Seq<char> {
    "invalid seek to a negative or overflowing position"@
}

/// The error for a seek to a position that does not exist.
pub fn bad_seek_error() -> (error: IoError)
    ensures
        error.says(IoErrorKind::InvalidInput, bad_seek_text()),
{
    IoError::new(IoErrorKind::InvalidInput, "invalid seek to a negative or overflowing position")
}

/// The text of the error for the use of a stream whose contents are gone.
pub open spec fn reuse_after_drop_text() -> Seq<char> {
    "this item was apparently already dropped"@
}

/// The error for the use of a stream whose contents are gone.
pub fn reuse_after_drop_error() -> (error: IoError)
    ensures
        error.says(IoErrorKind::BrokenPipe, reuse_after_drop_text()),
{
    IoError::new(IoErrorKind::BrokenPipe, "this item was apparently already dropped")
}

} // verus!
