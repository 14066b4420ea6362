//! Transport failures as plain values: what kind of failure it was and the
//! message that describes it.

use vstd::prelude::*;
use vstd::string::*;

verus! {

/// The kind of a transport failure.
#[derive(Debug, Clone, Copy, PartialEq, Eq, Structural)]
pub enum IoErrorKind {
    NotFound,
    PermissionDenied,
    ConnectionRefused,
    ConnectionReset,
    ConnectionAborted,
    NotConnected,
    AddrInUse,
    AddrNotAvailable,
    BrokenPipe,
    AlreadyExists,
    WouldBlock,
    InvalidInput,
    InvalidData,
    TimedOut,
    WriteZero,
    Interrupted,
    Unsupported,
    UnexpectedEof,
    OutOfMemory,
    HostUnreachable,
    NetworkUnreachable,
    NetworkDown,
    NotADirectory,
    IsADirectory,
    DirectoryNotEmpty,
    ReadOnlyFilesystem,
    StaleNetworkFileHandle,
    StorageFull,
    NotSeekable,
    QuotaExceeded,
    FileTooLarge,
    ResourceBusy,
    ExecutableFileBusy,
    Deadlock,
    CrossesDevices,
    TooManyLinks,
    InvalidFilename,
    ArgumentListTooLong,
    Other,
}

impl IoErrorKind {
    pub open spec fn text(self) -> Seq<char> {
        match self {
            IoErrorKind::NotFound => "entity not found"@,
            IoErrorKind::PermissionDenied => "permission denied"@,
            IoErrorKind::ConnectionRefused => "connection refused"@,
            IoErrorKind::ConnectionReset => "connection reset"@,
            IoErrorKind::ConnectionAborted => "connection aborted"@,
            IoErrorKind::NotConnected => "not connected"@,
            IoErrorKind::AddrInUse => "address in use"@,
            IoErrorKind::AddrNotAvailable => "address not available"@,
            IoErrorKind::BrokenPipe => "broken pipe"@,
            IoErrorKind::AlreadyExists => "entity already exists"@,
            IoErrorKind::WouldBlock => "operation would block"@,
            IoErrorKind::InvalidInput => "invalid input parameter"@,
            IoErrorKind::InvalidData => "invalid data"@,
            IoErrorKind::TimedOut => "timed out"@,
            IoErrorKind::WriteZero => "write zero"@,
            IoErrorKind::Interrupted => "operation interrupted"@,
            IoErrorKind::Unsupported => "unsupported"@,
            IoErrorKind::UnexpectedEof => "unexpected end of file"@,
            IoErrorKind::OutOfMemory => "out of memory"@,
            IoErrorKind::HostUnreachable => "host unreachable"@,
            IoErrorKind::NetworkUnreachable => "network unreachable"@,
            IoErrorKind::NetworkDown => "network down"@,
            IoErrorKind::NotADirectory => "not a directory"@,
            IoErrorKind::IsADirectory => "is a directory"@,
            IoErrorKind::DirectoryNotEmpty => "directory not empty"@,
            IoErrorKind::ReadOnlyFilesystem => "read-only filesystem or storage medium"@,
            IoErrorKind::StaleNetworkFileHandle => "stale network file handle"@,
            IoErrorKind::StorageFull => "no storage space"@,
            IoErrorKind::NotSeekable => "seek on unseekable file"@,
            IoErrorKind::QuotaExceeded => "quota exceeded"@,
            IoErrorKind::FileTooLarge => "file too large"@,
            IoErrorKind::ResourceBusy => "resource busy"@,
            IoErrorKind::ExecutableFileBusy => "executable file busy"@,
            IoErrorKind::Deadlock => "deadlock"@,
            IoErrorKind::CrossesDevices => "cross-device link or rename"@,
            IoErrorKind::TooManyLinks => "too many links"@,
            IoErrorKind::InvalidFilename => "invalid filename"@,
            IoErrorKind::ArgumentListTooLong => "argument list too long"@,
            IoErrorKind::Other => "other error"@,
        }
    }

    /// The message of a failure of which only the kind is known.
    pub fn message(self) -> (r: &'static str)
        ensures
            r@ == self.text(),
    {
        match self {
            IoErrorKind::NotFound => "entity not found",
            IoErrorKind::PermissionDenied => "permission denied",
            IoErrorKind::ConnectionRefused => "connection refused",
            IoErrorKind::ConnectionReset => "connection reset",
            IoErrorKind::ConnectionAborted => "connection aborted",
            IoErrorKind::NotConnected => "not connected",
            IoErrorKind::AddrInUse => "address in use",
            IoErrorKind::AddrNotAvailable => "address not available",
            IoErrorKind::BrokenPipe => "broken pipe",
            IoErrorKind::AlreadyExists => "entity already exists",
            IoErrorKind::WouldBlock => "operation would block",
            IoErrorKind::InvalidInput => "invalid input parameter",
            IoErrorKind::InvalidData => "invalid data",
            IoErrorKind::TimedOut => "timed out",
            IoErrorKind::WriteZero => "write zero",
            IoErrorKind::Interrupted => "operation interrupted",
            IoErrorKind::Unsupported => "unsupported",
            IoErrorKind::UnexpectedEof => "unexpected end of file",
            IoErrorKind::OutOfMemory => "out of memory",
            IoErrorKind::HostUnreachable => "host unreachable",
            IoErrorKind::NetworkUnreachable => "network unreachable",
            IoErrorKind::NetworkDown => "network down",
            IoErrorKind::NotADirectory => "not a directory",
            IoErrorKind::IsADirectory => "is a directory",
            IoErrorKind::DirectoryNotEmpty => "directory not empty",
            IoErrorKind::ReadOnlyFilesystem => "read-only filesystem or storage medium",
            IoErrorKind::StaleNetworkFileHandle => "stale network file handle",
            IoErrorKind::StorageFull => "no storage space",
            IoErrorKind::NotSeekable => "seek on unseekable file",
            IoErrorKind::QuotaExceeded => "quota exceeded",
            IoErrorKind::FileTooLarge => "file too large",
            IoErrorKind::ResourceBusy => "resource busy",
            IoErrorKind::ExecutableFileBusy => "executable file busy",
            IoErrorKind::Deadlock => "deadlock",
            IoErrorKind::CrossesDevices => "cross-device link or rename",
            IoErrorKind::TooManyLinks => "too many links",
            IoErrorKind::InvalidFilename => "invalid filename",
            IoErrorKind::ArgumentListTooLong => "argument list too long",
            IoErrorKind::Other => "other error",
        }
    }
}

/// A transport failure.
#[derive(Debug)]
pub struct IoError {
    pub kind: IoErrorKind,
    pub message: String,
}

/// What an [`IoError`] holds.
pub struct IoErrorView {
    pub kind: IoErrorKind,
    pub message: Seq<char>,
}

impl View for IoError {
    type V = IoErrorView;

    open spec fn view(&self) -> IoErrorView {
        IoErrorView { kind: self.kind, message: self.message@ }
    }
}

/// The failure of which only the kind is known.
pub open spec fn of_kind(kind: IoErrorKind) -> IoErrorView {
    IoErrorView { kind, message: kind.text() }
}

impl IoError {
    pub fn new(kind: IoErrorKind, message: &str) -> (r: IoError)
        ensures
            r@ == (IoErrorView { kind, message: message@ }),
    {
        IoError { kind, message: message.to_string() }
    }

    /// A failure of which only the kind is known.
    pub fn from_kind(kind: IoErrorKind) -> (r: IoError)
        ensures
            r@ == of_kind(kind),
    {
        IoError { kind, message: kind.message().to_string() }
    }

    /// A failure with the same kind and message.
    pub fn duplicate(&self) -> (r: IoError)
        ensures
            r@ == self@,
    {
        IoError { kind: self.kind, message: self.message.clone() }
    }
}

} // verus!
