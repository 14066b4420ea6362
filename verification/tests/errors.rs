//! The errors of the meta-protocol client.

use std::fmt;

use memcache::exp::error::CallbackError;
use memcache::exp::{EncodeError, Error};
use memcache::io::{IoError, IoErrorKind};

#[derive(Debug)]
struct LoadFailed;

impl fmt::Display for LoadFailed {
    fn fmt(&self, f: &mut fmt::Formatter<'_>) -> fmt::Result {
        f.write_str("load failed")
    }
}

impl std::error::Error for LoadFailed {}

#[test]
fn classification() {
    assert!(Error::Io(IoError::from_kind(IoErrorKind::ConnectionReset)).is_retryable());
    assert!(Error::Timeout { key: b"k".to_vec() }.is_retryable());
    let ambiguous = Error::Ambiguous {
        key: b"k".to_vec(),
        source: Box::new(Error::Io(IoError::from_kind(IoErrorKind::TimedOut))),
    };
    assert!(ambiguous.is_ambiguous());
    assert!(!ambiguous.is_retryable());
    assert!(!Error::Conflict.is_retryable());
    assert!(!Error::Usage("x").is_retryable());
}

#[test]
fn callback_downcast() {
    let error = Error::Callback(CallbackError::new(std::io::Error::other(LoadFailed)));
    assert!(error.callback::<LoadFailed>().is_some());
    assert!(error.callback::<std::io::Error>().is_none());
    assert!(Error::Conflict.callback::<LoadFailed>().is_none());
    assert_eq!(error.to_string(), "callback failed: load failed");
    assert!(error.has_source());
}

#[test]
fn timeout_attribution() {
    let timeout = Error::Io(IoError::from_kind(IoErrorKind::TimedOut)).for_key(b"k");
    assert!(matches!(timeout, Error::Timeout { ref key } if key == b"k"));
    let reset = Error::Io(IoError::from_kind(IoErrorKind::ConnectionReset)).for_key(b"k");
    assert!(matches!(reset, Error::Io(_)));
}

#[test]
fn duplicate_keeps_shape() {
    let source = Error::Ambiguous {
        key: b"k".to_vec(),
        source: Box::new(Error::Io(IoError::new(IoErrorKind::BrokenPipe, "pipe"))),
    };
    let copy = source.duplicate();
    assert!(copy.is_ambiguous());
    assert_eq!(copy.to_string(), source.to_string());
    let encode = Error::Encode(EncodeError::new("bad")).duplicate();
    assert!(matches!(encode, Error::Encode(_)));
    assert_eq!(encode.to_string(), "encode failed: bad");
}

#[test]
fn display_renders_text_keys() {
    let error = Error::Timeout { key: b"user:1".to_vec() };
    assert_eq!(error.to_string(), "timed out before sending request for \"user:1\"");
}

#[test]
fn a_key_that_is_no_text_is_shown_as_its_bytes() {
    let error = Error::Timeout { key: vec![0xff, 1] };
    assert_eq!(error.to_string(), "timed out before sending request for [255, 1]");
}

#[test]
fn a_copy_of_a_callback_shares_the_callers_error() {
    let error = Error::Callback(CallbackError::new(std::io::Error::other(LoadFailed)));
    assert!(error.duplicate().callback::<LoadFailed>().is_some());
}

#[test]
fn kinds_are_described_as_std_describes_them() {
    let kinds = [
        (IoErrorKind::NotFound, std::io::ErrorKind::NotFound),
        (IoErrorKind::PermissionDenied, std::io::ErrorKind::PermissionDenied),
        (IoErrorKind::ConnectionRefused, std::io::ErrorKind::ConnectionRefused),
        (IoErrorKind::ConnectionReset, std::io::ErrorKind::ConnectionReset),
        (IoErrorKind::ConnectionAborted, std::io::ErrorKind::ConnectionAborted),
        (IoErrorKind::NotConnected, std::io::ErrorKind::NotConnected),
        (IoErrorKind::AddrInUse, std::io::ErrorKind::AddrInUse),
        (IoErrorKind::AddrNotAvailable, std::io::ErrorKind::AddrNotAvailable),
        (IoErrorKind::BrokenPipe, std::io::ErrorKind::BrokenPipe),
        (IoErrorKind::AlreadyExists, std::io::ErrorKind::AlreadyExists),
        (IoErrorKind::WouldBlock, std::io::ErrorKind::WouldBlock),
        (IoErrorKind::InvalidInput, std::io::ErrorKind::InvalidInput),
        (IoErrorKind::InvalidData, std::io::ErrorKind::InvalidData),
        (IoErrorKind::TimedOut, std::io::ErrorKind::TimedOut),
        (IoErrorKind::WriteZero, std::io::ErrorKind::WriteZero),
        (IoErrorKind::Interrupted, std::io::ErrorKind::Interrupted),
        (IoErrorKind::Unsupported, std::io::ErrorKind::Unsupported),
        (IoErrorKind::UnexpectedEof, std::io::ErrorKind::UnexpectedEof),
        (IoErrorKind::OutOfMemory, std::io::ErrorKind::OutOfMemory),
        (IoErrorKind::HostUnreachable, std::io::ErrorKind::HostUnreachable),
        (IoErrorKind::NetworkUnreachable, std::io::ErrorKind::NetworkUnreachable),
        (IoErrorKind::NetworkDown, std::io::ErrorKind::NetworkDown),
        (IoErrorKind::NotADirectory, std::io::ErrorKind::NotADirectory),
        (IoErrorKind::IsADirectory, std::io::ErrorKind::IsADirectory),
        (IoErrorKind::DirectoryNotEmpty, std::io::ErrorKind::DirectoryNotEmpty),
        (IoErrorKind::ReadOnlyFilesystem, std::io::ErrorKind::ReadOnlyFilesystem),
        (IoErrorKind::StaleNetworkFileHandle, std::io::ErrorKind::StaleNetworkFileHandle),
        (IoErrorKind::StorageFull, std::io::ErrorKind::StorageFull),
        (IoErrorKind::NotSeekable, std::io::ErrorKind::NotSeekable),
        (IoErrorKind::QuotaExceeded, std::io::ErrorKind::QuotaExceeded),
        (IoErrorKind::FileTooLarge, std::io::ErrorKind::FileTooLarge),
        (IoErrorKind::ResourceBusy, std::io::ErrorKind::ResourceBusy),
        (IoErrorKind::ExecutableFileBusy, std::io::ErrorKind::ExecutableFileBusy),
        (IoErrorKind::Deadlock, std::io::ErrorKind::Deadlock),
        (IoErrorKind::CrossesDevices, std::io::ErrorKind::CrossesDevices),
        (IoErrorKind::TooManyLinks, std::io::ErrorKind::TooManyLinks),
        (IoErrorKind::InvalidFilename, std::io::ErrorKind::InvalidFilename),
        (IoErrorKind::ArgumentListTooLong, std::io::ErrorKind::ArgumentListTooLong),
        (IoErrorKind::Other, std::io::ErrorKind::Other),
    ];
    for (kind, std_kind) in kinds {
        assert_eq!(kind.message(), std_kind.to_string());
        assert_eq!(IoError::from_kind(kind).duplicate().kind, kind);
    }
}

/// An error whose text changes each time it is shown.
#[derive(Debug)]
struct Counting(std::sync::atomic::AtomicU32);

impl std::fmt::Display for Counting {
    fn fmt(&self, f: &mut std::fmt::Formatter<'_>) -> std::fmt::Result {
        f.write_str(&self.0.fetch_add(1, std::sync::atomic::Ordering::SeqCst).to_string())
    }
}

impl std::error::Error for Counting {}

#[test]
fn a_callers_error_is_described_each_time_it_is_shown() {
    let counting = Counting(std::sync::atomic::AtomicU32::new(7));
    let error = Error::Callback(CallbackError::new(std::io::Error::other(counting)));
    assert_eq!(error.to_string(), "callback failed: 7");
    assert_eq!(error.duplicate().to_string(), "callback failed: 8");
    let unknown = Error::Ambiguous { key: b"k".to_vec(), source: Box::new(error) };
    assert_eq!(unknown.to_string(), "outcome of request for \"k\" is unknown: callback failed: 9");
    assert_eq!(unknown.to_string_with("x"), "outcome of request for \"k\" is unknown: callback failed: x");
}
