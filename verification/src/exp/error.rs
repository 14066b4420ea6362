//! The error type of the meta-protocol client.
//!
//! Semantic outcomes (a miss, a CAS mismatch, a lease state) are never
//! errors; the protocol layer reports them in its result types and the
//! scenario verbs consume them. What remains is split by what the caller can
//! do about it: transport failures where the request was definitely not
//! applied ([`Io`](Error::Io), [`Timeout`](Error::Timeout)) are retryable; a
//! request that was written but whose outcome is unknown is
//! [`Ambiguous`](Error::Ambiguous) and must not be retried blindly; usage
//! errors ([`Usage`](Error::Usage), [`EmptyValue`](Error::EmptyValue),
//! [`Encode`](Error::Encode), [`Decode`](Error::Decode)) are caller bugs; and
//! [`Callback`](Error::Callback) carries the caller's own error out of a
//! loader or update function.

use std::sync::Arc;

use vstd::prelude::*;
use vstd::string::*;

use super::value::{DecodeError, EncodeError};
use crate::bytes;
use crate::io;
use crate::io::{IoError, IoErrorKind, IoErrorView};
use crate::text;

verus! {

/// `std::io::Error`, which carries a caller's own error.
#[verifier::external_type_specification]
#[verifier::external_body]
pub struct ExStdIoError(std::io::Error);

/// The caller's own error. Shared by all waiters of a call, hence the `Arc`.
#[derive(Debug)]
pub struct CallbackError {
    pub source: Arc<std::io::Error>,
}

/// What can go wrong. See the [module docs](self).
#[derive(Debug)]
#[non_exhaustive]
pub enum Error {
    /// Transport failure before the request was fully written: it was
    /// definitely not applied.
    Io(IoError),
    /// The exchange deadline passed before the request was written.
    Timeout { key: Vec<u8> },
    /// The request was written but the outcome could not be observed.
    /// Retrying may duplicate the effect.
    Ambiguous { key: Vec<u8>, source: Box<Error> },
    /// A malformed or unexpected response.
    Protocol(String),
    /// A `SERVER_ERROR` response.
    Server(String),
    /// A `CLIENT_ERROR` (or bare `ERROR`) response: the server rejected the
    /// command as malformed. A usage error seen by the server, never retried.
    Rejected(String),
    /// `update` or `take` kept losing to concurrent writers and ran out of
    /// retries.
    Conflict,
    /// The value encoded to zero bytes. Zero-byte items are reserved as lease
    /// placeholders, so the scenario layer refuses to store them.
    EmptyValue,
    /// The value could not be encoded.
    Encode(EncodeError),
    /// The stored bytes could not be decoded into the requested type.
    Decode(DecodeError),
    /// An invalid argument. Never retried.
    Usage(&'static str),
    /// The caller's loader or update function failed.
    Callback(CallbackError),
}

/// What an [`Error`] holds.
#[allow(inconsistent_fields)]
pub enum ErrorView {
    Io(IoErrorView),
    Timeout { key: Seq<u8> },
    Ambiguous { key: Seq<u8>, source: Box<ErrorView> },
    Protocol(Seq<char>),
    Server(Seq<char>),
    Rejected(Seq<char>),
    Conflict,
    EmptyValue,
    Encode(Seq<char>),
    Decode(Seq<char>),
    Usage(Seq<char>),
    Callback { cause: Arc<std::io::Error> },
}

impl Error {
    pub open spec fn view(&self) -> ErrorView
        decreases self,
    {
        match *self {
            Error::Io(error) => ErrorView::Io(error@),
            Error::Timeout { key } => ErrorView::Timeout { key: key@ },
            Error::Ambiguous { key, source } => ErrorView::Ambiguous {
                key: key@,
                source: Box::new((*source).view()),
            },
            Error::Protocol(message) => ErrorView::Protocol(message@),
            Error::Server(message) => ErrorView::Server(message@),
            Error::Rejected(message) => ErrorView::Rejected(message@),
            Error::Conflict => ErrorView::Conflict,
            Error::EmptyValue => ErrorView::EmptyValue,
            Error::Encode(error) => ErrorView::Encode(error.message@),
            Error::Decode(error) => ErrorView::Decode(error.message@),
            Error::Usage(message) => ErrorView::Usage(message@),
            Error::Callback(error) => ErrorView::Callback { cause: error.source },
        }
    }
}

impl ErrorView {
    /// Whether the outcome of a written request is unknown.
    pub open spec fn is_ambiguous(self) -> bool {
        self is Ambiguous
    }

    /// Whether the request was definitely not applied.
    pub open spec fn is_retryable(self) -> bool {
        self is Io || self is Timeout
    }

    /// The error seen by the request for `key`: an io timeout is a timeout of
    /// that key, anything else stays as it is.
    pub open spec fn for_key(self, key: Seq<u8>) -> ErrorView {
        match self {
            ErrorView::Io(error) => if error.kind == IoErrorKind::TimedOut {
                ErrorView::Timeout { key }
            } else {
                self
            },
            _ => self,
        }
    }

    /// The caller's own error, if the error comes from one.
    pub open spec fn cause(self) -> Option<Arc<std::io::Error>>
        decreases self,
    {
        match self {
            ErrorView::Ambiguous { key, source } => source.cause(),
            ErrorView::Callback { cause } => Some(cause),
            _ => None,
        }
    }

    /// The message that describes the error, where `message` describes the
    /// caller's own.
    pub open spec fn text(self, message: Seq<char>) -> Seq<char>
        decreases self,
    {
        match self {
            ErrorView::Io(error) => "i/o error: "@ + error.message,
            ErrorView::Timeout { key } => "timed out before sending request for "@ + text::key_shown(key),
            ErrorView::Ambiguous { key, source } => "outcome of request for "@ + text::key_shown(key)
                + " is unknown: "@ + source.text(message),
            ErrorView::Protocol(reason) => "protocol error: "@ + reason,
            ErrorView::Server(reason) => "server error: "@ + reason,
            ErrorView::Rejected(reason) => "command rejected by server: "@ + reason,
            ErrorView::Conflict => "too many conflicting concurrent writes"@,
            ErrorView::EmptyValue => "empty values are reserved as lease placeholders"@,
            ErrorView::Encode(reason) => "encode failed: "@ + reason,
            ErrorView::Decode(reason) => "decode failed: "@ + reason,
            ErrorView::Usage(reason) => "invalid argument: "@ + reason,
            ErrorView::Callback { cause } => "callback failed: "@ + message,
        }
    }
}

/// A protocol violation with the given message.
pub open spec fn protocol(message: &str) -> ErrorView {
    ErrorView::Protocol(message@)
}

/// An invalid argument with the given message.
pub open spec fn usage(message: &str) -> ErrorView {
    ErrorView::Usage(message@)
}

impl CallbackError {
    /// Keep a caller's error, wrapped by `std::io::Error::other`.
    pub fn new(source: std::io::Error) -> (r: CallbackError)
        ensures
            *r.source == source,
    {
        CallbackError { source: Arc::new(source) }
    }

    /// The same caller's error once more.
    pub fn duplicate(&self) -> (r: CallbackError)
        ensures
            r == *self,
    {
        CallbackError { source: self.source.clone() }
    }
}

/// Calls `to_string` on a `std::io::Error`. The message rests on the caller's
/// own error type, so nothing is said of it.
#[verifier::external_body]
fn callback_message(source: &std::io::Error) -> String {
    source.to_string()
}

/// Calls `std::io::Error::get_ref` and `downcast_ref` on the error inside.
/// Whether that error is an `E` rests on the caller's type, so nothing is
/// said of the result.
#[verifier::external_body]
fn downcast<E: std::error::Error + 'static>(source: &std::io::Error) -> Option<&E> {
    source.get_ref().and_then(|inner| inner.downcast_ref::<E>())
}

/// Whether `r` is what reading the error inside a `std::io::Error` as an `E`
/// gives.
pub closed spec fn read_as<E: std::error::Error + 'static>(source: &std::io::Error, r: Option<&E>) -> bool {
    call_ensures(downcast::<E>, (source,), r)
}

/// Whether `message` is how a `std::io::Error` describes itself at some time.
pub closed spec fn describes_itself(source: &std::io::Error, message: Seq<char>) -> bool {
    exists|r: String| r@ == message && #[trigger] call_ensures(callback_message, (source,), r)
}

impl Error {
    /// Whether the outcome of a written request is unknown.
    pub fn is_ambiguous(&self) -> (r: bool)
        ensures
            r == self@.is_ambiguous(),
    {
        matches!(self, Error::Ambiguous { .. })
    }

    /// Whether retrying the same request is safe: the request was definitely
    /// not applied. Never true for [`Ambiguous`](Error::Ambiguous).
    pub fn is_retryable(&self) -> (r: bool)
        ensures
            r == self@.is_retryable(),
            r ==> !self@.is_ambiguous(),
    {
        matches!(self, Error::Io(_) | Error::Timeout { .. })
    }

    /// The caller's own error inside a [`Callback`](Error::Callback), if it is
    /// an `E`. Which types a caller's error can be read as is up to that error.
    pub fn callback<E: std::error::Error + 'static>(&self) -> (r: Option<&E>)
        ensures
            match *self {
                Error::Callback(error) => read_as::<E>(&*error.source, r),
                _ => r is None,
            },
    {
        match self {
            Error::Callback(error) => downcast::<E>(&error.source),
            _ => None,
        }
    }

    pub fn protocol(message: &str) -> (r: Error)
        ensures
            r@ == protocol(message),
    {
        Error::Protocol(message.to_string())
    }

    /// Attribute a keyless transport error to the key it was sent for: an io
    /// timeout becomes [`Timeout`](Error::Timeout).
    pub fn for_key(self, key: &[u8]) -> (r: Error)
        ensures
            r@ == self@.for_key(key@),
    {
        match self {
            Error::Io(error) => {
                if error.kind == IoErrorKind::TimedOut {
                    Error::Timeout { key: bytes::copy(key) }
                } else {
                    Error::Io(error)
                }
            },
            other => other,
        }
    }

    /// A duplicate, so one failure covering a whole batch group can be
    /// reported on each operation of the group.
    pub fn duplicate(&self) -> (r: Error)
        ensures
            r@ == self@,
        decreases self,
    {
        match self {
            Error::Io(error) => Error::Io(error.duplicate()),
            Error::Timeout { key } => Error::Timeout { key: bytes::copy(key.as_slice()) },
            Error::Ambiguous { key, source } => Error::Ambiguous {
                key: bytes::copy(key.as_slice()),
                source: Box::new((**source).duplicate()),
            },
            Error::Protocol(message) => Error::Protocol(message.clone()),
            Error::Server(message) => Error::Server(message.clone()),
            Error::Rejected(message) => Error::Rejected(message.clone()),
            Error::Conflict => Error::Conflict,
            Error::EmptyValue => Error::EmptyValue,
            Error::Encode(error) => Error::Encode(error.duplicate()),
            Error::Decode(error) => Error::Decode(error.duplicate()),
            Error::Usage(message) => Error::Usage(*message),
            Error::Callback(error) => Error::Callback(error.duplicate()),
        }
    }

    /// The caller's own error, if the error comes from one.
    fn cause(&self) -> (r: Option<Arc<std::io::Error>>)
        ensures
            r == self@.cause(),
        decreases self,
    {
        match self {
            Error::Ambiguous { source, .. } => (**source).cause(),
            Error::Callback(error) => Some(error.source.clone()),
            _ => None,
        }
    }

    /// The message that describes the error. A caller's own error is asked for
    /// its message each time.
    pub fn to_string(&self) -> (r: String)
        ensures
            match self@.cause() {
                None => r@ == self@.text(Seq::empty()),
                Some(cause) => exists|message: Seq<char>|
                    describes_itself(&*cause, message) && r@ == #[trigger] self@.text(message),
            },
    {
        match self.cause() {
            None => {
                proof {
                    reveal_strlit("");
                    assert(""@ =~= Seq::<char>::empty());
                }
                self.to_string_with("")
            },
            Some(cause) => {
                let message = callback_message(&cause);
                assert(describes_itself(&*cause, message@));
                self.to_string_with(message.as_str())
            },
        }
    }

    /// The message that describes the error, where `message` describes the
    /// caller's own.
    pub fn to_string_with(&self, message: &str) -> (r: String)
        ensures
            r@ == self@.text(message@),
        decreases self,
    {
        match self {
            Error::Io(error) => text::join("i/o error: ", error.message.as_str()),
            Error::Timeout { key } => {
                let shown = text::show_key(key.as_slice());
                text::join("timed out before sending request for ", shown.as_str())
            },
            Error::Ambiguous { key, source } => {
                let shown = text::show_key(key.as_slice());
                let cause = (**source).to_string_with(message);
                let mut out = text::join("outcome of request for ", shown.as_str());
                out.append(" is unknown: ");
                out.append(cause.as_str());
                out
            },
            Error::Protocol(reason) => text::join("protocol error: ", reason.as_str()),
            Error::Server(reason) => text::join("server error: ", reason.as_str()),
            Error::Rejected(reason) => text::join("command rejected by server: ", reason.as_str()),
            Error::Conflict => "too many conflicting concurrent writes".to_string(),
            Error::EmptyValue => "empty values are reserved as lease placeholders".to_string(),
            Error::Encode(error) => error.to_string(),
            Error::Decode(error) => error.to_string(),
            Error::Usage(reason) => text::join("invalid argument: ", reason),
            Error::Callback(_) => text::join("callback failed: ", message),
        }
    }

    /// Whether another error stands behind this one.
    pub fn has_source(&self) -> (r: bool)
        ensures
            r == (self is Io || self is Ambiguous || self is Encode || self is Decode || self is Callback),
    {
        matches!(
            self,
            Error::Io(_) | Error::Ambiguous { .. } | Error::Encode(_) | Error::Decode(_) | Error::Callback(_)
        )
    }
}

impl vstd::std_specs::convert::FromSpecImpl<IoError> for Error {
    open spec fn obeys_from_spec() -> bool {
        true
    }

    open spec fn from_spec(error: IoError) -> Error {
        Error::Io(error)
    }
}

impl From<IoError> for Error {
    fn from(error: IoError) -> (r: Error) {
        Error::Io(error)
    }
}

impl vstd::std_specs::convert::FromSpecImpl<EncodeError> for Error {
    open spec fn obeys_from_spec() -> bool {
        true
    }

    open spec fn from_spec(error: EncodeError) -> Error {
        Error::Encode(error)
    }
}

impl From<EncodeError> for Error {
    fn from(error: EncodeError) -> (r: Error) {
        Error::Encode(error)
    }
}

impl vstd::std_specs::convert::FromSpecImpl<DecodeError> for Error {
    open spec fn obeys_from_spec() -> bool {
        true
    }

    open spec fn from_spec(error: DecodeError) -> Error {
        Error::Decode(error)
    }
}

impl From<DecodeError> for Error {
    fn from(error: DecodeError) -> (r: Error) {
        Error::Decode(error)
    }
}

/// A failure is never both safe to retry and of unknown outcome, and
/// attributing a failure to a key changes neither.
pub proof fn lemma_classification(error: ErrorView, key: Seq<u8>)
    ensures
        !(error.is_retryable() && error.is_ambiguous()),
        error.for_key(key).is_retryable() == error.is_retryable(),
        error.for_key(key).is_ambiguous() == error.is_ambiguous(),
{
}

} // verus!
