//! Errors of the classic client.

use vstd::prelude::*;
use vstd::string::*;

use crate::bytes;
use crate::decimal::IntErrorKind;
use crate::io::{IoError, IoErrorView};
use crate::text;

verus! {

/// Client-side errors.
#[derive(Debug)]
pub enum ClientError {
    /// The key provided was longer than 250 bytes.
    KeyTooLong,
    /// The server returned an error prefixed with CLIENT_ERROR in response to
    /// a command, or its response could not be read.
    Error(String),
}

/// What a [`ClientError`] holds.
pub enum ClientErrorView {
    KeyTooLong,
    Error(Seq<char>),
}

impl View for ClientError {
    type V = ClientErrorView;

    open spec fn view(&self) -> ClientErrorView {
        match *self {
            ClientError::KeyTooLong => ClientErrorView::KeyTooLong,
            ClientError::Error(message) => ClientErrorView::Error(message@),
        }
    }
}

impl ClientErrorView {
    pub open spec fn text(self) -> Seq<char> {
        match self {
            ClientErrorView::KeyTooLong => "The provided key was too long."@,
            ClientErrorView::Error(message) => message,
        }
    }
}

impl ClientError {
    /// The message of the error.
    pub fn to_string(&self) -> (r: String)
        ensures
            r@ == self@.text(),
    {
        match self {
            ClientError::KeyTooLong => "The provided key was too long.".to_string(),
            ClientError::Error(message) => message.as_str().to_string(),
        }
    }
}

/// Server-side errors.
#[derive(Debug)]
pub enum ServerError {
    /// When using binary protocol, the server returned a magic number that is
    /// not that of a response.
    BadMagic(u8),
    /// The client did not understand the response of the server.
    BadResponse(String),
    /// The server returned an error prefixed with SERVER_ERROR in response to
    /// a command.
    Error(String),
}

/// What a [`ServerError`] holds.
pub enum ServerErrorView {
    BadMagic(u8),
    BadResponse(Seq<char>),
    Error(Seq<char>),
}

impl View for ServerError {
    type V = ServerErrorView;

    open spec fn view(&self) -> ServerErrorView {
        match *self {
            ServerError::BadMagic(magic) => ServerErrorView::BadMagic(magic),
            ServerError::BadResponse(message) => ServerErrorView::BadResponse(message@),
            ServerError::Error(message) => ServerErrorView::Error(message@),
        }
    }
}

/// A digit below sixteen, in lower case.
pub open spec fn hex_digit(n: u8) -> u8 {
    if n < 10 {
        (48 + n) as u8
    } else {
        (87 + n) as u8
    }
}

/// A byte in hexadecimal, without leading zero.
pub open spec fn hex(byte: u8) -> Seq<u8> {
    if byte < 16 {
        seq![hex_digit(byte)]
    } else {
        seq![hex_digit(byte / 16), hex_digit(byte % 16)]
    }
}

fn hex_of(n: u8) -> (r: u8)
    requires
        n < 16,
    ensures
        r == hex_digit(n),
        r < 128,
{
    if n < 10 {
        48 + n
    } else {
        87 + n
    }
}

fn hex_text(byte: u8) -> (r: String)
    ensures
        r@ == bytes::chars(hex(byte)),
{
    let mut digits: Vec<u8> = Vec::new();
    if byte >= 16 {
        digits.push(hex_of(byte / 16));
        digits.push(hex_of(byte % 16));
    } else {
        digits.push(hex_of(byte));
    }
    assert(digits@ =~= hex(byte));
    text::from_ascii(digits)
}

impl ServerErrorView {
    pub open spec fn text(self) -> Seq<char> {
        match self {
            ServerErrorView::BadMagic(magic) => "Expected 0x81 as magic in response header, but found: "@ + bytes::chars(hex(magic)),
            ServerErrorView::BadResponse(message) => "Unexpected: "@ + message + " in response"@,
            ServerErrorView::Error(message) => message,
        }
    }
}

impl ServerError {
    /// The message of the error.
    pub fn to_string(&self) -> (r: String)
        ensures
            r@ == self@.text(),
    {
        match self {
            ServerError::BadMagic(magic) => {
                let shown = hex_text(*magic);
                text::join("Expected 0x81 as magic in response header, but found: ", shown.as_str())
            },
            ServerError::BadResponse(message) => {
                let opened = text::join("Unexpected: ", message.as_str());
                text::join(opened.as_str(), " in response")
            },
            ServerError::Error(message) => message.as_str().to_string(),
        }
    }
}

/// Command specific errors.
#[derive(Debug)]
pub enum CommandError {
    /// The client tried to set a key which already existed in the server.
    KeyExists,
    /// The client tried to set a key which does not exist in the server.
    KeyNotFound,
    /// The value is too large.
    ValueTooLarge,
    /// Invalid arguments were passed to the command.
    InvalidArguments,
    /// The server requires authentication.
    AuthenticationRequired,
    /// The server returned an unknown status.
    Unknown(u16),
    /// The server returned ERROR in response to a command.
    Error(String),
}

/// What a [`CommandError`] holds.
pub enum CommandErrorView {
    KeyExists,
    KeyNotFound,
    ValueTooLarge,
    InvalidArguments,
    AuthenticationRequired,
    Unknown(u16),
    Error(Seq<char>),
}

impl View for CommandError {
    type V = CommandErrorView;

    open spec fn view(&self) -> CommandErrorView {
        match *self {
            CommandError::KeyExists => CommandErrorView::KeyExists,
            CommandError::KeyNotFound => CommandErrorView::KeyNotFound,
            CommandError::ValueTooLarge => CommandErrorView::ValueTooLarge,
            CommandError::InvalidArguments => CommandErrorView::InvalidArguments,
            CommandError::AuthenticationRequired => CommandErrorView::AuthenticationRequired,
            CommandError::Unknown(code) => CommandErrorView::Unknown(code),
            CommandError::Error(message) => CommandErrorView::Error(message@),
        }
    }
}

impl CommandErrorView {
    pub open spec fn text(self) -> Seq<char> {
        match self {
            CommandErrorView::KeyExists => "Key already exists in the server."@,
            CommandErrorView::KeyNotFound => "Key was not found in the server."@,
            CommandErrorView::ValueTooLarge => "Value was too large."@,
            CommandErrorView::InvalidArguments => "Invalid arguments provided."@,
            CommandErrorView::AuthenticationRequired => "Authentication required."@,
            CommandErrorView::Unknown(code) => "Unknown error occurred with code: "@ + text::number(code as nat) + "."@,
            CommandErrorView::Error(message) => message,
        }
    }
}

/// What a status other than success stands for.
pub open spec fn status_error(status: u16) -> CommandErrorView {
    if status == 0x1 {
        CommandErrorView::KeyNotFound
    } else if status == 0x2 {
        CommandErrorView::KeyExists
    } else if status == 0x3 {
        CommandErrorView::ValueTooLarge
    } else if status == 0x4 {
        CommandErrorView::InvalidArguments
    } else if status == 0x20 {
        CommandErrorView::AuthenticationRequired
    } else {
        CommandErrorView::Unknown(status)
    }
}

impl CommandError {
    /// The message of the error.
    pub fn to_string(&self) -> (r: String)
        ensures
            r@ == self@.text(),
    {
        match self {
            CommandError::KeyExists => "Key already exists in the server.".to_string(),
            CommandError::KeyNotFound => "Key was not found in the server.".to_string(),
            CommandError::ValueTooLarge => "Value was too large.".to_string(),
            CommandError::InvalidArguments => "Invalid arguments provided.".to_string(),
            CommandError::AuthenticationRequired => "Authentication required.".to_string(),
            CommandError::Unknown(code) => {
                let digits = text::number_text(*code as u128);
                let opened = text::join("Unknown error occurred with code: ", digits.as_str());
                text::join(opened.as_str(), ".")
            },
            CommandError::Error(message) => message.as_str().to_string(),
        }
    }

    /// The error that a binary status stands for.
    pub fn from_status(status: u16) -> (r: CommandError)
        requires
            status != 0,
        ensures
            r@ == status_error(status),
    {
        if status == 0x1 {
            CommandError::KeyNotFound
        } else if status == 0x2 {
            CommandError::KeyExists
        } else if status == 0x3 {
            CommandError::ValueTooLarge
        } else if status == 0x4 {
            CommandError::InvalidArguments
        } else if status == 0x20 {
            CommandError::AuthenticationRequired
        } else {
            CommandError::Unknown(status)
        }
    }
}

/// A value that is not of the requested type.
#[derive(Debug)]
pub enum ParseError {
    Bool,
    Int(IntErrorKind),
    /// The message of a failed attempt to read a floating point number.
    Float(String),
    /// The message of a failed attempt to read UTF-8.
    String(String),
}

/// What a [`ParseError`] holds.
pub enum ParseErrorView {
    Bool,
    Int(IntErrorKind),
    Float(Seq<char>),
    String(Seq<char>),
}

impl View for ParseError {
    type V = ParseErrorView;

    open spec fn view(&self) -> ParseErrorView {
        match *self {
            ParseError::Bool => ParseErrorView::Bool,
            ParseError::Int(kind) => ParseErrorView::Int(kind),
            ParseError::Float(message) => ParseErrorView::Float(message@),
            ParseError::String(message) => ParseErrorView::String(message@),
        }
    }
}

impl ParseErrorView {
    pub open spec fn text(self) -> Seq<char> {
        match self {
            ParseErrorView::Bool => "provided string was not `true` or `false`"@,
            ParseErrorView::Int(kind) => kind.text(),
            ParseErrorView::Float(message) => message,
            ParseErrorView::String(message) => message,
        }
    }
}

impl ParseError {
    /// The message of the error.
    pub fn to_string(&self) -> (r: String)
        ensures
            r@ == self@.text(),
    {
        match self {
            ParseError::Bool => "provided string was not `true` or `false`".to_string(),
            ParseError::Int(kind) => kind.message().to_string(),
            ParseError::Float(message) => message.as_str().to_string(),
            ParseError::String(message) => message.as_str().to_string(),
        }
    }
}

/// Stands for errors raised from the classic client.
#[derive(Debug)]
pub enum MemcacheError {
    /// Error raised when the provided memcache URL is invalid.
    BadURL(String),
    /// `std::io` related errors.
    IOError(IoError),
    /// Client errors.
    ClientError(ClientError),
    /// Server errors.
    ServerError(ServerError),
    /// Command specific errors.
    CommandError(CommandError),
    /// A value that is not of the requested type.
    ParseError(ParseError),
    /// The message of a TLS error.
    TlsError(String),
    /// The message of a connection pool error.
    PoolError(String),
}

/// What a [`MemcacheError`] holds.
pub enum MemcacheErrorView {
    BadURL(Seq<char>),
    IOError(IoErrorView),
    ClientError(ClientErrorView),
    ServerError(ServerErrorView),
    CommandError(CommandErrorView),
    ParseError(ParseErrorView),
    TlsError(Seq<char>),
    PoolError(Seq<char>),
}

impl View for MemcacheError {
    type V = MemcacheErrorView;

    open spec fn view(&self) -> MemcacheErrorView {
        match *self {
            MemcacheError::BadURL(message) => MemcacheErrorView::BadURL(message@),
            MemcacheError::IOError(error) => MemcacheErrorView::IOError(error@),
            MemcacheError::ClientError(error) => MemcacheErrorView::ClientError(error@),
            MemcacheError::ServerError(error) => MemcacheErrorView::ServerError(error@),
            MemcacheError::CommandError(error) => MemcacheErrorView::CommandError(error@),
            MemcacheError::ParseError(error) => MemcacheErrorView::ParseError(error@),
            MemcacheError::TlsError(message) => MemcacheErrorView::TlsError(message@),
            MemcacheError::PoolError(message) => MemcacheErrorView::PoolError(message@),
        }
    }
}

impl MemcacheErrorView {
    pub open spec fn text(self) -> Seq<char> {
        match self {
            MemcacheErrorView::BadURL(message) => message,
            MemcacheErrorView::IOError(error) => error.message,
            MemcacheErrorView::ClientError(error) => error.text(),
            MemcacheErrorView::ServerError(error) => error.text(),
            MemcacheErrorView::CommandError(error) => error.text(),
            MemcacheErrorView::ParseError(error) => error.text(),
            MemcacheErrorView::TlsError(message) => message,
            MemcacheErrorView::PoolError(message) => message,
        }
    }

    /// Whether the connection can be used after the error: the error was raised
    /// before anything was sent, or after a whole response was read.
    pub open spec fn is_recoverable(self) -> bool {
        match self {
            MemcacheErrorView::ClientError(error) => error is KeyTooLong,
            MemcacheErrorView::CommandError(_) => true,
            _ => false,
        }
    }
}

/// An unexpected response.
pub open spec fn bad_response(message: Seq<char>) -> MemcacheErrorView {
    MemcacheErrorView::ServerError(ServerErrorView::BadResponse(message))
}

/// A client error with a message.
pub open spec fn client_error(message: Seq<char>) -> MemcacheErrorView {
    MemcacheErrorView::ClientError(ClientErrorView::Error(message))
}

/// The error that a response line, given by its bytes, stands for, if it stands
/// for one.
pub open spec fn line_error(line: Seq<u8>) -> Option<MemcacheErrorView> {
    let message = vstd::utf8::decode_utf8(line);
    if bytes::has_prefix(line, bytes::utf8("CLIENT_ERROR")) {
        Some(client_error(message))
    } else if bytes::has_prefix(line, bytes::utf8("SERVER_ERROR")) {
        Some(MemcacheErrorView::ServerError(ServerErrorView::Error(message)))
    } else if bytes::has_prefix(line, bytes::utf8("ERROR")) {
        Some(MemcacheErrorView::CommandError(CommandErrorView::Error(message)))
    } else if line == bytes::utf8("NOT_FOUND\r\n") {
        Some(MemcacheErrorView::CommandError(CommandErrorView::KeyNotFound))
    } else {
        None
    }
}

impl MemcacheError {
    /// The message of the error.
    pub fn to_string(&self) -> (r: String)
        ensures
            r@ == self@.text(),
    {
        match self {
            MemcacheError::BadURL(message) => message.as_str().to_string(),
            MemcacheError::IOError(error) => error.message.as_str().to_string(),
            MemcacheError::ClientError(error) => error.to_string(),
            MemcacheError::ServerError(error) => error.to_string(),
            MemcacheError::CommandError(error) => error.to_string(),
            MemcacheError::ParseError(error) => error.to_string(),
            MemcacheError::TlsError(message) => message.as_str().to_string(),
            MemcacheError::PoolError(message) => message.as_str().to_string(),
        }
    }

    /// Whether the connection can be used after the error.
    pub fn is_recoverable(&self) -> (r: bool)
        ensures
            r == self@.is_recoverable(),
    {
        match self {
            MemcacheError::ClientError(ClientError::KeyTooLong) => true,
            MemcacheError::CommandError(_) => true,
            _ => false,
        }
    }

    /// An unexpected response.
    pub fn bad_response(message: &str) -> (r: MemcacheError)
        ensures
            r@ == bad_response(message@),
    {
        MemcacheError::ServerError(ServerError::BadResponse(message.to_string()))
    }

    /// A client error with a message.
    pub fn client(message: &str) -> (r: MemcacheError)
        ensures
            r@ == client_error(message@),
    {
        MemcacheError::ClientError(ClientError::Error(message.to_string()))
    }

    /// The error that a response line stands for, if it stands for one.
    pub fn from_line(line: &str) -> (r: Option<MemcacheError>)
        ensures
            match r {
                Some(e) => line_error(vstd::utf8::encode_utf8(line@)) == Some(e@),
                None => line_error(vstd::utf8::encode_utf8(line@)) is None,
            },
    {
        let wire = line.as_bytes();
        proof {
            vstd::utf8::encode_utf8_decode_utf8(line@);
        }
        if bytes::starts_with(wire, "CLIENT_ERROR".as_bytes()) {
            Some(MemcacheError::ClientError(ClientError::Error(line.to_string())))
        } else if bytes::starts_with(wire, "SERVER_ERROR".as_bytes()) {
            Some(MemcacheError::ServerError(ServerError::Error(line.to_string())))
        } else if bytes::starts_with(wire, "ERROR".as_bytes()) {
            Some(MemcacheError::CommandError(CommandError::Error(line.to_string())))
        } else if bytes::equal(wire, "NOT_FOUND\r\n".as_bytes()) {
            Some(MemcacheError::CommandError(CommandError::KeyNotFound))
        } else {
            None
        }
    }
}

impl vstd::std_specs::convert::FromSpecImpl<ClientError> for MemcacheError {
    open spec fn obeys_from_spec() -> bool {
        true
    }

    open spec fn from_spec(error: ClientError) -> MemcacheError {
        MemcacheError::ClientError(error)
    }
}

impl From<ClientError> for MemcacheError {
    fn from(error: ClientError) -> (r: MemcacheError) {
        MemcacheError::ClientError(error)
    }
}

impl vstd::std_specs::convert::FromSpecImpl<ServerError> for MemcacheError {
    open spec fn obeys_from_spec() -> bool {
        true
    }

    open spec fn from_spec(error: ServerError) -> MemcacheError {
        MemcacheError::ServerError(error)
    }
}

impl From<ServerError> for MemcacheError {
    fn from(error: ServerError) -> (r: MemcacheError) {
        MemcacheError::ServerError(error)
    }
}

impl vstd::std_specs::convert::FromSpecImpl<CommandError> for MemcacheError {
    open spec fn obeys_from_spec() -> bool {
        true
    }

    open spec fn from_spec(error: CommandError) -> MemcacheError {
        MemcacheError::CommandError(error)
    }
}

impl From<CommandError> for MemcacheError {
    fn from(error: CommandError) -> (r: MemcacheError) {
        MemcacheError::CommandError(error)
    }
}

impl vstd::std_specs::convert::FromSpecImpl<ParseError> for MemcacheError {
    open spec fn obeys_from_spec() -> bool {
        true
    }

    open spec fn from_spec(error: ParseError) -> MemcacheError {
        MemcacheError::ParseError(error)
    }
}

impl From<ParseError> for MemcacheError {
    fn from(error: ParseError) -> (r: MemcacheError) {
        MemcacheError::ParseError(error)
    }
}

impl vstd::std_specs::convert::FromSpecImpl<IoError> for MemcacheError {
    open spec fn obeys_from_spec() -> bool {
        true
    }

    open spec fn from_spec(error: IoError) -> MemcacheError {
        MemcacheError::IOError(error)
    }
}

impl From<IoError> for MemcacheError {
    fn from(error: IoError) -> (r: MemcacheError) {
        MemcacheError::IOError(error)
    }
}

} // verus!
