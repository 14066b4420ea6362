//! What the addresses of servers and their options come to: which transport,
//! protocol and credentials a URL asks for, and what the standard settings are.

use vstd::prelude::*;
use vstd::string::*;

use crate::bytes;
use crate::client;
use crate::client::PoolOptions;
use crate::client::Connectable;
use crate::connectable;
use crate::connection;
use crate::connection::{ConnectionPlan, TlsOptions, Transport, TransportView, UrlParts, UrlView};
use crate::decimal;
use crate::decimal::IntErrorKind;
use crate::error::{
    ClientError, ClientErrorView, CommandError, CommandErrorView, MemcacheError, MemcacheErrorView, ParseError,
    ParseErrorView, ServerError, ServerErrorView,
};
use crate::exp::client::Engine;
use crate::ffi::memcached_return_t;
use crate::io::{IoError, IoErrorKind, IoErrorView};
use crate::protocol::arrival;
use crate::protocol::ascii::Options;
use crate::stream::udp_stream;
use crate::text;
use crate::time;
use crate::tls::VerifyMode;

verus! {

/// A connection waits as long as its first `timeout` says, in whole seconds, and
/// for ever where that is missing or no number. Small packets are sent at once
/// unless `tcp_nodelay` is `false`.
pub proof fn lemma_tcp_options(url: UrlView)
    ensures
        ({
            let options = connection::tcp_options(url);
            let timeout = connection::param(url.query, "timeout"@);
            &&& timeout is None ==> options.timeout is None
            &&& timeout matches Some(text) ==> (match decimal::parse_unsigned(
                vstd::utf8::encode_utf8(text),
                0xffff_ffff_ffff_ffff,
            ) {
                Ok(secs) => options.timeout is Some && options.timeout->0.nanos == secs * 1_000_000_000,
                Err(_) => options.timeout is None,
            })
            &&& options.nodelay <==> !url.query.contains(("tcp_nodelay"@, "false"@))
        }),
{
}

/// The certificate of a server is verified unless `verify_mode` is `none`. Only
/// `none` and `peer` are known.
pub proof fn lemma_verify_mode(url: UrlView)
    ensures
        match connection::verify_mode(url) {
            Ok(VerifyMode::Skip) => connection::param(url.query, "verify_mode"@) == Some("none"@),
            Ok(VerifyMode::Peer) => connection::param(url.query, "verify_mode"@) is None || connection::param(
                url.query,
                "verify_mode"@,
            ) == Some("peer"@),
            Err(e) => e is BadURL && connection::param(url.query, "verify_mode"@) is Some && connection::param(
                url.query,
                "verify_mode"@,
            ) != Some("none"@) && connection::param(url.query, "verify_mode"@) != Some("peer"@),
        },
{
    reveal_strlit("none");
    reveal_strlit("peer");
    assert("none"@[0] != "peer"@[0]);
}

/// A TLS connection takes its files from the URL as they stand there. A key comes
/// with its certificate or not at all.
pub proof fn lemma_tls_options(url: UrlView)
    ensures
        ({
            let key = connection::param(url.query, "key_path"@);
            let cert = connection::param(url.query, "cert_path"@);
            match connection::tls_options(url) {
                Ok(options) => {
                    &&& key is Some <==> cert is Some
                    &&& options.tcp_options == connection::tcp_options(url)
                    &&& options.ca_path == connection::param(url.query, "ca_path"@)
                    &&& options.key_path == key
                    &&& options.cert_path == cert
                    &&& connection::verify_mode(url) == Ok::<VerifyMode, MemcacheErrorView>(options.verify_mode)
                },
                Err(e) => e is BadURL && (connection::verify_mode(url) is Err || (key is Some) != (cert is Some)),
            }
        }),
{
    if let Err(e) = connection::verify_mode(url) {
        lemma_verify_mode(url);
    }
}

/// The bytes of `memcache`, the scheme that a URL has before a plus sign.
pub open spec fn family() -> Seq<u8> {
    seq!['m' as u8, 'e' as u8, 'm' as u8, 'c' as u8, 'a' as u8, 'c' as u8, 'h' as u8, 'e' as u8]
}

proof fn lemma_before_plus(head: Seq<u8>, tail: Seq<u8>)
    requires
        forall|i: int| 0 <= i < head.len() ==> #[trigger] head[i] != 43,
    ensures
        connection::before_plus(head) == head.len(),
        connection::before_plus(head + seq![43u8] + tail) == head.len(),
    decreases head.len(),
{
    let all = head + seq![43u8] + tail;
    if head.len() > 0 {
        let rest = head.skip(1);
        assert forall|i: int| 0 <= i < rest.len() implies #[trigger] rest[i] != 43 by {
            assert(rest[i] == head[i + 1]);
        }
        lemma_before_plus(rest, tail);
        assert(all.skip(1) =~= rest + seq![43u8] + tail);
        assert(all[0] == head[0]);
    } else {
        assert(all[0] == 43);
    }
}

/// The part of a scheme after the plus sign names the transport: `tcp`, `udp`,
/// `unix` or `tls`. No other is known.
pub proof fn lemma_named_transport(url: UrlView, name: Seq<u8>)
    requires
        vstd::utf8::encode_utf8(url.scheme) == family() + seq![43u8] + name,
    ensures
        name == seq!['t' as u8, 'c' as u8, 'p' as u8] ==> connection::transport(url) == Ok::<
            TransportView,
            MemcacheErrorView,
        >(TransportView::Tcp(connection::tcp_options(url))),
        name == seq!['u' as u8, 'd' as u8, 'p' as u8] ==> connection::transport(url) == Ok::<
            TransportView,
            MemcacheErrorView,
        >(TransportView::Udp),
        name == seq!['u' as u8, 'n' as u8, 'i' as u8, 'x' as u8] ==> connection::transport(url) == Ok::<
            TransportView,
            MemcacheErrorView,
        >(TransportView::Unix),
        name == seq!['t' as u8, 'l' as u8, 's' as u8] ==> (match connection::tls_options(url) {
            Ok(options) => connection::transport(url) == Ok::<TransportView, MemcacheErrorView>(
                TransportView::Tls(options),
            ),
            Err(e) => connection::transport(url) == Err::<TransportView, MemcacheErrorView>(e),
        }),
        name != seq!['t' as u8, 'c' as u8, 'p' as u8] && name != seq!['u' as u8, 'd' as u8, 'p' as u8] && name != seq![
            'u' as u8,
            'n' as u8,
            'i' as u8,
            'x' as u8,
        ] && name != seq!['t' as u8, 'l' as u8, 's' as u8] ==> connection::transport(url) is Err,
{
    let scheme = vstd::utf8::encode_utf8(url.scheme);
    lemma_before_plus(family(), name);
    lemma_scheme_words();
    assert(scheme.take(8) =~= family());
    assert(scheme.skip(9) =~= name);
}

proof fn lemma_scheme_words()
    ensures
        bytes::utf8("memcache") == family(),
        bytes::utf8("tcp") == seq!['t' as u8, 'c' as u8, 'p' as u8],
        bytes::utf8("udp") == seq!['u' as u8, 'd' as u8, 'p' as u8],
        bytes::utf8("unix") == seq!['u' as u8, 'n' as u8, 'i' as u8, 'x' as u8],
        bytes::utf8("tls") == seq!['t' as u8, 'l' as u8, 's' as u8],
{
    reveal_strlit("memcache");
    reveal_strlit("tcp");
    reveal_strlit("udp");
    reveal_strlit("unix");
    reveal_strlit("tls");
    bytes::lemma_ascii_literal("memcache");
    bytes::lemma_ascii_literal("tcp");
    bytes::lemma_ascii_literal("udp");
    bytes::lemma_ascii_literal("unix");
    bytes::lemma_ascii_literal("tls");
    assert(bytes::utf8("memcache") =~= family());
    assert(bytes::utf8("tcp") =~= seq!['t' as u8, 'c' as u8, 'p' as u8]);
    assert(bytes::utf8("udp") =~= seq!['u' as u8, 'd' as u8, 'p' as u8]);
    assert(bytes::utf8("unix") =~= seq!['u' as u8, 'n' as u8, 'i' as u8, 'x' as u8]);
    assert(bytes::utf8("tls") =~= seq!['t' as u8, 'l' as u8, 's' as u8]);
}

/// Without a named transport a URL is reached by UDP where it says `udp=true`, by
/// a local socket where it has neither host nor port, and else by TCP.
pub proof fn lemma_plain_transport(url: UrlView)
    requires
        vstd::utf8::encode_utf8(url.scheme) == family(),
    ensures
        connection::transport(url) == Ok::<TransportView, MemcacheErrorView>(
            if url.query.contains(("udp"@, "true"@)) {
                TransportView::Udp
            } else if url.host is None && url.port is None {
                TransportView::Unix
            } else {
                TransportView::Tcp(connection::tcp_options(url))
            },
        ),
{
    lemma_before_plus(family(), Seq::empty());
    lemma_scheme_words();
    assert(family().take(8) =~= family());
}

/// A URL of another family is refused, whatever stands after its plus sign.
pub proof fn lemma_other_schemes_are_refused(url: UrlView, head: Seq<u8>, tail: Seq<u8>)
    requires
        forall|i: int| 0 <= i < head.len() ==> #[trigger] head[i] != 43,
        head != family(),
        vstd::utf8::encode_utf8(url.scheme) == head || vstd::utf8::encode_utf8(url.scheme) == head + seq![43u8] + tail,
    ensures
        connection::transport(url) is Err,
        connection::transport(url)->Err_0 is BadURL,
{
    lemma_before_plus(head, tail);
    lemma_scheme_words();
    assert(head.take(head.len() as int) =~= head);
    assert((head + seq![43u8] + tail).take(head.len() as int) =~= head);
}

/// A connection speaks the binary protocol unless its URL says `protocol=ascii`,
/// and authenticates exactly where it names a user and a password. TLS needs a
/// host.
pub proof fn lemma_connection_plan(url: UrlView)
    ensures
        match connection::connection_plan(url) {
            Ok(plan) => {
                &&& connection::transport(url) == Ok::<TransportView, MemcacheErrorView>(plan.transport)
                &&& plan.transport is Tls ==> url.host is Some
                &&& plan.protocol is Ascii <==> url.query.contains(("protocol"@, "ascii"@))
                &&& plan.protocol is Binary <==> !url.query.contains(("protocol"@, "ascii"@))
                &&& match plan.credentials {
                    Some((username, password)) => url.has_authority && username == url.username && username.len() > 0
                        && url.password == Some(password),
                    None => !url.has_authority || url.username.len() == 0 || url.password is None,
                }
            },
            Err(e) => connection::transport(url) == Err::<TransportView, MemcacheErrorView>(e) || (e is BadURL
                && connection::transport(url) is Ok && connection::transport(url)->Ok_0 is Tls && url.host is None),
        },
{
}

/// A client of several servers knows three schemes: `memcache`, `memcache+tls` and
/// `memcache+udp`.
pub proof fn lemma_known_schemes(url: UrlView)
    ensures
        client::scheme_fault(url) is None <==> url.scheme == "memcache"@ || url.scheme == "memcache+tls"@ || url.scheme
            == "memcache+udp"@,
        client::scheme_fault(url) matches Some(e) ==> e is BadURL,
{
}

/// A list of targets fails as its first bad one does, and not otherwise.
pub proof fn lemma_first_bad_target(targets: Seq<Seq<char>>, target: Seq<char>)
    ensures
        client::targets_fault(Seq::empty()) is None,
        client::targets_fault(targets) is Some ==> client::targets_fault(targets.push(target)) == client::targets_fault(
            targets,
        ),
        client::targets_fault(targets) is None ==> (match connection::url_parsed(target) {
            Ok(url) => client::targets_fault(targets.push(target)) == client::scheme_fault(url),
            Err(message) => client::targets_fault(targets.push(target)) == Some(MemcacheErrorView::BadURL(message)),
        }),
        client::urls_fault(Seq::empty()) is None,
        client::urls_fault(targets) is Some ==> client::urls_fault(targets.push(target)) == client::urls_fault(targets),
        client::urls_fault(targets) is None ==> (match connection::url_parsed(target) {
            Ok(_) => client::urls_fault(targets.push(target)) is None,
            Err(message) => client::urls_fault(targets.push(target)) == Some(MemcacheErrorView::BadURL(message)),
        }),
{
    assert(targets.push(target).drop_last() =~= targets);
}

/// The standard settings: one connection to each server and no limits of time; for
/// the meta protocol a second to connect and to answer, eight idle connections
/// kept for ninety seconds, and no limit to their number; for a text command no
/// expiry, no flags, no CAS and an answer wanted.
pub proof fn lemma_standard_settings()
    ensures
        PoolOptions::plain().max_size == 1,
        PoolOptions::plain().min_idle is None,
        PoolOptions::plain().max_lifetime is None,
        PoolOptions::plain().read_timeout is None,
        PoolOptions::plain().write_timeout is None,
        PoolOptions::plain().connection_timeout is None,
        Engine::standard().connect_timeout is Some,
        Engine::standard().connect_timeout->0.nanos == 1_000_000_000,
        Engine::standard().io_timeout is Some,
        Engine::standard().io_timeout->0.nanos == 1_000_000_000,
        Engine::standard().max_idle == 8,
        Engine::standard().max_idle_age.nanos == 90_000_000_000,
        Engine::standard().max_connections is None,
        !Options::plain().noreply,
        Options::plain().exptime == 0,
        Options::plain().flags == 0,
        Options::plain().cas is None,
{
}

/// A connection stays usable after an error of the command, or after a key that
/// was too long and never sent, and after no other.
pub proof fn lemma_recoverable(error: MemcacheErrorView)
    ensures
        error.is_recoverable() <==> error is CommandError || (error matches MemcacheErrorView::ClientError(fault)
            && fault is KeyTooLong),
{
}

/// A UDP socket is bound to any port of the address it is given, and without one
/// to the loopback address or to all addresses.
pub proof fn lemma_bind_addresses(bind_addr: Option<&str>, is_loopback: bool)
    ensures
        bind_addr matches Some(addr) ==> udp_stream::bind_text(bind_addr, is_loopback) == addr@ + ":0"@,
        bind_addr is None && is_loopback ==> udp_stream::bind_text(bind_addr, is_loopback) == "127.0.0.1:0"@,
        bind_addr is None && !is_loopback ==> udp_stream::bind_text(bind_addr, is_loopback) == "0.0.0.0:0"@,
{
}

/// Requests over UDP are numbered one after the other, from one up to the largest
/// number and then from one again; none is numbered zero.
pub proof fn lemma_request_ids(id: u16)
    ensures
        id < 65535 ==> udp_stream::next_request_id(id) == id + 1,
        id == 65535 ==> udp_stream::next_request_id(id) == 1,
        udp_stream::next_request_id(id) >= 1,
{
}

/// A byte in hexadecimal: its value in one or two small digits.
pub proof fn lemma_hexadecimal(byte: u8)
    ensures
        ({
            let digits = crate::error::hex(byte);
            let place = |d: u8| if d <= '9' as u8 { d - '0' as u8 } else { d - 'a' as u8 + 10 };
            &&& byte < 16 ==> digits.len() == 1 && place(digits[0]) == byte
            &&& byte >= 16 ==> digits.len() == 2 && place(digits[0]) * 16 + place(digits[1]) == byte
            &&& forall|i: int|
                0 <= i < digits.len() ==> ('0' as u8 <= #[trigger] digits[i] <= '9' as u8 || 'a' as u8 <= digits[i]
                    <= 'f' as u8)
        }),
{
}

/// The return codes of the C library count up from zero in the order in which it
/// lists them.
pub proof fn lemma_return_codes(a: memcached_return_t, b: memcached_return_t)
    ensures
        a != b ==> a.code_spec() != b.code_spec(),
        a.code_spec() <= 49,
        memcached_return_t::MEMCACHED_SUCCESS.code_spec() == 0,
        memcached_return_t::MEMCACHED_FAILURE.code_spec() == 1,
        memcached_return_t::MEMCACHED_HOST_LOOKUP_FAILURE.code_spec() == 2,
        memcached_return_t::MEMCACHED_CONNECTION_FAILURE.code_spec() == 3,
        memcached_return_t::MEMCACHED_CONNECTION_BIND_FAILURE.code_spec() == 4,
        memcached_return_t::MEMCACHED_WRITE_FAILURE.code_spec() == 5,
        memcached_return_t::MEMCACHED_READ_FAILURE.code_spec() == 6,
        memcached_return_t::MEMCACHED_UNKNOWN_READ_FAILURE.code_spec() == 7,
        memcached_return_t::MEMCACHED_PROTOCOL_ERROR.code_spec() == 8,
        memcached_return_t::MEMCACHED_CLIENT_ERROR.code_spec() == 9,
        memcached_return_t::MEMCACHED_SERVER_ERROR.code_spec() == 10,
        memcached_return_t::MEMCACHED_ERROR.code_spec() == 11,
        memcached_return_t::MEMCACHED_DATA_EXISTS.code_spec() == 12,
        memcached_return_t::MEMCACHED_DATA_DOES_NOT_EXIST.code_spec() == 13,
        memcached_return_t::MEMCACHED_NOTSTORED.code_spec() == 14,
        memcached_return_t::MEMCACHED_STORED.code_spec() == 15,
        memcached_return_t::MEMCACHED_NOTFOUND.code_spec() == 16,
        memcached_return_t::MEMCACHED_MEMORY_ALLOCATION_FAILURE.code_spec() == 17,
        memcached_return_t::MEMCACHED_PARTIAL_READ.code_spec() == 18,
        memcached_return_t::MEMCACHED_SOME_ERRORS.code_spec() == 19,
        memcached_return_t::MEMCACHED_NO_SERVERS.code_spec() == 20,
        memcached_return_t::MEMCACHED_END.code_spec() == 21,
        memcached_return_t::MEMCACHED_DELETED.code_spec() == 22,
        memcached_return_t::MEMCACHED_VALUE.code_spec() == 23,
        memcached_return_t::MEMCACHED_STAT.code_spec() == 24,
        memcached_return_t::MEMCACHED_ITEM.code_spec() == 25,
        memcached_return_t::MEMCACHED_ERRNO.code_spec() == 26,
        memcached_return_t::MEMCACHED_FAIL_UNIX_SOCKET.code_spec() == 27,
        memcached_return_t::MEMCACHED_NOT_SUPPORTED.code_spec() == 28,
        memcached_return_t::MEMCACHED_NO_KEY_PROVIDED.code_spec() == 29,
        memcached_return_t::MEMCACHED_FETCH_NOTFINISHED.code_spec() == 30,
        memcached_return_t::MEMCACHED_TIMEOUT.code_spec() == 31,
        memcached_return_t::MEMCACHED_BUFFERED.code_spec() == 32,
        memcached_return_t::MEMCACHED_BAD_KEY_PROVIDED.code_spec() == 33,
        memcached_return_t::MEMCACHED_INVALID_HOST_PROTOCOL.code_spec() == 34,
        memcached_return_t::MEMCACHED_SERVER_MARKED_DEAD.code_spec() == 35,
        memcached_return_t::MEMCACHED_UNKNOWN_STAT_KEY.code_spec() == 36,
        memcached_return_t::MEMCACHED_E2BIG.code_spec() == 37,
        memcached_return_t::MEMCACHED_INVALID_ARGUMENTS.code_spec() == 38,
        memcached_return_t::MEMCACHED_KEY_TOO_BIG.code_spec() == 39,
        memcached_return_t::MEMCACHED_AUTH_PROBLEM.code_spec() == 40,
        memcached_return_t::MEMCACHED_AUTH_FAILURE.code_spec() == 41,
        memcached_return_t::MEMCACHED_AUTH_CONTINUE.code_spec() == 42,
        memcached_return_t::MEMCACHED_PARSE_ERROR.code_spec() == 43,
        memcached_return_t::MEMCACHED_PARSE_USER_ERROR.code_spec() == 44,
        memcached_return_t::MEMCACHED_DEPRECATED.code_spec() == 45,
        memcached_return_t::MEMCACHED_IN_PROGRESS.code_spec() == 46,
        memcached_return_t::MEMCACHED_SERVER_TEMPORARILY_DISABLED.code_spec() == 47,
        memcached_return_t::MEMCACHED_SERVER_MEMORY_ALLOCATION_FAILURE.code_spec() == 48,
        memcached_return_t::MEMCACHED_MAXIMUM_RETURN.code_spec() == 49,
{
}

/// What an error says.
pub proof fn lemma_error_texts(code: u16, magic: u8, message: Seq<char>, kind: IntErrorKind)
    ensures
        ClientErrorView::KeyTooLong.text() == "The provided key was too long."@,
        ClientErrorView::Error(message).text() == message,
        ServerErrorView::BadMagic(magic).text() == "Expected 0x81 as magic in response header, but found: "@
            + bytes::chars(crate::error::hex(magic)),
        ServerErrorView::BadResponse(message).text() == "Unexpected: "@ + message + " in response"@,
        ServerErrorView::Error(message).text() == message,
        CommandErrorView::KeyExists.text() == "Key already exists in the server."@,
        CommandErrorView::KeyNotFound.text() == "Key was not found in the server."@,
        CommandErrorView::ValueTooLarge.text() == "Value was too large."@,
        CommandErrorView::InvalidArguments.text() == "Invalid arguments provided."@,
        CommandErrorView::AuthenticationRequired.text() == "Authentication required."@,
        CommandErrorView::Unknown(code).text() == "Unknown error occurred with code: "@ + text::number(code as nat)
            + "."@,
        CommandErrorView::Error(message).text() == message,
        ParseErrorView::Bool.text() == "provided string was not `true` or `false`"@,
        ParseErrorView::Int(kind).text() == kind.text(),
        ParseErrorView::Float(message).text() == message,
        ParseErrorView::String(message).text() == message,
        IntErrorKind::Empty.text() == "cannot parse integer from empty string"@,
        IntErrorKind::InvalidDigit.text() == "invalid digit found in string"@,
        IntErrorKind::PosOverflow.text() == "number too large to fit in target type"@,
        IntErrorKind::NegOverflow.text() == "number too small to fit in target type"@,
{
}

/// An error of any kind says what its cause says.
pub proof fn lemma_errors_say_their_cause(
    message: Seq<char>,
    io: IoErrorView,
    client: ClientErrorView,
    server: ServerErrorView,
    command: CommandErrorView,
    parse: ParseErrorView,
)
    ensures
        MemcacheErrorView::BadURL(message).text() == message,
        MemcacheErrorView::IOError(io).text() == io.message,
        MemcacheErrorView::ClientError(client).text() == client.text(),
        MemcacheErrorView::ServerError(server).text() == server.text(),
        MemcacheErrorView::CommandError(command).text() == command.text(),
        MemcacheErrorView::ParseError(parse).text() == parse.text(),
        MemcacheErrorView::TlsError(message).text() == message,
        MemcacheErrorView::PoolError(message).text() == message,
{
}

/// The view of an error tells it apart from every other and shows what it holds.
pub proof fn lemma_errors_are_seen_as_they_are(error: MemcacheError)
    ensures
        match error {
            MemcacheError::BadURL(message) => error@ == MemcacheErrorView::BadURL(message@),
            MemcacheError::IOError(fault) => error@ == MemcacheErrorView::IOError(fault@),
            MemcacheError::ClientError(ClientError::KeyTooLong) => error@ == MemcacheErrorView::ClientError(
                ClientErrorView::KeyTooLong,
            ),
            MemcacheError::ClientError(ClientError::Error(message)) => error@ == MemcacheErrorView::ClientError(
                ClientErrorView::Error(message@),
            ),
            MemcacheError::ServerError(ServerError::BadMagic(magic)) => error@ == MemcacheErrorView::ServerError(
                ServerErrorView::BadMagic(magic),
            ),
            MemcacheError::ServerError(ServerError::BadResponse(message)) => error@ == MemcacheErrorView::ServerError(
                ServerErrorView::BadResponse(message@),
            ),
            MemcacheError::ServerError(ServerError::Error(message)) => error@ == MemcacheErrorView::ServerError(
                ServerErrorView::Error(message@),
            ),
            MemcacheError::CommandError(CommandError::KeyExists) => error@ == MemcacheErrorView::CommandError(
                CommandErrorView::KeyExists,
            ),
            MemcacheError::CommandError(CommandError::KeyNotFound) => error@ == MemcacheErrorView::CommandError(
                CommandErrorView::KeyNotFound,
            ),
            MemcacheError::CommandError(CommandError::ValueTooLarge) => error@ == MemcacheErrorView::CommandError(
                CommandErrorView::ValueTooLarge,
            ),
            MemcacheError::CommandError(CommandError::InvalidArguments) => error@ == MemcacheErrorView::CommandError(
                CommandErrorView::InvalidArguments,
            ),
            MemcacheError::CommandError(CommandError::AuthenticationRequired) => error@
                == MemcacheErrorView::CommandError(CommandErrorView::AuthenticationRequired),
            MemcacheError::CommandError(CommandError::Unknown(code)) => error@ == MemcacheErrorView::CommandError(
                CommandErrorView::Unknown(code),
            ),
            MemcacheError::CommandError(CommandError::Error(message)) => error@ == MemcacheErrorView::CommandError(
                CommandErrorView::Error(message@),
            ),
            MemcacheError::ParseError(ParseError::Bool) => error@ == MemcacheErrorView::ParseError(
                ParseErrorView::Bool,
            ),
            MemcacheError::ParseError(ParseError::Int(kind)) => error@ == MemcacheErrorView::ParseError(
                ParseErrorView::Int(kind),
            ),
            MemcacheError::ParseError(ParseError::Float(message)) => error@ == MemcacheErrorView::ParseError(
                ParseErrorView::Float(message@),
            ),
            MemcacheError::ParseError(ParseError::String(message)) => error@ == MemcacheErrorView::ParseError(
                ParseErrorView::String(message@),
            ),
            MemcacheError::TlsError(message) => error@ == MemcacheErrorView::TlsError(message@),
            MemcacheError::PoolError(message) => error@ == MemcacheErrorView::PoolError(message@),
        },
{
}

/// The views of addresses and plans show every part as it is.
pub proof fn lemma_plans_are_seen_as_they_are(
    url: UrlParts,
    options: TlsOptions,
    transport: Transport,
    plan: ConnectionPlan,
)
    ensures
        url@.text == url.text@,
        url@.scheme == url.scheme@,
        url@.has_authority == url.has_authority,
        url@.username == url.username@,
        url@.password is Some <==> url.password is Some,
        url.password matches Some(password) ==> url@.password == Some(password@),
        url@.host is Some <==> url.host is Some,
        url.host matches Some(host) ==> url@.host == Some(host@),
        url@.port == url.port,
        url@.path == url.path@,
        url@.query.len() == url.query@.len(),
        forall|i: int|
            0 <= i < url.query@.len() ==> #[trigger] url@.query[i] == (url.query@[i].0@, url.query@[i].1@),
        options@.tcp_options == options.tcp_options,
        options@.verify_mode == options.config.verify_mode,
        options.config.ca_path matches Some(path) ==> options@.ca_path == Some(path@),
        options.config.ca_path is None ==> options@.ca_path is None,
        options.config.key_path matches Some(path) ==> options@.key_path == Some(path@),
        options.config.key_path is None ==> options@.key_path is None,
        options.config.cert_path matches Some(path) ==> options@.cert_path == Some(path@),
        options.config.cert_path is None ==> options@.cert_path is None,
        match transport {
            Transport::Tcp(tcp) => transport@ == TransportView::Tcp(tcp),
            Transport::Udp => transport@ == TransportView::Udp,
            Transport::Unix => transport@ == TransportView::Unix,
            Transport::Tls(tls) => transport@ == TransportView::Tls(tls@),
        },
        plan@.transport == plan.transport@,
        plan@.protocol == plan.protocol,
        plan.credentials matches Some((username, password)) ==> plan@.credentials == Some((username@, password@)),
        plan.credentials is None ==> plan@.credentials is None,
{
}

/// The C library is told its servers in order, each as an option of its own with the
/// host and the port.
pub proof fn lemma_server_options(servers: Seq<(&str, u64)>, host: &str, port: u64)
    ensures
        connectable::server_text(host@, port) == "--SERVER="@ + host@ + ":"@ + text::number(port as nat),
        connectable::servers_text(Seq::empty()).len() == 0,
        connectable::servers_text(seq![(host, port)]) == connectable::server_text(host@, port),
        servers.len() > 0 ==> connectable::servers_text(servers.push((host, port))) == connectable::servers_text(servers)
            + " "@ + connectable::server_text(host@, port),
{
    assert(servers.push((host, port)).drop_last() =~= servers);
}

/// A list of addresses is taken in order, and an address of host and port is both
/// with a colon between.
pub proof fn lemma_connectable_addresses(text: &str, owned: String, host: &str, port: u16, list: Vec<String>, i: int)
    requires
        0 <= i < list@.len(),
    ensures
        text.urls_spec() == seq![text@],
        owned.urls_spec() == seq![owned@],
        (host, port).urls_spec() == seq![host@ + ":"@ + text::number(port as nat)],
        list.urls_spec().len() == list@.len(),
        list.urls_spec()[i] == list@[i]@,
{
}

/// An error of one kind is taken for an error of any kind as what it is.
pub proof fn lemma_error_conversions(
    client: ClientError,
    server: ServerError,
    command: CommandError,
    parse: ParseError,
    io: IoError,
)
    ensures
        <MemcacheError as vstd::std_specs::convert::FromSpec<ClientError>>::from_spec(client)
            == MemcacheError::ClientError(client),
        <MemcacheError as vstd::std_specs::convert::FromSpec<ServerError>>::from_spec(server)
            == MemcacheError::ServerError(server),
        <MemcacheError as vstd::std_specs::convert::FromSpec<CommandError>>::from_spec(command)
            == MemcacheError::CommandError(command),
        <MemcacheError as vstd::std_specs::convert::FromSpec<ParseError>>::from_spec(parse) == MemcacheError::ParseError(
            parse,
        ),
        <MemcacheError as vstd::std_specs::convert::FromSpec<IoError>>::from_spec(io) == MemcacheError::IOError(io),
{
}

/// A reply is incomplete where the input ended too early or holds no line yet, and in
/// no other case of failure.
pub proof fn lemma_incomplete_replies(error: MemcacheErrorView)
    ensures
        arrival::incomplete(error) <==> error == MemcacheErrorView::IOError(
            (IoErrorView { kind: IoErrorKind::UnexpectedEof, message: "failed to fill whole buffer"@ }),
        ) || error == MemcacheErrorView::ClientError(ClientErrorView::Error("Ascii protocol no line found"@)),
{
}

/// A reading of the clock is so many seconds and nanoseconds after the epoch, or
/// before it.
pub proof fn lemma_clock_readings(secs: u64, nanos: u32)
    ensures
        reading_nanos_is(Ok((secs, nanos)), secs * 1_000_000_000 + nanos),
        reading_nanos_is(Err((secs, nanos)), -(secs * 1_000_000_000 + nanos)),
        time::is_reading(Ok((secs, nanos))) <==> nanos < 1_000_000_000,
        time::is_reading(Err((secs, nanos))) <==> nanos < 1_000_000_000,
{
}

/// Whether a reading stands for so many nanoseconds since the epoch.
pub open spec fn reading_nanos_is(reading: time::Reading, nanos: int) -> bool {
    time::reading_nanos(reading) == nanos
}

} // verus!
