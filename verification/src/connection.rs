//! Connections of the classic client: what a URL asks for, and which failures
//! leave a connection unfit for use.

use vstd::prelude::*;
use vstd::string::*;

use crate::bytes;
use crate::decimal;
use crate::error::{MemcacheError, MemcacheErrorView};
use crate::protocol::Protocol;
use crate::time::Duration;
use crate::tls;
use crate::tls::{TlsConfig, VerifyMode};

verus! {

/// The parts of a URL.
#[derive(Debug)]
pub struct UrlParts {
    /// The whole URL, as it is written once it has been parsed.
    pub text: String,
    pub scheme: String,
    pub has_authority: bool,
    pub username: String,
    pub password: Option<String>,
    pub host: Option<String>,
    pub port: Option<u16>,
    pub path: String,
    /// The decoded pairs of the query.
    pub query: Vec<(String, String)>,
}

/// What a [`UrlParts`] holds.
pub struct UrlView {
    pub text: Seq<char>,
    pub scheme: Seq<char>,
    pub has_authority: bool,
    pub username: Seq<char>,
    pub password: Option<Seq<char>>,
    pub host: Option<Seq<char>>,
    pub port: Option<u16>,
    pub path: Seq<char>,
    pub query: Seq<(Seq<char>, Seq<char>)>,
}

impl View for UrlParts {
    type V = UrlView;

    open spec fn view(&self) -> UrlView {
        UrlView {
            text: self.text@,
            scheme: self.scheme@,
            has_authority: self.has_authority,
            username: self.username@,
            password: tls::text_of(self.password),
            host: tls::text_of(self.host),
            port: self.port,
            path: self.path@,
            query: crate::pairs::text_pairs(self.query@),
        }
    }
}

/// The parts of the URL that a text stands for, or why it stands for none.
pub uninterp spec fn url_parsed(text: Seq<char>) -> Result<UrlView, Seq<char>>;

/// Calls `url::Url::parse` and takes the URL's parts by its accessors, or the
/// message of its error. The parts are the same for the same text; which they
/// are is named and not spelled out.
#[verifier::external_body]
fn parse_parts(text: &str) -> (r: Result<UrlParts, String>)
    ensures
        match r {
            Ok(parts) => url_parsed(text@) == Ok::<UrlView, Seq<char>>(parts@),
            Err(message) => url_parsed(text@) == Err::<UrlView, Seq<char>>(message@),
        },
{
    let url = url::Url::parse(text).map_err(|e| e.to_string())?;
    Ok(UrlParts {
        text: url.to_string(),
        scheme: url.scheme().to_string(),
        has_authority: url.has_authority(),
        username: url.username().to_string(),
        password: url.password().map(|p| p.to_string()),
        host: url.host_str().map(|h| h.to_string()),
        port: url.port(),
        path: url.path().to_string(),
        query: url.query_pairs().map(|(k, v)| (k.into_owned(), v.into_owned())).collect(),
    })
}

/// Take a URL apart.
pub fn parse_url(text: &str) -> (r: Result<UrlParts, MemcacheError>)
    ensures
        match r {
            Ok(parts) => url_parsed(text@) == Ok::<UrlView, Seq<char>>(parts@),
            Err(e) => url_parsed(text@) matches Err(message) && e@ == MemcacheErrorView::BadURL(message),
        },
{
    match parse_parts(text) {
        Ok(parts) => Ok(parts),
        Err(message) => Err(MemcacheError::BadURL(message)),
    }
}

/// The first value that a query has under a name.
pub open spec fn param(query: Seq<(Seq<char>, Seq<char>)>, name: Seq<char>) -> Option<Seq<char>>
    decreases query.len(),
{
    if query.len() == 0 {
        None
    } else if query[0].0 == name {
        Some(query[0].1)
    } else {
        param(query.skip(1), name)
    }
}

proof fn lemma_param_skips(query: Seq<(Seq<char>, Seq<char>)>, name: Seq<char>, k: int)
    requires
        0 <= k <= query.len(),
        forall|i: int| 0 <= i < k ==> #[trigger] query[i].0 != name,
    ensures
        param(query, name) == param(query.skip(k), name),
    decreases k,
{
    if k > 0 {
        lemma_param_skips(query, name, k - 1);
        assert(query.skip(k - 1).skip(1) =~= query.skip(k));
        assert(query.skip(k - 1)[0] == query[k - 1]);
    } else {
        assert(query.skip(0) =~= query);
    }
}

/// Whether a query has a value under a name.
pub open spec fn has_param(query: Seq<(Seq<char>, Seq<char>)>, name: Seq<char>, value: Seq<char>) -> bool {
    query.contains((name, value))
}

impl UrlParts {
    /// The first value of the query under a name.
    pub fn get_param(&self, name: &str) -> (r: Option<String>)
        ensures
            tls::text_of(r) == param(self@.query, name@),
    {
        let wanted = name.to_string();
        let ghost query = self@.query;
        let mut i: usize = 0;
        while i < self.query.len()
            invariant
                i <= self.query@.len(),
                wanted@ == name@,
                query == self@.query,
                forall|k: int| 0 <= k < i ==> #[trigger] query[k].0 != name@,
            decreases self.query@.len() - i,
        {
            if self.query[i].0.eq(&wanted) {
                proof {
                    lemma_param_skips(query, name@, i as int);
                    assert(query.skip(i as int)[0] == query[i as int]);
                }
                return Some(self.query[i].1.as_str().to_string());
            }
            i += 1;
        }
        proof {
            lemma_param_skips(query, name@, query.len() as int);
            assert(query.skip(query.len() as int) =~= Seq::<(Seq<char>, Seq<char>)>::empty());
        }
        None
    }

    /// Whether the query has a value under a name.
    pub fn has_param(&self, name: &str, value: &str) -> (r: bool)
        ensures
            r == has_param(self@.query, name@, value@),
    {
        let wanted = name.to_string();
        let expected = value.to_string();
        let ghost query = self@.query;
        let mut i: usize = 0;
        while i < self.query.len()
            invariant
                i <= self.query@.len(),
                wanted@ == name@,
                expected@ == value@,
                query == self@.query,
                forall|k: int| 0 <= k < i ==> #[trigger] query[k] != (name@, value@),
            decreases self.query@.len() - i,
        {
            if self.query[i].0.eq(&wanted) && self.query[i].1.eq(&expected) {
                assert(query[i as int] == (name@, value@));
                return true;
            }
            i += 1;
        }
        false
    }
}

/// How a TCP connection is set up.
#[derive(Debug, Clone, Copy, PartialEq, Eq, Structural)]
pub struct TcpOptions {
    pub timeout: Option<Duration>,
    pub nodelay: bool,
}

/// What a URL says of the TCP connection: no delay, unless it is switched off;
/// a timeout, if one is given in whole seconds.
pub open spec fn tcp_options(url: UrlView) -> TcpOptions {
    TcpOptions {
        timeout: match param(url.query, "timeout"@) {
            Some(value) => match decimal::parse_unsigned(vstd::utf8::encode_utf8(value), u64::MAX as nat) {
                Ok(secs) => Some(Duration { nanos: (secs * 1_000_000_000) as u128 }),
                Err(_) => None,
            },
            None => None,
        },
        nodelay: !has_param(url.query, "tcp_nodelay"@, "false"@),
    }
}

impl TcpOptions {
    pub fn from_url(url: &UrlParts) -> (r: TcpOptions)
        ensures
            r == tcp_options(url@),
    {
        let nodelay = !url.has_param("tcp_nodelay", "false");
        let timeout = match url.get_param("timeout") {
            Some(value) => match decimal::read_unsigned(value.as_str().as_bytes(), u64::MAX as u128) {
                Ok(secs) => Some(Duration::from_secs(secs as u64)),
                Err(_) => None,
            },
            None => None,
        };
        TcpOptions { timeout, nodelay }
    }
}

/// How a TLS connection is set up.
#[derive(Debug)]
pub struct TlsOptions {
    pub tcp_options: TcpOptions,
    pub config: TlsConfig,
}

/// What a [`TlsOptions`] holds.
pub struct TlsOptionsView {
    pub tcp_options: TcpOptions,
    pub ca_path: Option<Seq<char>>,
    pub key_path: Option<Seq<char>>,
    pub cert_path: Option<Seq<char>>,
    pub verify_mode: VerifyMode,
}

impl View for TlsOptions {
    type V = TlsOptionsView;

    open spec fn view(&self) -> TlsOptionsView {
        TlsOptionsView {
            tcp_options: self.tcp_options,
            ca_path: tls::text_of(self.config.ca_path),
            key_path: tls::text_of(self.config.key_path),
            cert_path: tls::text_of(self.config.cert_path),
            verify_mode: self.config.verify_mode,
        }
    }
}

/// What a URL says of the verification of the server.
pub open spec fn verify_mode(url: UrlView) -> Result<VerifyMode, MemcacheErrorView> {
    match param(url.query, "verify_mode"@) {
        Some(mode) => if mode == "none"@ {
            Ok(VerifyMode::Skip)
        } else if mode == "peer"@ {
            Ok(VerifyMode::Peer)
        } else {
            Err(MemcacheErrorView::BadURL("unknown verify_mode, expected 'none' or 'peer'"@))
        },
        None => Ok(VerifyMode::Peer),
    }
}

/// What a URL says of the TLS connection. A key and a certificate come together
/// or not at all.
pub open spec fn tls_options(url: UrlView) -> Result<TlsOptionsView, MemcacheErrorView> {
    let key_path = param(url.query, "key_path"@);
    let cert_path = param(url.query, "cert_path"@);
    match verify_mode(url) {
        Err(e) => Err(e),
        Ok(verify_mode) => if key_path is Some && cert_path is None {
            Err(MemcacheErrorView::BadURL("cert_path must be specified when key_path is specified"@))
        } else if key_path is None && cert_path is Some {
            Err(MemcacheErrorView::BadURL("key_path must be specified when cert_path is specified"@))
        } else {
            Ok(
                TlsOptionsView {
                    tcp_options: tcp_options(url),
                    ca_path: param(url.query, "ca_path"@),
                    key_path,
                    cert_path,
                    verify_mode,
                },
            )
        },
    }
}

impl TlsOptions {
    pub fn from_url(url: &UrlParts) -> (r: Result<TlsOptions, MemcacheError>)
        ensures
            match r {
                Ok(options) => tls_options(url@) == Ok::<TlsOptionsView, MemcacheErrorView>(options@),
                Err(e) => tls_options(url@) == Err::<TlsOptionsView, MemcacheErrorView>(e@),
            },
    {
        let verify_mode = match url.get_param("verify_mode") {
            Some(mode) => {
                if mode.eq(&"none".to_string()) {
                    VerifyMode::Skip
                } else if mode.eq(&"peer".to_string()) {
                    VerifyMode::Peer
                } else {
                    return Err(
                        MemcacheError::BadURL("unknown verify_mode, expected 'none' or 'peer'".to_string()),
                    );
                }
            },
            None => VerifyMode::Peer,
        };
        let ca_path = url.get_param("ca_path");
        let key_path = url.get_param("key_path");
        let cert_path = url.get_param("cert_path");
        if key_path.is_some() && cert_path.is_none() {
            return Err(
                MemcacheError::BadURL("cert_path must be specified when key_path is specified".to_string()),
            );
        } else if key_path.is_none() && cert_path.is_some() {
            return Err(
                MemcacheError::BadURL("key_path must be specified when cert_path is specified".to_string()),
            );
        }
        Ok(
            TlsOptions {
                tcp_options: TcpOptions::from_url(url),
                config: TlsConfig { ca_path, key_path, cert_path, verify_mode },
            },
        )
    }
}

/// What a connection runs over.
#[derive(Debug)]
pub enum Transport {
    Tcp(TcpOptions),
    Udp,
    Unix,
    Tls(TlsOptions),
}

/// What a [`Transport`] is.
pub enum TransportView {
    Tcp(TcpOptions),
    Udp,
    Unix,
    Tls(TlsOptionsView),
}

impl View for Transport {
    type V = TransportView;

    open spec fn view(&self) -> TransportView {
        match *self {
            Transport::Tcp(options) => TransportView::Tcp(options),
            Transport::Udp => TransportView::Udp,
            Transport::Unix => TransportView::Unix,
            Transport::Tls(options) => TransportView::Tls(options@),
        }
    }
}

/// How far it is to the first plus sign.
pub open spec fn before_plus(scheme: Seq<u8>) -> nat
    decreases scheme.len(),
{
    if scheme.len() == 0 || scheme[0] == 43 {
        0
    } else {
        1 + before_plus(scheme.skip(1))
    }
}

proof fn lemma_before_plus(scheme: Seq<u8>, k: int)
    requires
        0 <= k <= scheme.len(),
        forall|i: int| 0 <= i < k ==> #[trigger] scheme[i] != 43,
        k < scheme.len() ==> scheme[k] == 43,
    ensures
        before_plus(scheme) == k,
    decreases k,
{
    if k > 0 {
        let rest = scheme.skip(1);
        assert forall|i: int| 0 <= i < k - 1 implies #[trigger] rest[i] != 43 by {
            assert(rest[i] == scheme[i + 1]);
        }
        lemma_before_plus(rest, k - 1);
    }
}

/// What a URL asks to connect over. What follows the plus sign of the scheme
/// decides; without it, a query can ask for UDP, and a URL without host and port
/// names a socket file.
pub open spec fn transport(url: UrlView) -> Result<TransportView, MemcacheErrorView> {
    let scheme = vstd::utf8::encode_utf8(url.scheme);
    let k = before_plus(scheme) as int;
    if scheme.take(k) != bytes::utf8("memcache") {
        Err(MemcacheErrorView::BadURL("memcache URL's scheme should start with 'memcache'"@))
    } else if k < scheme.len() {
        let proto = scheme.skip(k + 1);
        if proto == bytes::utf8("tcp") {
            Ok(TransportView::Tcp(tcp_options(url)))
        } else if proto == bytes::utf8("udp") {
            Ok(TransportView::Udp)
        } else if proto == bytes::utf8("unix") {
            Ok(TransportView::Unix)
        } else if proto == bytes::utf8("tls") {
            match tls_options(url) {
                Ok(options) => Ok(TransportView::Tls(options)),
                Err(e) => Err(e),
            }
        } else {
            Err(
                MemcacheErrorView::BadURL(
                    "memcache URL's scheme should be 'memcache+tcp' or 'memcache+udp' or 'memcache+unix' or 'memcache+tls'"@,
                ),
            )
        }
    } else if has_param(url.query, "udp"@, "true"@) {
        Ok(TransportView::Udp)
    } else if url.host is None && url.port is None {
        Ok(TransportView::Unix)
    } else {
        Ok(TransportView::Tcp(tcp_options(url)))
    }
}

impl Transport {
    pub fn from_url(url: &UrlParts) -> (r: Result<Transport, MemcacheError>)
        ensures
            match r {
                Ok(given) => transport(url@) == Ok::<TransportView, MemcacheErrorView>(given@),
                Err(e) => transport(url@) == Err::<TransportView, MemcacheErrorView>(e@),
            },
    {
        let scheme = url.scheme.as_str().as_bytes();
        let mut k: usize = 0;
        while k < scheme.len() && scheme[k] != 43
            invariant
                k <= scheme@.len(),
                forall|i: int| 0 <= i < k ==> #[trigger] scheme@[i] != 43,
            decreases scheme@.len() - k,
        {
            k += 1;
        }
        proof {
            lemma_before_plus(scheme@, k as int);
        }
        let first = vstd::slice::slice_subrange(scheme, 0, k);
        assert(first@ =~= scheme@.take(k as int));
        if !bytes::equal(first, "memcache".as_bytes()) {
            return Err(
                MemcacheError::BadURL("memcache URL's scheme should start with 'memcache'".to_string()),
            );
        }
        // The scheme has the highest priority.
        if k < scheme.len() {
            let proto = vstd::slice::slice_subrange(scheme, k + 1, scheme.len());
            assert(proto@ =~= scheme@.skip(k + 1));
            if bytes::equal(proto, "tcp".as_bytes()) {
                return Ok(Transport::Tcp(TcpOptions::from_url(url)));
            } else if bytes::equal(proto, "udp".as_bytes()) {
                return Ok(Transport::Udp);
            } else if bytes::equal(proto, "unix".as_bytes()) {
                return Ok(Transport::Unix);
            } else if bytes::equal(proto, "tls".as_bytes()) {
                return match TlsOptions::from_url(url) {
                    Ok(options) => Ok(Transport::Tls(options)),
                    Err(e) => Err(e),
                };
            }
            return Err(
                MemcacheError::BadURL(
                    "memcache URL's scheme should be 'memcache+tcp' or 'memcache+udp' or 'memcache+unix' or 'memcache+tls'".to_string(),
                ),
            );
        }
        if url.has_param("udp", "true") {
            return Ok(Transport::Udp);
        }
        if url.host.is_none() && url.port.is_none() {
            return Ok(Transport::Unix);
        }
        Ok(Transport::Tcp(TcpOptions::from_url(url)))
    }
}

/// What it takes to open a connection.
#[derive(Debug)]
pub struct ConnectionPlan {
    pub transport: Transport,
    pub protocol: Protocol,
    /// The name and password to authenticate with once connected.
    pub credentials: Option<(String, String)>,
}

/// What a [`ConnectionPlan`] holds.
pub struct ConnectionPlanView {
    pub transport: TransportView,
    pub protocol: Protocol,
    pub credentials: Option<(Seq<char>, Seq<char>)>,
}

impl View for ConnectionPlan {
    type V = ConnectionPlanView;

    open spec fn view(&self) -> ConnectionPlanView {
        ConnectionPlanView {
            transport: self.transport@,
            protocol: self.protocol,
            credentials: match self.credentials {
                Some((username, password)) => Some((username@, password@)),
                None => None,
            },
        }
    }
}

/// What a URL asks for: the text protocol where its query says so, and to
/// authenticate where it holds a name and a password. A TLS connection needs a
/// host.
pub open spec fn connection_plan(url: UrlView) -> Result<ConnectionPlanView, MemcacheErrorView> {
    match transport(url) {
        Err(e) => Err(e),
        Ok(transport) => if transport is Tls && url.host is None {
            Err(MemcacheErrorView::BadURL("host required for TLS connection"@))
        } else {
            Ok(
                ConnectionPlanView {
                    transport,
                    protocol: if has_param(url.query, "protocol"@, "ascii"@) {
                        Protocol::Ascii
                    } else {
                        Protocol::Binary
                    },
                    credentials: if url.has_authority && url.username.len() > 0 && url.password is Some {
                        Some((url.username, url.password->0))
                    } else {
                        None
                    },
                },
            )
        },
    }
}

/// What has to be known of a connection besides its stream.
#[derive(Debug)]
pub struct Connection {
    pub protocol: Protocol,
    /// Whether the stream may be out of step with the server.
    pub is_dirty: bool,
    pub url: String,
}

impl Connection {
    /// What it takes to open the connection that a URL asks for.
    pub fn plan(url: &UrlParts) -> (r: Result<ConnectionPlan, MemcacheError>)
        ensures
            match r {
                Ok(plan) => connection_plan(url@) == Ok::<ConnectionPlanView, MemcacheErrorView>(plan@),
                Err(e) => connection_plan(url@) == Err::<ConnectionPlanView, MemcacheErrorView>(e@),
            },
    {
        let transport = match Transport::from_url(url) {
            Ok(transport) => transport,
            Err(e) => {
                return Err(e);
            },
        };
        let needs_host = match &transport {
            Transport::Tls(_) => true,
            _ => false,
        };
        if needs_host && url.host.is_none() {
            return Err(MemcacheError::BadURL("host required for TLS connection".to_string()));
        }
        let protocol = if url.has_param("protocol", "ascii") {
            Protocol::Ascii
        } else {
            Protocol::Binary
        };
        let credentials = match &url.password {
            Some(password) => {
                if url.has_authority && !url.username.eq(&"".to_string()) {
                    Some((url.username.as_str().to_string(), password.as_str().to_string()))
                } else {
                    None
                }
            },
            None => None,
        };
        proof {
            reveal_strlit("");
            assert(url.username@.len() == 0 ==> url.username@ =~= ""@);
        }
        Ok(ConnectionPlan { transport, protocol, credentials })
    }

    /// A connection that has just been opened.
    pub fn new(url: &UrlParts, protocol: Protocol) -> (r: Connection)
        ensures
            r.protocol == protocol,
            !r.is_dirty,
            r.url@ == url.text@,
    {
        Connection { protocol, is_dirty: false, url: url.text.as_str().to_string() }
    }

    /// Take note of how an operation went, and pass it on. An error that the
    /// connection does not recover from makes it dirty; any other error clears
    /// the mark.
    pub fn note<T>(&mut self, outcome: Result<T, MemcacheError>) -> (r: Result<T, MemcacheError>)
        ensures
            r == outcome,
            final(self).protocol == old(self).protocol,
            final(self).url == old(self).url,
            final(self).is_dirty == (match outcome {
                Ok(_) => old(self).is_dirty,
                Err(e) => !e@.is_recoverable(),
            }),
    {
        match outcome {
            Ok(value) => Ok(value),
            Err(e) => {
                self.is_dirty = !e.is_recoverable();
                Err(e)
            },
        }
    }
}

} // verus!
