//! The classic client: where it connects to, how it is set up, and which of
//! its servers a key goes to.

use std::collections::hash_map::DefaultHasher;
use std::hash::{Hash, Hasher};

use vstd::prelude::*;
use vstd::std_specs::hash::*;
use vstd::string::*;

use crate::bytes;
use crate::connection;
use crate::connection::{parse_url, UrlParts, UrlView};
use crate::error::{ClientError, ClientErrorView, MemcacheError, MemcacheErrorView};
use crate::exp::router;
use crate::exp::router::join_host_and_port;
use crate::text;
use crate::time::Duration;

verus! {

/// What can be connected to.
pub trait Connectable: Sized {
    /// The URLs, as texts.
    open spec fn urls_spec(self) -> Seq<Seq<char>> {
        arbitrary()
    }

    /// The URLs of the servers.
    fn get_urls(self) -> (r: Vec<String>)
        ensures
            router::texts(r@) == self.urls_spec(),
    ;
}

impl Connectable for (&str, u16) {
    open spec fn urls_spec(self) -> Seq<Seq<char>> {
        seq![router::host_and_port(self.0@, self.1)]
    }

    fn get_urls(self) -> (r: Vec<String>) {
        let mut urls: Vec<String> = Vec::new();
        urls.push(join_host_and_port(self.0, self.1));
        assert(router::texts(urls@) =~= self.urls_spec());
        urls
    }
}

impl Connectable for &[(&str, u16)] {
    open spec fn urls_spec(self) -> Seq<Seq<char>> {
        Seq::new(self@.len(), |i: int| router::host_and_port(self@[i].0@, self@[i].1))
    }

    fn get_urls(self) -> (r: Vec<String>) {
        let mut urls: Vec<String> = Vec::new();
        let mut i: usize = 0;
        while i < self.len()
            invariant
                i <= self@.len(),
                urls@.len() == i,
                forall|k: int| 0 <= k < i ==> (#[trigger] urls@[k])@ == self.urls_spec()[k],
            decreases self@.len() - i,
        {
            let (host, port) = self[i];
            urls.push(join_host_and_port(host, port));
            i += 1;
        }
        assert(router::texts(urls@) =~= self.urls_spec());
        urls
    }
}

impl Connectable for String {
    open spec fn urls_spec(self) -> Seq<Seq<char>> {
        seq![self@]
    }

    fn get_urls(self) -> (r: Vec<String>) {
        let ghost text = self@;
        let mut urls: Vec<String> = Vec::new();
        urls.push(self);
        assert(router::texts(urls@) =~= seq![text]);
        urls
    }
}

impl Connectable for Vec<String> {
    open spec fn urls_spec(self) -> Seq<Seq<char>> {
        router::texts(self@)
    }

    fn get_urls(self) -> (r: Vec<String>) {
        self
    }
}

impl Connectable for &str {
    open spec fn urls_spec(self) -> Seq<Seq<char>> {
        seq![self@]
    }

    fn get_urls(self) -> (r: Vec<String>) {
        let mut urls: Vec<String> = Vec::new();
        urls.push(self.to_string());
        assert(router::texts(urls@) =~= seq![self@]);
        urls
    }
}

impl Connectable for Vec<&str> {
    open spec fn urls_spec(self) -> Seq<Seq<char>> {
        Seq::new(self@.len(), |i: int| self@[i]@)
    }

    fn get_urls(self) -> (r: Vec<String>) {
        let mut urls: Vec<String> = Vec::new();
        let mut i: usize = 0;
        while i < self.len()
            invariant
                i <= self@.len(),
                urls@.len() == i,
                forall|k: int| 0 <= k < i ==> (#[trigger] urls@[k])@ == self.urls_spec()[k],
            decreases self@.len() - i,
        {
            urls.push(self[i].to_string());
            i += 1;
        }
        assert(router::texts(urls@) =~= self.urls_spec());
        urls
    }
}

/// The longest key that is sent.
pub const MAX_KEY_LENGTH: usize = 250;

/// Whether a key, given by its bytes, is short enough.
pub open spec fn key_fits(key: Seq<u8>) -> bool {
    key.len() <= MAX_KEY_LENGTH
}

pub open spec fn key_too_long() -> MemcacheErrorView {
    MemcacheErrorView::ClientError(ClientErrorView::KeyTooLong)
}

/// Check the length of a key.
pub fn check_key_len(key: &str) -> (r: Result<(), MemcacheError>)
    ensures
        match r {
            Ok(_) => key_fits(bytes::utf8(key)),
            Err(e) => !key_fits(bytes::utf8(key)) && e@ == key_too_long(),
        },
{
    if key.as_bytes().len() > MAX_KEY_LENGTH {
        return Err(MemcacheError::ClientError(ClientError::KeyTooLong));
    }
    Ok(())
}

/// What `Hash for str` feeds to a hasher for a text.
pub uninterp spec fn text_parts(text: Seq<char>) -> Seq<Seq<u8>>;

/// Calls `<str as std::hash::Hash>::hash` with a `DefaultHasher`. Equal texts
/// are fed to the hasher in the same way. What is fed is named and not spelled
/// out.
#[verifier::external_body]
fn feed_text(text: &str, hasher: &mut DefaultHasher)
    ensures
        final(hasher)@ == old(hasher)@ + text_parts(text@),
{
    text.hash(hasher);
}

/// The hash of a text by a fresh `DefaultHasher`.
pub open spec fn default_hash(text: Seq<char>) -> u64 {
    DefaultHasher::spec_finish(text_parts(text))
}

/// The default key hash: [`DefaultHasher`] over the key.
pub fn default_hash_function(key: &str) -> (r: u64)
    ensures
        r == default_hash(key@),
{
    let mut hasher = DefaultHasher::new();
    feed_text(key, &mut hasher);
    assert(hasher@ =~= text_parts(key@));
    hasher.finish()
}

/// A key hash, by which the client picks a server.
pub trait KeyHash {
    fn hash(&self, key: &str) -> u64;
}

/// [`default_hash_function`] as a [`KeyHash`].
#[derive(Clone, Copy, Debug)]
pub struct DefaultKeyHash;

impl KeyHash for DefaultKeyHash {
    fn hash(&self, key: &str) -> (r: u64)
        ensures
            r == default_hash(key@),
    {
        default_hash_function(key)
    }
}

/// How the connections to a server are pooled and timed.
#[derive(Debug, Clone, Copy, PartialEq, Eq, Structural)]
pub struct PoolOptions {
    pub max_size: u32,
    pub min_idle: Option<u32>,
    pub max_lifetime: Option<Duration>,
    pub read_timeout: Option<Duration>,
    pub write_timeout: Option<Duration>,
    pub connection_timeout: Option<Duration>,
}

impl PoolOptions {
    /// One connection, and nothing else said.
    pub open spec fn plain() -> PoolOptions {
        PoolOptions {
            max_size: 1,
            min_idle: None,
            max_lifetime: None,
            read_timeout: None,
            write_timeout: None,
            connection_timeout: None,
        }
    }
}

/// The error of a client without servers.
pub open spec fn no_servers() -> MemcacheErrorView {
    MemcacheErrorView::BadURL("No servers specified"@)
}

/// Why the client does not take a URL, if it does not.
pub open spec fn scheme_fault(url: UrlView) -> Option<MemcacheErrorView> {
    if url.scheme == "memcache"@ || url.scheme == "memcache+tls"@ || url.scheme == "memcache+udp"@ {
        None
    } else {
        Some(MemcacheErrorView::BadURL("Unsupported protocol: "@ + url.scheme))
    }
}

/// Check that the client takes a URL.
pub fn check_scheme(url: &UrlParts) -> (r: Result<(), MemcacheError>)
    ensures
        match r {
            Ok(_) => scheme_fault(url@) is None,
            Err(e) => scheme_fault(url@) == Some(e@),
        },
{
    if url.scheme.eq(&"memcache".to_string()) || url.scheme.eq(&"memcache+tls".to_string()) || url.scheme.eq(
        &"memcache+udp".to_string(),
    ) {
        Ok(())
    } else {
        Err(MemcacheError::BadURL(text::join("Unsupported protocol: ", url.scheme.as_str())))
    }
}

/// Why a target is no server, if it is none.
pub open spec fn target_fault(target: Seq<char>) -> Option<MemcacheErrorView> {
    match connection::url_parsed(target) {
        Err(message) => Some(MemcacheErrorView::BadURL(message)),
        Ok(url) => scheme_fault(url),
    }
}

/// Why targets are no servers: the fault of the first that has one.
pub open spec fn targets_fault(targets: Seq<Seq<char>>) -> Option<MemcacheErrorView>
    decreases targets.len(),
{
    if targets.len() == 0 {
        None
    } else {
        match targets_fault(targets.drop_last()) {
            Some(e) => Some(e),
            None => target_fault(targets.last()),
        }
    }
}

proof fn lemma_targets_fault_stays(targets: Seq<Seq<char>>, k: int)
    requires
        0 <= k <= targets.len(),
        targets_fault(targets.take(k)) is Some,
    ensures
        targets_fault(targets) == targets_fault(targets.take(k)),
    decreases targets.len() - k,
{
    if k < targets.len() {
        assert(targets.take(k + 1).drop_last() =~= targets.take(k));
        lemma_targets_fault_stays(targets, k + 1);
    } else {
        assert(targets.take(k) =~= targets);
    }
}

/// What a client is set up with.
pub struct ClientBuilder<H> {
    pub targets: Vec<String>,
    pub pool: PoolOptions,
    pub hash_function: H,
}

impl ClientBuilder<DefaultKeyHash> {
    pub fn new() -> (r: ClientBuilder<DefaultKeyHash>)
        ensures
            r.targets@ == Seq::<String>::empty(),
            r.pool == PoolOptions::plain(),
            r.hash_function == DefaultKeyHash,
    {
        ClientBuilder {
            targets: Vec::new(),
            pool: PoolOptions {
                max_size: 1,
                min_idle: None,
                max_lifetime: None,
                read_timeout: None,
                write_timeout: None,
                connection_timeout: None,
            },
            hash_function: DefaultKeyHash,
        }
    }
}

impl<H: KeyHash> ClientBuilder<H> {
    /// What the client is that is built, or why there is none.
    pub open spec fn builds(self, r: Result<Client<H>, MemcacheError>) -> bool {
        match r {
            Ok(client) => {
                &&& self.targets@.len() > 0
                &&& targets_fault(router::texts(self.targets@)) is None
                &&& client.servers@.len() == self.targets@.len()
                &&& forall|i: int|
                    0 <= i < self.targets@.len() ==> connection::url_parsed(self.targets@[i]@) == Ok::<
                        UrlView,
                        Seq<char>,
                    >(#[trigger] client.servers@[i]@)
                &&& client.pool == self.pool
                &&& client.hash_function == self.hash_function
                &&& client.well_formed()
            },
            Err(e) => if self.targets@.len() == 0 {
                e@ == no_servers()
            } else {
                targets_fault(router::texts(self.targets@)) == Some(e@)
            },
        }
    }

    /// Add one or more memcached servers to the client.
    pub fn add_server<C: Connectable>(self, target: C) -> (r: Result<ClientBuilder<H>, MemcacheError>)
        ensures
            match r {
                Ok(builder) => target.urls_spec().len() > 0 && router::texts(builder.targets@) == router::texts(
                    self.targets@,
                ) + target.urls_spec() && builder.pool == self.pool && builder.hash_function == self.hash_function,
                Err(e) => target.urls_spec().len() == 0 && e@ == no_servers(),
            },
    {
        let mut urls = target.get_urls();
        if urls.len() == 0 {
            return Err(MemcacheError::BadURL("No servers specified".to_string()));
        }
        let mut builder = self;
        builder.targets.append(&mut urls);
        assert(router::texts(builder.targets@) =~= router::texts(self.targets@) + target.urls_spec());
        Ok(builder)
    }

    /// Set the maximum number of connections managed by the pool.
    pub fn with_max_pool_size(self, max_size: u32) -> (r: ClientBuilder<H>)
        ensures
            r == (ClientBuilder { pool: PoolOptions { max_size, ..self.pool }, ..self }),
    {
        let mut builder = self;
        builder.pool.max_size = max_size;
        builder
    }

    /// Set the minimum number of idle connections to maintain in the pool.
    pub fn with_min_idle_conns(self, min_idle: u32) -> (r: ClientBuilder<H>)
        ensures
            r == (ClientBuilder { pool: PoolOptions { min_idle: Some(min_idle), ..self.pool }, ..self }),
    {
        let mut builder = self;
        builder.pool.min_idle = Some(min_idle);
        builder
    }

    /// Set the maximum lifetime of connections in the pool.
    pub fn with_max_conn_lifetime(self, max_lifetime: Duration) -> (r: ClientBuilder<H>)
        ensures
            r == (ClientBuilder { pool: PoolOptions { max_lifetime: Some(max_lifetime), ..self.pool }, ..self }),
    {
        let mut builder = self;
        builder.pool.max_lifetime = Some(max_lifetime);
        builder
    }

    /// Set the socket read timeout.
    pub fn with_read_timeout(self, read_timeout: Duration) -> (r: ClientBuilder<H>)
        ensures
            r == (ClientBuilder { pool: PoolOptions { read_timeout: Some(read_timeout), ..self.pool }, ..self }),
    {
        let mut builder = self;
        builder.pool.read_timeout = Some(read_timeout);
        builder
    }

    /// Set the socket write timeout.
    pub fn with_write_timeout(self, write_timeout: Duration) -> (r: ClientBuilder<H>)
        ensures
            r == (ClientBuilder { pool: PoolOptions { write_timeout: Some(write_timeout), ..self.pool }, ..self }),
    {
        let mut builder = self;
        builder.pool.write_timeout = Some(write_timeout);
        builder
    }

    /// Set the connection timeout.
    pub fn with_connection_timeout(self, connection_timeout: Duration) -> (r: ClientBuilder<H>)
        ensures
            r == (ClientBuilder {
                pool: PoolOptions { connection_timeout: Some(connection_timeout), ..self.pool },
                ..self
            }),
    {
        let mut builder = self;
        builder.pool.connection_timeout = Some(connection_timeout);
        builder
    }

    /// Set the hash function that picks a server for a key.
    pub fn with_hash_function<G: KeyHash>(self, hash_function: G) -> (r: ClientBuilder<G>)
        ensures
            r.targets == self.targets,
            r.pool == self.pool,
            r.hash_function == hash_function,
    {
        ClientBuilder { targets: self.targets, pool: self.pool, hash_function }
    }

    /// Build the client. It needs a server, and takes each of its URLs by its
    /// scheme.
    pub fn build(self) -> (r: Result<Client<H>, MemcacheError>)
        ensures
            self.builds(r),
    {
        if self.targets.len() == 0 {
            return Err(MemcacheError::BadURL("No servers specified".to_string()));
        }
        let ghost targets = router::texts(self.targets@);
        let mut servers: Vec<UrlParts> = Vec::new();
        let mut i: usize = 0;
        assert(targets.take(0) =~= Seq::<Seq<char>>::empty());
        while i < self.targets.len()
            invariant
                i <= self.targets@.len(),
                self.targets@.len() > 0,
                targets == router::texts(self.targets@),
                targets_fault(targets.take(i as int)) is None,
                servers@.len() == i,
                forall|k: int|
                    0 <= k < i ==> connection::url_parsed(self.targets@[k]@) == Ok::<UrlView, Seq<char>>(
                        #[trigger] servers@[k]@,
                    ),
            decreases self.targets@.len() - i,
        {
            assert(targets.take(i + 1).drop_last() =~= targets.take(i as int));
            assert(targets.take(i + 1).last() == self.targets@[i as int]@);
            let url = match parse_url(self.targets[i].as_str()) {
                Ok(url) => url,
                Err(e) => {
                    proof {
                        lemma_targets_fault_stays(targets, i + 1);
                    }
                    return Err(e);
                },
            };
            match check_scheme(&url) {
                Ok(_) => {},
                Err(e) => {
                    proof {
                        lemma_targets_fault_stays(targets, i + 1);
                    }
                    return Err(e);
                },
            }
            servers.push(url);
            i += 1;
        }
        assert(targets.take(i as int) =~= targets);
        Ok(Client { servers, pool: self.pool, hash_function: self.hash_function })
    }
}

/// The servers of a client, and how it reaches them.
pub struct Client<H> {
    pub servers: Vec<UrlParts>,
    pub pool: PoolOptions,
    pub hash_function: H,
}

/// The fault of the first URL that cannot be taken apart.
pub open spec fn urls_fault(urls: Seq<Seq<char>>) -> Option<MemcacheErrorView>
    decreases urls.len(),
{
    if urls.len() == 0 {
        None
    } else {
        match urls_fault(urls.drop_last()) {
            Some(e) => Some(e),
            None => match connection::url_parsed(urls.last()) {
                Ok(_) => None,
                Err(message) => Some(MemcacheErrorView::BadURL(message)),
            },
        }
    }
}

proof fn lemma_urls_fault_stays(urls: Seq<Seq<char>>, k: int)
    requires
        0 <= k <= urls.len(),
        urls_fault(urls.take(k)) is Some,
    ensures
        urls_fault(urls) == urls_fault(urls.take(k)),
    decreases urls.len() - k,
{
    if k < urls.len() {
        assert(urls.take(k + 1).drop_last() =~= urls.take(k));
        lemma_urls_fault_stays(urls, k + 1);
    } else {
        assert(urls.take(k) =~= urls);
    }
}

impl Client<DefaultKeyHash> {
    /// A client whose pools hold up to `size` connections. It takes any URL,
    /// and no URL at all.
    pub fn with_pool_size<C: Connectable>(target: C, size: u32) -> (r: Result<Client<DefaultKeyHash>, MemcacheError>)
        ensures
            match r {
                Ok(client) => {
                    &&& urls_fault(target.urls_spec()) is None
                    &&& client.servers@.len() == target.urls_spec().len()
                    &&& forall|i: int|
                        0 <= i < target.urls_spec().len() ==> connection::url_parsed(target.urls_spec()[i]) == Ok::<
                            UrlView,
                            Seq<char>,
                        >(#[trigger] client.servers@[i]@)
                    &&& client.pool == (PoolOptions { max_size: size, ..PoolOptions::plain() })
                    &&& client.hash_function == DefaultKeyHash
                },
                Err(e) => urls_fault(target.urls_spec()) == Some(e@),
            },
    {
        let ghost all = target.urls_spec();
        let urls = target.get_urls();
        let mut servers: Vec<UrlParts> = Vec::new();
        assert(all.take(0) =~= Seq::<Seq<char>>::empty());
        while servers.len() < urls.len()
            invariant
                servers@.len() <= urls@.len(),
                all == target.urls_spec(),
                all == router::texts(urls@),
                urls_fault(all.take(servers@.len() as int)) is None,
                forall|i: int|
                    0 <= i < servers@.len() ==> connection::url_parsed(all[i]) == Ok::<UrlView, Seq<char>>(
                        #[trigger] servers@[i]@,
                    ),
            decreases urls@.len() - servers@.len(),
        {
            let ghost n = servers@.len() as int;
            assert(all.take(n + 1).drop_last() =~= all.take(n));
            assert(all.take(n + 1).last() == all[n]);
            match parse_url(urls[servers.len()].as_str()) {
                Ok(url) => servers.push(url),
                Err(e) => {
                    proof {
                        lemma_urls_fault_stays(all, n + 1);
                    }
                    return Err(e);
                },
            }
        }
        assert(all.take(servers@.len() as int) =~= all);
        let pool = ClientBuilder::new().with_max_pool_size(size).pool;
        Ok(Client { servers, pool, hash_function: DefaultKeyHash })
    }
}

/// The server that a hash picks out of so many.
pub open spec fn index_of(hash: u64, servers: nat) -> int {
    (hash as usize) as int % servers as int
}

/// Whether a hash, counted round so many servers, ends on a server: cut to a
/// machine word, it is some number of full rounds and that server's number.
pub open spec fn ends_on(hash: u64, servers: nat, server: int) -> bool {
    &&& 0 <= server < servers
    &&& exists|rounds: int| (hash as usize) as int == #[trigger] (rounds * servers) + server
}

/// A hash picks the one server that it ends on. So hashes below the number of
/// servers pick the server of that number, every server is picked by some hash,
/// and a hash that is one round further on picks the same server.
pub proof fn lemma_hash_picks_where_it_ends(hash: u64, next: u64, servers: nat, server: int)
    requires
        0 < servers <= usize::MAX,
    ensures
        ends_on(hash, servers, index_of(hash, servers)),
        ends_on(hash, servers, server) ==> server == index_of(hash, servers),
        hash < servers ==> index_of(hash, servers) == hash,
        0 <= server < servers ==> index_of(server as u64, servers) == server,
        next as usize == (hash as usize) + servers ==> index_of(next, servers) == index_of(hash, servers),
{
    let word = (hash as usize) as int;
    let n = servers as int;
    vstd::arithmetic::div_mod::lemma_fundamental_div_mod(word, n);
    let rounds = word / n;
    assert(n * rounds == rounds * n) by (nonlinear_arith);
    assert(word == rounds * servers + index_of(hash, servers));
    assert(0 <= word % n < n) by (nonlinear_arith)
        requires
            n > 0,
    ;
    if ends_on(hash, servers, server) {
        let turns = choose|rounds: int| (hash as usize) as int == #[trigger] (rounds * servers) + server;
        vstd::arithmetic::div_mod::lemma_fundamental_div_mod_converse(word, n, turns, server);
    }
    if hash < servers {
        assert(hash as usize == hash);
        vstd::arithmetic::div_mod::lemma_small_mod(hash as nat, servers);
    }
    if 0 <= server < servers {
        assert((server as u64) as usize == server);
        vstd::arithmetic::div_mod::lemma_small_mod(server as nat, servers);
    }
    vstd::arithmetic::div_mod::lemma_mod_add_multiples_vanish(word, n);
}

/// Whether a key, by some hash that the function gives for it, goes to a server.
pub open spec fn picks<H: KeyHash>(hash_function: H, key: Seq<char>, servers: nat, server: int) -> bool {
    exists|given: &str, hash: u64|
        given@ == key && #[trigger] call_ensures(H::hash, (&hash_function, given), hash) && server == index_of(
            hash,
            servers,
        )
}

/// The keys that go to one server, in the order in which they were given, when
/// each key goes where its route says.
pub open spec fn assigned(keys: Seq<Seq<char>>, routes: Seq<int>, server: int) -> Seq<Seq<char>>
    decreases keys.len(),
{
    if keys.len() == 0 {
        Seq::empty()
    } else {
        let before = assigned(keys.drop_last(), routes.drop_last(), server);
        if routes.last() == server {
            before.push(keys.last())
        } else {
            before
        }
    }
}

/// Keys are shared out in order: one key more goes behind those of its server and
/// leaves the others as they were.
pub proof fn lemma_keys_keep_their_order(
    keys: Seq<Seq<char>>,
    routes: Seq<int>,
    key: Seq<char>,
    route: int,
    server: int,
)
    requires
        routes.len() == keys.len(),
    ensures
        assigned(Seq::empty(), Seq::empty(), server).len() == 0,
        route == server ==> assigned(keys.push(key), routes.push(route), server) == assigned(keys, routes, server).push(
            key,
        ),
        route != server ==> assigned(keys.push(key), routes.push(route), server) == assigned(keys, routes, server),
{
    assert(keys.push(key).drop_last() =~= keys);
    assert(routes.push(route).drop_last() =~= routes);
}

/// A key fits up to 250 bytes, and a longer one is too long.
pub proof fn lemma_longest_key(key: Seq<u8>)
    ensures
        key_fits(key) <==> key.len() <= 250,
        key_too_long() == MemcacheErrorView::ClientError(ClientErrorView::KeyTooLong),
{
}

/// Keys are shared out whole: a server has the keys whose route leads to it and
/// no others.
pub proof fn lemma_keys_are_shared_out(keys: Seq<Seq<char>>, routes: Seq<int>, server: int, key: Seq<char>)
    requires
        routes.len() == keys.len(),
    ensures
        assigned(keys, routes, server).contains(key) <==> exists|i: int|
            0 <= i < keys.len() && #[trigger] keys[i] == key && routes[i] == server,
    decreases keys.len(),
{
    let mine = assigned(keys, routes, server);
    if keys.len() > 0 {
        let before = keys.drop_last();
        let ways = routes.drop_last();
        lemma_keys_are_shared_out(before, ways, server, key);
        let earlier = assigned(before, ways, server);
        lemma_push_contains(earlier, keys.last(), key);
        if mine.contains(key) {
            if earlier.contains(key) {
                let i = choose|i: int| 0 <= i < before.len() && #[trigger] before[i] == key && ways[i] == server;
                assert(keys[i] == key && routes[i] == server);
            } else {
                assert(keys[keys.len() - 1] == key && routes[keys.len() - 1] == server);
            }
        }
        if exists|i: int| 0 <= i < keys.len() && #[trigger] keys[i] == key && routes[i] == server {
            let i = choose|i: int| 0 <= i < keys.len() && #[trigger] keys[i] == key && routes[i] == server;
            if i < before.len() {
                assert(before[i] == key && ways[i] == server);
            }
        }
    }
}

proof fn lemma_push_contains(list: Seq<Seq<char>>, last: Seq<char>, key: Seq<char>)
    ensures
        list.push(last).contains(key) <==> list.contains(key) || key == last,
{
    let longer = list.push(last);
    if list.contains(key) {
        let i = choose|i: int| 0 <= i < list.len() && list[i] == key;
        assert(longer[i] == key);
    }
    if longer.contains(key) {
        let i = choose|i: int| 0 <= i < longer.len() && longer[i] == key;
        if i < list.len() {
            assert(list[i] == key);
        }
    }
    assert(longer[list.len() as int] == last);
}

/// Whether every key is short enough.
pub open spec fn all_fit(keys: Seq<String>) -> bool {
    forall|i: int| 0 <= i < keys.len() ==> key_fits(vstd::utf8::encode_utf8(#[trigger] keys[i]@))
}

impl<H: KeyHash> Client<H> {
    /// A client has a server.
    pub open spec fn well_formed(self) -> bool {
        self.servers@.len() > 0
    }

    /// The server that a key goes to.
    pub fn get_connection(&self, key: &str) -> (r: usize)
        requires
            self.well_formed(),
        ensures
            r < self.servers@.len(),
            exists|hash: u64| #[trigger]
                call_ensures(H::hash, (&self.hash_function, key), hash) && r == index_of(hash, self.servers@.len())
                    && ends_on(hash, self.servers@.len(), r as int),
    {
        let hash = self.hash_function.hash(key);
        let servers: usize = self.servers.len();
        proof {
            lemma_hash_picks_where_it_ends(hash, hash, servers as nat, 0);
        }
        (#[verifier::truncate] (hash as usize)) % servers
    }

    /// Whether keys are shared out along routes: each key goes where its hash
    /// leads, and each server has the keys that go there.
    pub open spec fn shares_out(self, keys: Seq<String>, routes: Seq<int>, groups: Seq<Vec<String>>) -> bool {
        &&& routes.len() == keys.len()
        &&& groups.len() == self.servers@.len()
        &&& forall|i: int|
            0 <= i < keys.len() ==> picks(self.hash_function, keys[i]@, self.servers@.len(), #[trigger] routes[i])
        &&& forall|s: int|
            0 <= s < groups.len() ==> router::texts((#[trigger] groups[s])@) == assigned(
                router::texts(keys),
                routes,
                s,
            )
    }

    /// Whether keys are shared out along some routes.
    pub open spec fn is_shared_out(self, keys: Seq<String>, groups: Seq<Vec<String>>) -> bool {
        exists|routes: Seq<int>| #[trigger] self.shares_out(keys, routes, groups)
    }

    /// The keys of a multi-get, shared out to the servers.
    pub fn share_out(&self, keys: &Vec<String>) -> (r: Result<Vec<Vec<String>>, MemcacheError>)
        requires
            self.well_formed(),
        ensures
            match r {
                Ok(groups) => all_fit(keys@) && self.is_shared_out(keys@, groups@),
                Err(e) => !all_fit(keys@) && e@ == key_too_long(),
            },
    {
        let mut i: usize = 0;
        while i < keys.len()
            invariant
                i <= keys@.len(),
                forall|k: int| 0 <= k < i ==> key_fits(vstd::utf8::encode_utf8(#[trigger] keys@[k]@)),
            decreases keys@.len() - i,
        {
            match check_key_len(keys[i].as_str()) {
                Ok(_) => {},
                Err(e) => {
                    assert(!key_fits(vstd::utf8::encode_utf8(keys@[i as int]@)));
                    return Err(e);
                },
            }
            i += 1;
        }
        assert(all_fit(keys@));
        let mut groups: Vec<Vec<String>> = Vec::new();
        let mut s: usize = 0;
        while s < self.servers.len()
            invariant
                s <= self.servers@.len(),
                groups@.len() == s,
                forall|k: int| 0 <= k < s ==> (#[trigger] groups@[k])@ == Seq::<String>::empty(),
            decreases self.servers@.len() - s,
        {
            groups.push(Vec::new());
            s += 1;
        }
        let ghost mut routes: Seq<int> = Seq::empty();
        let mut i: usize = 0;
        proof {
            assert(keys@.take(0) =~= Seq::<String>::empty());
            assert(router::texts(keys@.take(0)) =~= Seq::<Seq<char>>::empty());
            assert forall|s: int| 0 <= s < groups@.len() implies router::texts((#[trigger] groups@[s])@) == assigned(
                router::texts(keys@.take(0)),
                routes,
                s,
            ) by {
                assert(router::texts(groups@[s]@) =~= Seq::<Seq<char>>::empty());
            }
        }
        while i < keys.len()
            invariant
                i <= keys@.len(),
                self.well_formed(),
                self.shares_out(keys@.take(i as int), routes, groups@),
            decreases keys@.len() - i,
        {
            let server = self.get_connection(keys[i].as_str());
            let ghost before = groups@;
            let ghost ways = routes;
            groups[server].push(keys[i].as_str().to_string());
            proof {
                routes = routes.push(server as int);
                let shorter = keys@.take(i as int);
                let longer = keys@.take(i + 1);
                let key = keys@[i as int]@;
                assert(picks(self.hash_function, key, self.servers@.len(), server as int));
                assert(router::texts(longer).drop_last() =~= router::texts(shorter));
                assert(router::texts(longer).last() == key);
                assert(routes.drop_last() =~= ways);
                assert forall|k: int| 0 <= k < longer.len() implies picks(
                    self.hash_function,
                    longer[k]@,
                    self.servers@.len(),
                    #[trigger] routes[k],
                ) by {
                    if k < i {
                        assert(shorter[k] == longer[k] && ways[k] == routes[k]);
                    }
                }
                assert forall|s: int| 0 <= s < groups@.len() implies router::texts((#[trigger] groups@[s])@)
                    == assigned(router::texts(longer), routes, s) by {
                    if s == server {
                        assert(router::texts(groups@[s]@) =~= router::texts(before[s]@).push(key));
                    } else {
                        assert(groups@[s] == before[s]);
                    }
                }
            }
            i += 1;
        }
        assert(keys@.take(i as int) =~= keys@);
        assert(self.shares_out(keys@, routes, groups@));
        Ok(groups)
    }
}

/// Building a client takes each target, in order, as the address it was parsed to, and
/// keeps the pool's options and the hash function. It is refused without a target,
/// and by the first target that is no address or has an unknown scheme.
pub proof fn lemma_clients_are_built_from_their_targets<H: KeyHash>(
    builder: ClientBuilder<H>,
    r: Result<Client<H>, MemcacheError>,
    i: int,
)
    requires
        builder.builds(r),
    ensures
        match r {
            Ok(client) => {
                &&& builder.targets@.len() > 0
                &&& client.servers@.len() == builder.targets@.len()
                &&& client.pool == builder.pool
                &&& client.hash_function == builder.hash_function
                &&& 0 <= i < builder.targets@.len() ==> connection::url_parsed(builder.targets@[i]@) == Ok::<
                    UrlView,
                    Seq<char>,
                >(client.servers@[i]@)
                &&& targets_fault(router::texts(builder.targets@)) is None
            },
            Err(e) => if builder.targets@.len() == 0 {
                e@ == MemcacheErrorView::BadURL("No servers specified"@)
            } else {
                targets_fault(router::texts(builder.targets@)) == Some(e@)
            },
        },
{
}

/// A multi-get asks the server of each key, by the key's hash: a key stands in the
/// group of the server that one of its hashes ends on.
pub proof fn lemma_shared_keys_go_where_they_end<H: KeyHash>(
    client: Client<H>,
    keys: Seq<String>,
    routes: Seq<int>,
    groups: Seq<Vec<String>>,
    i: int,
)
    requires
        0 < client.servers@.len() <= usize::MAX,
        client.shares_out(keys, routes, groups),
        0 <= i < keys.len(),
    ensures
        groups.len() == client.servers@.len(),
        0 <= routes[i] < groups.len(),
        exists|given: &str, hash: u64|
            {
                &&& given@ == keys[i]@
                &&& #[trigger] call_ensures(H::hash, (&client.hash_function, given), hash)
                &&& ends_on(hash, client.servers@.len(), routes[i])
            },
        router::texts(groups[routes[i]]@).contains(keys[i]@),
{
    let n = client.servers@.len();
    assert(picks(client.hash_function, keys[i]@, n, routes[i]));
    let (given, hash): (&str, u64) = choose|given: &str, hash: u64|
        given@ == keys[i]@ && #[trigger] call_ensures(H::hash, (&client.hash_function, given), hash) && routes[i]
            == index_of(hash, n);
    lemma_hash_picks_where_it_ends(hash, hash, n, 0);
    lemma_keys_are_shared_out(router::texts(keys), routes, routes[i], keys[i]@);
    assert(router::texts(keys)[i] == keys[i]@);
}

/// Keys fit together where each is at most 250 bytes.
pub proof fn lemma_keys_fit_together(keys: Seq<String>)
    ensures
        all_fit(keys) <==> forall|i: int|
            0 <= i < keys.len() ==> vstd::utf8::encode_utf8(#[trigger] keys[i]@).len() <= 250,
{
}

} // verus!
