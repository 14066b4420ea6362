//! What setting up a client keeps: every setting changes what it names and leaves
//! the others as they were.

use vstd::prelude::*;

use crate::client;
use crate::client::{ClientBuilder, DefaultKeyHash, KeyHash};
use crate::error::MemcacheError;
use crate::exp::client::MetaClientBuilder;
use crate::exp::router::Router;
use crate::time::Duration;

verus! {

/// A client is set up from nothing: no servers, one connection, and no limit on idle
/// connections, on their age or on waiting.
pub proof fn lemma_plain_setup(builder: ClientBuilder<DefaultKeyHash>)
    requires
        call_ensures(ClientBuilder::<DefaultKeyHash>::new, (), builder),
    ensures
        builder.targets@.len() == 0,
        builder.pool.max_size == 1,
        builder.pool.min_idle is None,
        builder.pool.max_lifetime is None,
        builder.pool.read_timeout is None,
        builder.pool.write_timeout is None,
        builder.pool.connection_timeout is None,
{
}

/// How many connections there are at most, and how many are kept idle, are set
/// apart from each other and from all else.
pub proof fn lemma_connection_counts_are_set<H: KeyHash>(
    builder: ClientBuilder<H>,
    count: u32,
    sized: ClientBuilder<H>,
    idle: ClientBuilder<H>,
)
    requires
        call_ensures(ClientBuilder::<H>::with_max_pool_size, (builder, count), sized),
        call_ensures(ClientBuilder::<H>::with_min_idle_conns, (builder, count), idle),
    ensures
        sized.pool.max_size == count,
        sized.pool.min_idle == builder.pool.min_idle,
        idle.pool.min_idle == Some(count),
        idle.pool.max_size == builder.pool.max_size,
        forall|set: ClientBuilder<H>| #[trigger]
            is_one_of(set, sized, idle) ==> {
                &&& set.targets == builder.targets
                &&& set.hash_function == builder.hash_function
                &&& set.pool.max_lifetime == builder.pool.max_lifetime
                &&& set.pool.read_timeout == builder.pool.read_timeout
                &&& set.pool.write_timeout == builder.pool.write_timeout
                &&& set.pool.connection_timeout == builder.pool.connection_timeout
            },
{
}

/// Whether a value is one of two.
pub open spec fn is_one_of<T>(value: T, first: T, second: T) -> bool {
    value == first || value == second
}

/// How long connections live, and how long reading, writing and dialling wait, are
/// four settings: each changes alone.
pub proof fn lemma_times_are_set<H: KeyHash>(
    builder: ClientBuilder<H>,
    time: Duration,
    lived: ClientBuilder<H>,
    read: ClientBuilder<H>,
    written: ClientBuilder<H>,
    dialled: ClientBuilder<H>,
)
    requires
        call_ensures(ClientBuilder::<H>::with_max_conn_lifetime, (builder, time), lived),
        call_ensures(ClientBuilder::<H>::with_read_timeout, (builder, time), read),
        call_ensures(ClientBuilder::<H>::with_write_timeout, (builder, time), written),
        call_ensures(ClientBuilder::<H>::with_connection_timeout, (builder, time), dialled),
    ensures
        lived.pool.max_lifetime == Some(time),
        read.pool.read_timeout == Some(time),
        written.pool.write_timeout == Some(time),
        dialled.pool.connection_timeout == Some(time),
        read.pool.max_lifetime == builder.pool.max_lifetime,
        written.pool.max_lifetime == builder.pool.max_lifetime,
        dialled.pool.max_lifetime == builder.pool.max_lifetime,
        lived.pool.read_timeout == builder.pool.read_timeout,
        written.pool.read_timeout == builder.pool.read_timeout,
        dialled.pool.read_timeout == builder.pool.read_timeout,
        lived.pool.write_timeout == builder.pool.write_timeout,
        read.pool.write_timeout == builder.pool.write_timeout,
        dialled.pool.write_timeout == builder.pool.write_timeout,
        lived.pool.connection_timeout == builder.pool.connection_timeout,
        read.pool.connection_timeout == builder.pool.connection_timeout,
        written.pool.connection_timeout == builder.pool.connection_timeout,
        forall|set: ClientBuilder<H>| #[trigger]
            is_one_of(set, lived, read) ==> {
                &&& set.targets == builder.targets
                &&& set.hash_function == builder.hash_function
                &&& set.pool.max_size == builder.pool.max_size
                &&& set.pool.min_idle == builder.pool.min_idle
            },
        forall|set: ClientBuilder<H>| #[trigger]
            is_one_of(set, written, dialled) ==> {
                &&& set.targets == builder.targets
                &&& set.hash_function == builder.hash_function
                &&& set.pool.max_size == builder.pool.max_size
                &&& set.pool.min_idle == builder.pool.min_idle
            },
{
}

/// Another hash function routes the keys of the same servers and connections.
pub proof fn lemma_hash_functions_are_set<H: KeyHash, G: KeyHash>(
    builder: ClientBuilder<H>,
    hash_function: G,
    set: ClientBuilder<G>,
)
    requires
        call_ensures(ClientBuilder::<H>::with_hash_function::<G>, (builder, hash_function), set),
    ensures
        set.hash_function == hash_function,
        set.targets@ == builder.targets@,
        set.pool == builder.pool,
{
}

/// A key is taken where its UTF-8 has at most 250 bytes.
pub proof fn lemma_keys_are_taken_up_to_250_bytes(key: &str, taken: Result<(), MemcacheError>)
    requires
        call_ensures(client::check_key_len, (key,), taken),
    ensures
        taken is Ok <==> vstd::utf8::encode_utf8(key@).len() <= 250,
{
}

/// How many idle connections a client keeps, for how long and how many it has in
/// all are three settings: each changes alone, and a cap of none or of zero is no
/// cap.
pub proof fn lemma_meta_connections_are_set<R: Router>(
    builder: MetaClientBuilder<R>,
    count: usize,
    age: Duration,
    cap: Option<usize>,
    idle: MetaClientBuilder<R>,
    aged: MetaClientBuilder<R>,
    capped: MetaClientBuilder<R>,
)
    requires
        call_ensures(MetaClientBuilder::<R>::max_idle, (builder, count), idle),
        call_ensures(MetaClientBuilder::<R>::max_idle_age, (builder, age), aged),
        call_ensures(MetaClientBuilder::<R>::max_connections, (builder, cap), capped),
    ensures
        idle.engine.max_idle == count,
        aged.engine.max_idle_age == age,
        capped.engine.max_connections is None <==> cap is None || cap->0 == 0,
        capped.engine.max_connections is Some ==> capped.engine.max_connections->0 == cap->0,
        aged.engine.max_idle == builder.engine.max_idle,
        capped.engine.max_idle == builder.engine.max_idle,
        idle.engine.max_idle_age == builder.engine.max_idle_age,
        capped.engine.max_idle_age == builder.engine.max_idle_age,
        idle.engine.max_connections == builder.engine.max_connections,
        aged.engine.max_connections == builder.engine.max_connections,
        forall|set: MetaClientBuilder<R>| #[trigger]
            is_one_of(set, idle, aged) ==> {
                &&& set.router == builder.router
                &&& set.engine.connect_timeout == builder.engine.connect_timeout
                &&& set.engine.io_timeout == builder.engine.io_timeout
            },
        capped.router == builder.router,
        capped.engine.connect_timeout == builder.engine.connect_timeout,
        capped.engine.io_timeout == builder.engine.io_timeout,
{
}

/// Dialling and exchanging wait as long as each was told, and for ever where it was
/// told so.
pub proof fn lemma_meta_timeouts_are_set<R: Router>(
    builder: MetaClientBuilder<R>,
    timeout: Option<Duration>,
    dialled: MetaClientBuilder<R>,
    exchanged: MetaClientBuilder<R>,
)
    requires
        call_ensures(MetaClientBuilder::<R>::connect_timeout, (builder, timeout), dialled),
        call_ensures(MetaClientBuilder::<R>::io_timeout, (builder, timeout), exchanged),
    ensures
        dialled.engine.connect_timeout == timeout,
        exchanged.engine.io_timeout == timeout,
        dialled.engine.io_timeout == builder.engine.io_timeout,
        exchanged.engine.connect_timeout == builder.engine.connect_timeout,
        forall|set: MetaClientBuilder<R>| #[trigger]
            is_one_of(set, dialled, exchanged) ==> {
                &&& set.router == builder.router
                &&& set.engine.max_idle == builder.engine.max_idle
                &&& set.engine.max_idle_age == builder.engine.max_idle_age
                &&& set.engine.max_connections == builder.engine.max_connections
            },
{
}

/// Another router routes the keys of a client that is otherwise set up alike.
pub proof fn lemma_routers_are_set<R: Router, S: Router>(
    builder: MetaClientBuilder<R>,
    router: S,
    set: MetaClientBuilder<S>,
)
    requires
        call_ensures(MetaClientBuilder::<R>::router::<S>, (builder, router), set),
    ensures
        set.router == router,
        set.engine == builder.engine,
{
}

} // verus!
