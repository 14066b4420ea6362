//! The asynchronous face of the classic client.

use vstd::prelude::*;

use crate::client;
use crate::client::{Connectable, DefaultKeyHash, KeyHash, PoolOptions};
use crate::error::MemcacheError;
use crate::exp::router;
use crate::time::Duration;

verus! {

/// What an asynchronous client is set up with: the same as a blocking one.
pub struct ClientBuilder<H> {
    pub inner: client::ClientBuilder<H>,
}

impl ClientBuilder<DefaultKeyHash> {
    pub fn new() -> (r: ClientBuilder<DefaultKeyHash>)
        ensures
            r.inner.targets@ == Seq::<String>::empty(),
            r.inner.pool == PoolOptions::plain(),
            r.inner.hash_function == DefaultKeyHash,
    {
        ClientBuilder { inner: client::ClientBuilder::new() }
    }
}

impl<H: KeyHash> ClientBuilder<H> {
    /// Add one or more memcached servers to the client.
    pub fn add_server<C: Connectable>(self, target: C) -> (r: Result<ClientBuilder<H>, MemcacheError>)
        ensures
            match r {
                Ok(builder) => target.urls_spec().len() > 0 && router::texts(builder.inner.targets@) == router::texts(
                    self.inner.targets@,
                ) + target.urls_spec() && builder.inner.pool == self.inner.pool && builder.inner.hash_function
                    == self.inner.hash_function,
                Err(e) => target.urls_spec().len() == 0 && e@ == client::no_servers(),
            },
    {
        match self.inner.add_server(target) {
            Ok(inner) => Ok(ClientBuilder { inner }),
            Err(e) => Err(e),
        }
    }

    /// Set the maximum number of connections managed by the pool.
    pub fn with_max_pool_size(self, max_size: u32) -> (r: ClientBuilder<H>)
        ensures
            r.inner == (client::ClientBuilder { pool: PoolOptions { max_size, ..self.inner.pool }, ..self.inner }),
    {
        ClientBuilder { inner: self.inner.with_max_pool_size(max_size) }
    }

    /// Set the minimum number of idle connections to maintain in the pool.
    pub fn with_min_idle_conns(self, min_idle: u32) -> (r: ClientBuilder<H>)
        ensures
            r.inner == (client::ClientBuilder {
                pool: PoolOptions { min_idle: Some(min_idle), ..self.inner.pool },
                ..self.inner
            }),
    {
        ClientBuilder { inner: self.inner.with_min_idle_conns(min_idle) }
    }

    /// Set the maximum lifetime of connections in the pool.
    pub fn with_max_conn_lifetime(self, max_lifetime: Duration) -> (r: ClientBuilder<H>)
        ensures
            r.inner == (client::ClientBuilder {
                pool: PoolOptions { max_lifetime: Some(max_lifetime), ..self.inner.pool },
                ..self.inner
            }),
    {
        ClientBuilder { inner: self.inner.with_max_conn_lifetime(max_lifetime) }
    }

    /// Set the socket read timeout.
    pub fn with_read_timeout(self, read_timeout: Duration) -> (r: ClientBuilder<H>)
        ensures
            r.inner == (client::ClientBuilder {
                pool: PoolOptions { read_timeout: Some(read_timeout), ..self.inner.pool },
                ..self.inner
            }),
    {
        ClientBuilder { inner: self.inner.with_read_timeout(read_timeout) }
    }

    /// Set the socket write timeout.
    pub fn with_write_timeout(self, write_timeout: Duration) -> (r: ClientBuilder<H>)
        ensures
            r.inner == (client::ClientBuilder {
                pool: PoolOptions { write_timeout: Some(write_timeout), ..self.inner.pool },
                ..self.inner
            }),
    {
        ClientBuilder { inner: self.inner.with_write_timeout(write_timeout) }
    }

    /// Set the connection timeout.
    pub fn with_connection_timeout(self, connection_timeout: Duration) -> (r: ClientBuilder<H>)
        ensures
            r.inner == (client::ClientBuilder {
                pool: PoolOptions { connection_timeout: Some(connection_timeout), ..self.inner.pool },
                ..self.inner
            }),
    {
        ClientBuilder { inner: self.inner.with_connection_timeout(connection_timeout) }
    }

    /// Set the hash function that picks a server for a key.
    pub fn with_hash_function<G: KeyHash>(self, hash_function: G) -> (r: ClientBuilder<G>)
        ensures
            r.inner.targets == self.inner.targets,
            r.inner.pool == self.inner.pool,
            r.inner.hash_function == hash_function,
    {
        ClientBuilder { inner: self.inner.with_hash_function(hash_function) }
    }

    /// Build the client that the asynchronous one wraps.
    pub fn build(self) -> (r: Result<client::Client<H>, MemcacheError>)
        ensures
            self.inner.builds(r),
    {
        self.inner.build()
    }
}

} // verus!
