//! What the blocking and the tokio client share: their configuration and what
//! they check before and after an exchange.

use vstd::prelude::*;
use vstd::string::*;

use super::error;
use super::error::{Error, ErrorView};
use super::meta_api;
use super::meta_api::parse_meta_result;
use super::meta_command::{MetaResponse, MetaResponseView, ReturnCode};
use super::router::{DefaultHash, HashFunction, Rendezvous, Router};
use super::semantics::Operation;
use crate::time::{Duration, NANOS_PER_SEC};

verus! {

pub const DEFAULT_MAX_IDLE: usize = 8;

/// Cache operations normally complete in milliseconds, so one second is
/// already a generous bound; a hung cache server should fail fast rather than
/// stall its callers.
pub const DEFAULT_TIMEOUT_SECS: u64 = 1;

/// Idle connections older than this are not reused: middleboxes and server
/// restarts kill quiet connections, and a dead one costs a failed request.
pub const DEFAULT_MAX_IDLE_AGE_SECS: u64 = 90;

/// Engine settings shared by both clients.
#[derive(Clone, Copy, Debug, PartialEq, Eq, Structural)]
pub struct Engine {
    pub connect_timeout: Option<Duration>,
    pub io_timeout: Option<Duration>,
    pub max_idle: usize,
    pub max_idle_age: Duration,
    pub max_connections: Option<usize>,
}

pub open spec fn whole_secs(secs: u64) -> Duration {
    Duration { nanos: (secs * NANOS_PER_SEC) as u128 }
}

impl Engine {
    /// One second to dial, one per exchange, eight idle connections of at most
    /// 90 seconds, no cap.
    pub open spec fn standard() -> Engine {
        Engine {
            connect_timeout: Some(whole_secs(DEFAULT_TIMEOUT_SECS)),
            io_timeout: Some(whole_secs(DEFAULT_TIMEOUT_SECS)),
            max_idle: DEFAULT_MAX_IDLE,
            max_idle_age: whole_secs(DEFAULT_MAX_IDLE_AGE_SECS),
            max_connections: None,
        }
    }
}

impl Default for Engine {
    fn default() -> (r: Engine)
        ensures
            r == Engine::standard(),
    {
        Engine {
            connect_timeout: Some(Duration::from_secs(DEFAULT_TIMEOUT_SECS)),
            io_timeout: Some(Duration::from_secs(DEFAULT_TIMEOUT_SECS)),
            max_idle: DEFAULT_MAX_IDLE,
            max_idle_age: Duration::from_secs(DEFAULT_MAX_IDLE_AGE_SECS),
            max_connections: None,
        }
    }
}

/// Configures a client before connecting.
///
/// The configuration is fixed once the client is built: clones of the client
/// share both the connection pools and these settings, so two clones can never
/// route the same key differently or pool differently.
#[derive(Clone)]
pub struct MetaClientBuilder<R> {
    pub router: R,
    pub engine: Engine,
}

impl MetaClientBuilder<Rendezvous<DefaultHash>> {
    pub fn new() -> (r: MetaClientBuilder<Rendezvous<DefaultHash>>)
        ensures
            r.router.hash_function == DefaultHash,
            r.engine == Engine::standard(),
    {
        MetaClientBuilder { router: Rendezvous::new(), engine: Engine::default() }
    }
}

impl Default for MetaClientBuilder<Rendezvous<DefaultHash>> {
    fn default() -> (r: MetaClientBuilder<Rendezvous<DefaultHash>>)
        ensures
            r.router.hash_function == DefaultHash,
            r.engine == Engine::standard(),
    {
        MetaClientBuilder::new()
    }
}

impl<R: Router> MetaClientBuilder<R> {
    /// Replace the key hash used by the default [`Rendezvous`] router.
    pub fn hash_function<H: HashFunction>(self, hash_function: H) -> (r: MetaClientBuilder<Rendezvous<H>>)
        ensures
            r.router.hash_function == hash_function,
            r.engine == self.engine,
    {
        MetaClientBuilder { router: Rendezvous::with_hash_function(hash_function), engine: self.engine }
    }

    /// Replace the [`Router`] that picks the server for a key (default
    /// [`Rendezvous`]).
    pub fn router<S: Router>(self, router: S) -> (r: MetaClientBuilder<S>)
        ensures
            r == (MetaClientBuilder { router, engine: self.engine }),
    {
        MetaClientBuilder { router, engine: self.engine }
    }

    /// Cap how many idle connections each server retains (default 8).
    /// Concurrency above the cap dials extra connections, which are dropped
    /// when returned.
    pub fn max_idle(self, max_idle: usize) -> (r: MetaClientBuilder<R>)
        ensures
            r == (MetaClientBuilder { engine: Engine { max_idle, ..self.engine }, ..self }),
    {
        MetaClientBuilder { router: self.router, engine: Engine { max_idle, ..self.engine } }
    }

    /// Do not reuse a connection that sat idle longer than this (default 90
    /// seconds).
    pub fn max_idle_age(self, age: Duration) -> (r: MetaClientBuilder<R>)
        ensures
            r == (MetaClientBuilder { engine: Engine { max_idle_age: age, ..self.engine }, ..self }),
    {
        MetaClientBuilder { router: self.router, engine: Engine { max_idle_age: age, ..self.engine } }
    }

    /// Cap the connections in use per server (default unlimited; zero is no
    /// cap). At the cap, checkout waits for a connection to be returned, up to
    /// the connect timeout, then fails with a timed out io error. The cap
    /// bounds the blast radius of a latency spike: without it every stalled
    /// caller dials one more connection.
    pub fn max_connections(self, max_connections: Option<usize>) -> (r: MetaClientBuilder<R>)
        ensures
            r == (MetaClientBuilder {
                engine: Engine {
                    max_connections: if max_connections == Some(0usize) {
                        None
                    } else {
                        max_connections
                    },
                    ..self.engine
                },
                ..self
            }),
    {
        let cap = match max_connections {
            Some(cap) => {
                if cap > 0 {
                    Some(cap)
                } else {
                    None
                }
            },
            None => None,
        };
        MetaClientBuilder { router: self.router, engine: Engine { max_connections: cap, ..self.engine } }
    }

    /// Limit how long dialing a server may take (default 1 second; `None`
    /// removes the limit).
    pub fn connect_timeout(self, timeout: Option<Duration>) -> (r: MetaClientBuilder<R>)
        ensures
            r == (MetaClientBuilder { engine: Engine { connect_timeout: timeout, ..self.engine }, ..self }),
    {
        MetaClientBuilder { router: self.router, engine: Engine { connect_timeout: timeout, ..self.engine } }
    }

    /// Limit how long an exchange may take (default 1 second; `None` removes
    /// the limit). It applies to a whole command or batch exchange, request
    /// write plus response reads. A timeout poisons the connection like any
    /// other transport error; one that strikes after a side-effecting request
    /// was written surfaces as [`Error::Ambiguous`].
    pub fn io_timeout(self, timeout: Option<Duration>) -> (r: MetaClientBuilder<R>)
        ensures
            r == (MetaClientBuilder { engine: Engine { io_timeout: timeout, ..self.engine }, ..self }),
    {
        MetaClientBuilder { router: self.router, engine: Engine { io_timeout: timeout, ..self.engine } }
    }
}

/// Check how many socket addresses a server address resolved to.
pub fn check_resolved(addresses: usize) -> (r: Result<(), Error>)
    ensures
        match r {
            Ok(_) => addresses > 0,
            Err(e) => addresses == 0 && e@ == error::usage("address resolved to no socket addresses"),
        },
{
    if addresses == 0 {
        return Err(Error::Usage("address resolved to no socket addresses"));
    }
    Ok(())
}

/// Check how many servers a client is to connect to.
pub fn check_servers(servers: usize) -> (r: Result<(), Error>)
    ensures
        match r {
            Ok(_) => servers > 0,
            Err(e) => servers == 0 && e@ == error::usage("at least one server address is required"),
        },
{
    if servers == 0 {
        return Err(Error::Usage("at least one server address is required"));
    }
    Ok(())
}

/// Check the answer to a no-op.
pub fn check_noop(response: &MetaResponse) -> (r: Result<(), Error>)
    ensures
        match r {
            Ok(_) => response.rc == ReturnCode::Mn,
            Err(e) => response.rc != ReturnCode::Mn && e@ == error::protocol("unexpected no-op response"),
        },
{
    if response.rc != ReturnCode::Mn {
        return Err(Error::protocol("unexpected no-op response"));
    }
    Ok(())
}

/// Why a response is no answer to an operation, if it is none.
pub open spec fn response_fault<O: Operation>(operation: O, response: MetaResponseView) -> Option<ErrorView> {
    match meta_api::meta_result(response) {
        Err(e) => Some(e),
        Ok(wire) => operation.answer_fault(wire),
    }
}

/// Read a response as the answer to an operation.
pub fn finish_operation<O: Operation>(operation: &O, response: MetaResponse) -> (r: Result<O::Output, Error>)
    ensures
        match r {
            Ok(output) => response_fault(*operation, response@) is None && (meta_api::meta_result(response@) matches Ok(
                wire,
            ) && operation.answers(wire, output)),
            Err(e) => response_fault(*operation, response@) == Some(e@),
        },
{
    match parse_meta_result(response) {
        Ok(wire) => operation.parse(wire),
        Err(e) => Err(e),
    }
}

} // verus!
