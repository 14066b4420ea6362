//! Lazy request builders returned by the client verbs.
//!
//! `client.get("foo")` and friends return a [`Request`] holding the client and
//! an operation under construction. Option methods forward to the operation's
//! builders; nothing touches the network until the request is sent. `Request`
//! is generic over the client, so the option surface is written once and
//! shared by the blocking and tokio clients.

use vstd::prelude::*;

use super::meta_api::{ArithmeticMode, SetMode};
use super::operation::{Arithmetic, Delete, Get, Meta, Store};
use super::ttl::Ttl;

verus! {

/// An operation bound to a client, waiting to be sent.
#[must_use]
pub struct Request<'a, C, O> {
    pub client: &'a C,
    pub operation: O,
}

impl<'a, C, O> Request<'a, C, O> {
    pub fn new(client: &'a C, operation: O) -> (r: Request<'a, C, O>)
        ensures
            r.client == client,
            r.operation == operation,
    {
        Request { client, operation }
    }

    /// Detach the operation as a standalone value, dropping the client
    /// binding. Useful to build operations for a batch.
    pub fn into_operation(self) -> (r: O)
        ensures
            r == self.operation,
    {
        self.operation
    }
}

impl<'a, C> Request<'a, C, Get> {
    /// Fetch this metadata alongside the value.
    pub fn meta(self, meta: Meta) -> (r: Self)
        ensures
            r.client == self.client,
            r.operation == (Get { meta: meta, ..self.operation }),
    {
        Request { client: self.client, operation: self.operation.meta(meta) }
    }

    /// Update the item TTL while reading.
    pub fn touch(self, ttl: Ttl) -> (r: Self)
        ensures
            r.client == self.client,
            r.operation == (Get { touch: Some(ttl), ..self.operation }),
    {
        Request { client: self.client, operation: self.operation.touch(ttl) }
    }

    /// Don't bump the item in the LRU.
    pub fn no_lru_bump(self) -> (r: Self)
        ensures
            r.client == self.client,
            r.operation == (Get { no_lru_bump: true, ..self.operation }),
    {
        Request { client: self.client, operation: self.operation.no_lru_bump() }
    }

    /// Suppress the value when the item CAS still matches.
    pub fn unless_cas(self, cas: u64) -> (r: Self)
        ensures
            r.client == self.client,
            r.operation == (Get { unless_cas: Some(cas), ..self.operation }),
    {
        Request { client: self.client, operation: self.operation.unless_cas(cas) }
    }

    /// Fetch metadata only, without the value.
    pub fn without_value(self) -> (r: Self)
        ensures
            r.client == self.client,
            r.operation == (Get { value: false, ..self.operation }),
    {
        Request { client: self.client, operation: self.operation.without_value() }
    }

    /// Vivify a missing key with this TTL and request a lease.
    pub fn lease_ttl(self, ttl: u32) -> (r: Self)
        ensures
            r.client == self.client,
            r.operation == (Get { lease_ttl: Some(ttl), ..self.operation }),
    {
        Request { client: self.client, operation: self.operation.lease_ttl(ttl) }
    }

    /// Also win the lease when the remaining TTL drops below this.
    pub fn refresh_before(self, ttl: u32) -> (r: Self)
        ensures
            r.client == self.client,
            r.operation == (Get { refresh_before: Some(ttl), ..self.operation }),
    {
        Request { client: self.client, operation: self.operation.refresh_before(ttl) }
    }
}

impl<'a, C> Request<'a, C, Store> {
    /// Item TTL.
    pub fn ttl(self, ttl: Ttl) -> (r: Self)
        ensures
            r.client == self.client,
            r.operation == (Store { ttl: Some(ttl), ..self.operation }),
    {
        Request { client: self.client, operation: self.operation.ttl(ttl) }
    }

    /// The client flags stored with the item - for interop with other clients'
    /// flag conventions.
    pub fn client_flags(self, flags: u32) -> (r: Self)
        ensures
            r.client == self.client,
            r.operation == (Store { client_flags: flags, ..self.operation }),
    {
        Request { client: self.client, operation: self.operation.client_flags(flags) }
    }

    /// The storage mode.
    pub fn mode(self, mode: SetMode) -> (r: Self)
        ensures
            r.client == self.client,
            r.operation == (Store { mode: mode, ..self.operation }),
    {
        Request { client: self.client, operation: self.operation.mode(mode) }
    }

    /// Store only when the item does not exist.
    pub fn add(self) -> (r: Self)
        ensures
            r.client == self.client,
            r.operation == (Store { mode: SetMode::Add, ..self.operation }),
    {
        Request { client: self.client, operation: self.operation.add() }
    }

    /// Store only when the item exists.
    pub fn replace(self) -> (r: Self)
        ensures
            r.client == self.client,
            r.operation == (Store { mode: SetMode::Replace, ..self.operation }),
    {
        Request { client: self.client, operation: self.operation.replace() }
    }

    /// Append raw bytes to the stored value.
    pub fn append(self) -> (r: Self)
        ensures
            r.client == self.client,
            r.operation == (Store { mode: SetMode::Append, ..self.operation }),
    {
        Request { client: self.client, operation: self.operation.append() }
    }

    /// Prepend raw bytes to the stored value.
    pub fn prepend(self) -> (r: Self)
        ensures
            r.client == self.client,
            r.operation == (Store { mode: SetMode::Prepend, ..self.operation }),
    {
        Request { client: self.client, operation: self.operation.prepend() }
    }

    /// Store only when the item CAS matches.
    pub fn compare_cas(self, cas: u64) -> (r: Self)
        ensures
            r.client == self.client,
            r.operation == (Store { compare_cas: Some(cas), ..self.operation }),
    {
        Request { client: self.client, operation: self.operation.compare_cas(cas) }
    }

    /// Overwrite the item CAS with this value (protocol `E` flag) - for
    /// replicating or restoring items, not for normal CAS loops.
    pub fn force_cas(self, cas: u64) -> (r: Self)
        ensures
            r.client == self.client,
            r.operation == (Store { force_cas: Some(cas), ..self.operation }),
    {
        Request { client: self.client, operation: self.operation.force_cas(cas) }
    }

    /// Return the new item CAS in the result.
    pub fn return_cas(self) -> (r: Self)
        ensures
            r.client == self.client,
            r.operation == (Store { return_cas: true, ..self.operation }),
    {
        Request { client: self.client, operation: self.operation.return_cas() }
    }

    /// For append/prepend, vivify a missing item with this TTL.
    pub fn vivify_ttl(self, ttl: u32) -> (r: Self)
        ensures
            r.client == self.client,
            r.operation == (Store { vivify_ttl: Some(ttl), ..self.operation }),
    {
        Request { client: self.client, operation: self.operation.vivify_ttl(ttl) }
    }
}

impl<'a, C> Request<'a, C, Delete> {
    /// Delete only when the item CAS matches.
    pub fn compare_cas(self, cas: u64) -> (r: Self)
        ensures
            r.client == self.client,
            r.operation == (Delete { compare_cas: Some(cas), ..self.operation }),
    {
        Request { client: self.client, operation: self.operation.compare_cas(cas) }
    }

    /// Mark the item stale instead of removing it.
    pub fn invalidate(self) -> (r: Self)
        ensures
            r.client == self.client,
            r.operation == (Delete { invalidate: true, ..self.operation }),
    {
        Request { client: self.client, operation: self.operation.invalidate() }
    }

    /// For invalidate, how long the stale item stays readable.
    pub fn stale_for(self, ttl: Ttl) -> (r: Self)
        ensures
            r.client == self.client,
            r.operation == (Delete { stale_for: Some(ttl), ..self.operation }),
    {
        Request { client: self.client, operation: self.operation.stale_for(ttl) }
    }
}

impl<'a, C> Request<'a, C, Arithmetic> {
    /// How far to move the counter.
    pub fn delta(self, delta: u64) -> (r: Self)
        ensures
            r.client == self.client,
            r.operation == (Arithmetic { delta: delta, ..self.operation }),
    {
        Request { client: self.client, operation: self.operation.delta(delta) }
    }

    /// Decrement instead of increment.
    pub fn decrement(self) -> (r: Self)
        ensures
            r.client == self.client,
            r.operation == (Arithmetic { mode: ArithmeticMode::Decrement, ..self.operation }),
    {
        Request { client: self.client, operation: self.operation.decrement() }
    }

    /// Vivify a missing item with this value and TTL.
    pub fn initial(self, value: u64, ttl: u32) -> (r: Self)
        ensures
            r.client == self.client,
            r.operation == (Arithmetic { initial: Some(value), initial_ttl: Some(ttl), ..self.operation }),
    {
        Request { client: self.client, operation: self.operation.initial(value, ttl) }
    }

    /// Update the item TTL while applying the delta.
    pub fn ttl(self, ttl: Ttl) -> (r: Self)
        ensures
            r.client == self.client,
            r.operation == (Arithmetic { ttl: Some(ttl), ..self.operation }),
    {
        Request { client: self.client, operation: self.operation.ttl(ttl) }
    }

    /// Apply only when the item CAS matches.
    pub fn compare_cas(self, cas: u64) -> (r: Self)
        ensures
            r.client == self.client,
            r.operation == (Arithmetic { compare_cas: Some(cas), ..self.operation }),
    {
        Request { client: self.client, operation: self.operation.compare_cas(cas) }
    }

    /// Overwrite the item CAS with this value (protocol `E` flag) - for
    /// replicating or restoring items, not for normal CAS loops.
    pub fn force_cas(self, cas: u64) -> (r: Self)
        ensures
            r.client == self.client,
            r.operation == (Arithmetic { force_cas: Some(cas), ..self.operation }),
    {
        Request { client: self.client, operation: self.operation.force_cas(cas) }
    }

    /// Return the new item CAS in the result.
    pub fn return_cas(self) -> (r: Self)
        ensures
            r.client == self.client,
            r.operation == (Arithmetic { return_cas: true, ..self.operation }),
    {
        Request { client: self.client, operation: self.operation.return_cas() }
    }

    /// Return the remaining TTL in the result.
    pub fn return_ttl(self) -> (r: Self)
        ensures
            r.client == self.client,
            r.operation == (Arithmetic { return_ttl: true, ..self.operation }),
    {
        Request { client: self.client, operation: self.operation.return_ttl() }
    }
}

} // verus!
