//! Operation descriptions for the semantic layer.
//!
//! An operation captures *what* the caller wants (key, value, conditions,
//! requested metadata) independently of the wire encoding. The core layer
//! turns operations into [`MetaCommand`](super::meta_command::MetaCommand)s
//! and pairs them with their responses. Construct with `new` and chain builder
//! methods.

use vstd::prelude::*;

use super::meta_api::{ArithmeticMode, SetMode};
use super::ttl::{Ttl, TtlRepr};
use crate::bytes;

verus! {

/// Which item metadata a [`Get`] should fetch into
/// [`ItemMeta`](super::result::ItemMeta).
#[derive(Debug, Clone, Copy, PartialEq, Eq, Structural)]
pub struct Meta {
    pub cas: bool,
    pub ttl: bool,
    pub size: bool,
    pub last_access: bool,
    pub hit_before: bool,
}

impl Meta {
    pub open spec fn of(all: bool) -> Meta {
        Meta { cas: all, ttl: all, size: all, last_access: all, hit_before: all }
    }

    /// No metadata.
    pub fn none() -> (r: Meta)
        ensures
            r == Meta::of(false),
    {
        Meta { cas: false, ttl: false, size: false, last_access: false, hit_before: false }
    }

    /// All of the metadata.
    pub fn all() -> (r: Meta)
        ensures
            r == Meta::of(true),
    {
        Meta { cas: true, ttl: true, size: true, last_access: true, hit_before: true }
    }

    #[must_use]
    pub fn cas(self) -> (r: Meta)
        ensures
            r == (Meta { cas: true, ..self }),
    {
        Meta { cas: true, ..self }
    }

    #[must_use]
    pub fn ttl(self) -> (r: Meta)
        ensures
            r == (Meta { ttl: true, ..self }),
    {
        Meta { ttl: true, ..self }
    }

    #[must_use]
    pub fn size(self) -> (r: Meta)
        ensures
            r == (Meta { size: true, ..self }),
    {
        Meta { size: true, ..self }
    }

    #[must_use]
    pub fn last_access(self) -> (r: Meta)
        ensures
            r == (Meta { last_access: true, ..self }),
    {
        Meta { last_access: true, ..self }
    }

    #[must_use]
    pub fn hit_before(self) -> (r: Meta)
        ensures
            r == (Meta { hit_before: true, ..self }),
    {
        Meta { hit_before: true, ..self }
    }
}

impl Default for Meta {
    fn default() -> (r: Meta)
        ensures
            r == Meta::of(false),
    {
        Meta::none()
    }
}

/// A read operation (`mg`).
#[derive(Debug, Clone, PartialEq, Eq)]
pub struct Get {
    pub key: Vec<u8>,
    /// Metadata to fetch alongside the value.
    pub meta: Meta,
    /// Update the item TTL while reading.
    pub touch: Option<Ttl>,
    /// Don't bump the item in the LRU.
    pub no_lru_bump: bool,
    /// Suppress the value when the item CAS still matches; the result status
    /// becomes `Unchanged`. Requires `value`. Needs memcached 1.6.40 or newer;
    /// older servers ignore the flag and return the value.
    pub unless_cas: Option<u64>,
    /// Whether to read the value at all; `false` fetches metadata only.
    pub value: bool,
    /// Vivify a missing key with this TTL and request a lease; a miss then
    /// reports a granted lease to exactly one client. Must be >= 1. This is
    /// the protocol `N` flag, the same mechanism as [`Store::vivify_ttl`] and
    /// [`Arithmetic::initial`]'s TTL.
    pub lease_ttl: Option<u32>,
    /// Also win the lease when the remaining TTL drops below this, to refresh
    /// the value before it expires. Requires `lease_ttl`; must be >= 1.
    pub refresh_before: Option<u32>,
}

impl Get {
    pub fn new(key: &[u8]) -> (r: Get)
        ensures
            r.key@ == key@,
            r == (Get {
                key: r.key,
                meta: Meta::of(false),
                touch: None,
                no_lru_bump: false,
                unless_cas: None,
                value: true,
                lease_ttl: None,
                refresh_before: None,
            }),
    {
        Get {
            key: bytes::copy(key),
            meta: Meta::none(),
            touch: None,
            no_lru_bump: false,
            unless_cas: None,
            value: true,
            lease_ttl: None,
            refresh_before: None,
        }
    }

    /// Fetch this metadata alongside the value.
    #[must_use]
    pub fn meta(self, meta: Meta) -> (r: Get)
        ensures
            r == (Get { meta: meta, ..self }),
    {
        Get { meta: meta, ..self }
    }

    /// Update the item TTL while reading.
    #[must_use]
    pub fn touch(self, ttl: Ttl) -> (r: Get)
        ensures
            r == (Get { touch: Some(ttl), ..self }),
    {
        Get { touch: Some(ttl), ..self }
    }

    /// Update the item TTL while reading, with a raw protocol value: `0` never
    /// expires, a value above 30 days is an absolute unix timestamp.
    #[must_use]
    pub fn touch_raw(self, ttl: u32) -> (r: Get)
        ensures
            r == (Get { touch: Some(Ttl { repr: TtlRepr::Raw(ttl) }), ..self }),
    {
        Get { touch: Some(Ttl::raw(ttl)), ..self }
    }

    /// Don't bump the item in the LRU.
    #[must_use]
    pub fn no_lru_bump(self) -> (r: Get)
        ensures
            r == (Get { no_lru_bump: true, ..self }),
    {
        Get { no_lru_bump: true, ..self }
    }

    /// Suppress the value when the item CAS still matches. Needs memcached
    /// 1.6.40 or newer; older servers ignore the flag and return the value.
    #[must_use]
    pub fn unless_cas(self, cas: u64) -> (r: Get)
        ensures
            r == (Get { unless_cas: Some(cas), ..self }),
    {
        Get { unless_cas: Some(cas), ..self }
    }

    /// Fetch metadata only, without the value.
    #[must_use]
    pub fn without_value(self) -> (r: Get)
        ensures
            r == (Get { value: false, ..self }),
    {
        Get { value: false, ..self }
    }

    /// Vivify a missing key with this TTL and request a lease.
    #[must_use]
    pub fn lease_ttl(self, ttl: u32) -> (r: Get)
        ensures
            r == (Get { lease_ttl: Some(ttl), ..self }),
    {
        Get { lease_ttl: Some(ttl), ..self }
    }

    /// Also win the lease when the remaining TTL drops below this.
    #[must_use]
    pub fn refresh_before(self, ttl: u32) -> (r: Get)
        ensures
            r == (Get { refresh_before: Some(ttl), ..self }),
    {
        Get { refresh_before: Some(ttl), ..self }
    }
}

/// A store operation (`ms`). The protocol layer does no serialization: `value`
/// holds the raw bytes and `client_flags` the flags stored with the item (zero
/// unless set).
#[derive(Debug, Clone, PartialEq, Eq)]
pub struct Store {
    pub key: Vec<u8>,
    pub value: Vec<u8>,
    /// `F<flags>` - client flags stored with the item.
    pub client_flags: u32,
    pub ttl: Option<Ttl>,
    pub mode: SetMode,
    /// Store only when the item CAS matches.
    pub compare_cas: Option<u64>,
    /// Overwrite the item CAS with this value instead of a server-chosen one
    /// (protocol `E` flag) - for replicating or restoring items with a known
    /// CAS, not for normal CAS loops (use `compare_cas`).
    pub force_cas: Option<u64>,
    /// Return the new item CAS in the result.
    pub return_cas: bool,
    /// For append/prepend, vivify a missing item with this TTL. Must be >= 1.
    /// This is the protocol `N` flag, the same mechanism as [`Get::lease_ttl`]
    /// and [`Arithmetic::initial`]'s TTL.
    pub vivify_ttl: Option<u32>,
}

impl Store {
    pub fn new(key: &[u8], value: &[u8]) -> (r: Store)
        ensures
            r.key@ == key@,
            r.value@ == value@,
            r == (Store {
                key: r.key,
                value: r.value,
                client_flags: 0,
                ttl: None,
                mode: SetMode::Store,
                compare_cas: None,
                force_cas: None,
                return_cas: false,
                vivify_ttl: None,
            }),
    {
        Store {
            key: bytes::copy(key),
            value: bytes::copy(value),
            client_flags: 0,
            ttl: None,
            mode: SetMode::Store,
            compare_cas: None,
            force_cas: None,
            return_cas: false,
            vivify_ttl: None,
        }
    }

    /// Item TTL; the protocol default (no `T` flag) never expires.
    #[must_use]
    pub fn ttl(self, ttl: Ttl) -> (r: Store)
        ensures
            r == (Store { ttl: Some(ttl), ..self }),
    {
        Store { ttl: Some(ttl), ..self }
    }

    /// Item TTL as a raw protocol value: `0` never expires, a value above 30
    /// days is an absolute unix timestamp.
    #[must_use]
    pub fn ttl_raw(self, ttl: u32) -> (r: Store)
        ensures
            r == (Store { ttl: Some(Ttl { repr: TtlRepr::Raw(ttl) }), ..self }),
    {
        Store { ttl: Some(Ttl::raw(ttl)), ..self }
    }

    /// The client flags stored with the item (default zero).
    #[must_use]
    pub fn client_flags(self, flags: u32) -> (r: Store)
        ensures
            r == (Store { client_flags: flags, ..self }),
    {
        Store { client_flags: flags, ..self }
    }

    /// The storage mode.
    #[must_use]
    pub fn mode(self, mode: SetMode) -> (r: Store)
        ensures
            r == (Store { mode: mode, ..self }),
    {
        Store { mode: mode, ..self }
    }

    /// Store only when the item does not exist.
    #[must_use]
    pub fn add(self) -> (r: Store)
        ensures
            r == (Store { mode: SetMode::Add, ..self }),
    {
        Store { mode: SetMode::Add, ..self }
    }

    /// Store only when the item exists.
    #[must_use]
    pub fn replace(self) -> (r: Store)
        ensures
            r == (Store { mode: SetMode::Replace, ..self }),
    {
        Store { mode: SetMode::Replace, ..self }
    }

    /// Append raw bytes to the stored value.
    #[must_use]
    pub fn append(self) -> (r: Store)
        ensures
            r == (Store { mode: SetMode::Append, ..self }),
    {
        Store { mode: SetMode::Append, ..self }
    }

    /// Prepend raw bytes to the stored value.
    #[must_use]
    pub fn prepend(self) -> (r: Store)
        ensures
            r == (Store { mode: SetMode::Prepend, ..self }),
    {
        Store { mode: SetMode::Prepend, ..self }
    }

    /// Store only when the item CAS matches.
    #[must_use]
    pub fn compare_cas(self, cas: u64) -> (r: Store)
        ensures
            r == (Store { compare_cas: Some(cas), ..self }),
    {
        Store { compare_cas: Some(cas), ..self }
    }

    /// Overwrite the item CAS with this value (protocol `E` flag) - for
    /// replicating or restoring items, not for normal CAS loops.
    #[must_use]
    pub fn force_cas(self, cas: u64) -> (r: Store)
        ensures
            r == (Store { force_cas: Some(cas), ..self }),
    {
        Store { force_cas: Some(cas), ..self }
    }

    /// Return the new item CAS in the result.
    #[must_use]
    pub fn return_cas(self) -> (r: Store)
        ensures
            r == (Store { return_cas: true, ..self }),
    {
        Store { return_cas: true, ..self }
    }

    /// For append/prepend, vivify a missing item with this TTL.
    #[must_use]
    pub fn vivify_ttl(self, ttl: u32) -> (r: Store)
        ensures
            r == (Store { vivify_ttl: Some(ttl), ..self }),
    {
        Store { vivify_ttl: Some(ttl), ..self }
    }
}

/// A delete operation (`md`).
#[derive(Debug, Clone, PartialEq, Eq)]
pub struct Delete {
    pub key: Vec<u8>,
    /// Delete only when the item CAS matches.
    pub compare_cas: Option<u64>,
    /// Mark the item stale instead of removing it; readers then see the old
    /// value flagged stale until someone refreshes it.
    pub invalidate: bool,
    /// For invalidate, how long the stale item stays readable.
    pub stale_for: Option<Ttl>,
}

impl Delete {
    pub fn new(key: &[u8]) -> (r: Delete)
        ensures
            r.key@ == key@,
            r == (Delete { key: r.key, compare_cas: None, invalidate: false, stale_for: None }),
    {
        Delete { key: bytes::copy(key), compare_cas: None, invalidate: false, stale_for: None }
    }

    /// Delete only when the item CAS matches.
    #[must_use]
    pub fn compare_cas(self, cas: u64) -> (r: Delete)
        ensures
            r == (Delete { compare_cas: Some(cas), ..self }),
    {
        Delete { compare_cas: Some(cas), ..self }
    }

    /// Mark the item stale instead of removing it.
    #[must_use]
    pub fn invalidate(self) -> (r: Delete)
        ensures
            r == (Delete { invalidate: true, ..self }),
    {
        Delete { invalidate: true, ..self }
    }

    /// For invalidate, how long the stale item stays readable.
    #[must_use]
    pub fn stale_for(self, ttl: Ttl) -> (r: Delete)
        ensures
            r == (Delete { stale_for: Some(ttl), ..self }),
    {
        Delete { stale_for: Some(ttl), ..self }
    }

    /// For invalidate, how long the stale item stays readable, as a raw
    /// protocol value.
    #[must_use]
    pub fn stale_for_raw(self, ttl: u32) -> (r: Delete)
        ensures
            r == (Delete { stale_for: Some(Ttl { repr: TtlRepr::Raw(ttl) }), ..self }),
    {
        Delete { stale_for: Some(Ttl::raw(ttl)), ..self }
    }
}

/// A counter operation (`ma`).
#[derive(Debug, Clone, PartialEq, Eq)]
pub struct Arithmetic {
    pub key: Vec<u8>,
    pub delta: u64,
    pub mode: ArithmeticMode,
    /// Initial value when vivifying a missing item; requires `initial_ttl`.
    pub initial: Option<u64>,
    /// TTL for the vivified item; requires `initial`. Must be >= 1. This is
    /// the protocol `N` flag, the same mechanism as [`Get::lease_ttl`] and
    /// [`Store::vivify_ttl`].
    pub initial_ttl: Option<u32>,
    /// Update the item TTL while applying the delta.
    pub ttl: Option<Ttl>,
    /// Apply only when the item CAS matches.
    pub compare_cas: Option<u64>,
    /// Overwrite the item CAS with this value instead of a server-chosen one
    /// (protocol `E` flag) - for replicating or restoring items with a known
    /// CAS, not for normal CAS loops (use `compare_cas`).
    pub force_cas: Option<u64>,
    /// Return the new item CAS in the result.
    pub return_cas: bool,
    /// Return the remaining TTL in the result.
    pub return_ttl: bool,
}

impl Arithmetic {
    pub fn new(key: &[u8]) -> (r: Arithmetic)
        ensures
            r.key@ == key@,
            r == (Arithmetic {
                key: r.key,
                delta: 1,
                mode: ArithmeticMode::Increment,
                initial: None,
                initial_ttl: None,
                ttl: None,
                compare_cas: None,
                force_cas: None,
                return_cas: false,
                return_ttl: false,
            }),
    {
        Arithmetic {
            key: bytes::copy(key),
            delta: 1,
            mode: ArithmeticMode::Increment,
            initial: None,
            initial_ttl: None,
            ttl: None,
            compare_cas: None,
            force_cas: None,
            return_cas: false,
            return_ttl: false,
        }
    }

    /// How far to move the counter.
    #[must_use]
    pub fn delta(self, delta: u64) -> (r: Arithmetic)
        ensures
            r == (Arithmetic { delta: delta, ..self }),
    {
        Arithmetic { delta: delta, ..self }
    }

    /// Decrement instead of increment.
    #[must_use]
    pub fn decrement(self) -> (r: Arithmetic)
        ensures
            r == (Arithmetic { mode: ArithmeticMode::Decrement, ..self }),
    {
        Arithmetic { mode: ArithmeticMode::Decrement, ..self }
    }

    /// Vivify a missing item with this value and TTL. The protocol requires the
    /// pair, so they are set together.
    #[must_use]
    pub fn initial(self, value: u64, ttl: u32) -> (r: Arithmetic)
        ensures
            r == (Arithmetic { initial: Some(value), initial_ttl: Some(ttl), ..self }),
    {
        Arithmetic { initial: Some(value), initial_ttl: Some(ttl), ..self }
    }

    /// Update the item TTL while applying the delta.
    #[must_use]
    pub fn ttl(self, ttl: Ttl) -> (r: Arithmetic)
        ensures
            r == (Arithmetic { ttl: Some(ttl), ..self }),
    {
        Arithmetic { ttl: Some(ttl), ..self }
    }

    /// Update the item TTL while applying the delta, with a raw protocol value:
    /// `0` never expires, a value above 30 days is an absolute unix timestamp.
    #[must_use]
    pub fn ttl_raw(self, ttl: u32) -> (r: Arithmetic)
        ensures
            r == (Arithmetic { ttl: Some(Ttl { repr: TtlRepr::Raw(ttl) }), ..self }),
    {
        Arithmetic { ttl: Some(Ttl::raw(ttl)), ..self }
    }

    /// Apply only when the item CAS matches.
    #[must_use]
    pub fn compare_cas(self, cas: u64) -> (r: Arithmetic)
        ensures
            r == (Arithmetic { compare_cas: Some(cas), ..self }),
    {
        Arithmetic { compare_cas: Some(cas), ..self }
    }

    /// Overwrite the item CAS with this value (protocol `E` flag) - for
    /// replicating or restoring items, not for normal CAS loops.
    #[must_use]
    pub fn force_cas(self, cas: u64) -> (r: Arithmetic)
        ensures
            r == (Arithmetic { force_cas: Some(cas), ..self }),
    {
        Arithmetic { force_cas: Some(cas), ..self }
    }

    /// Return the new item CAS in the result.
    #[must_use]
    pub fn return_cas(self) -> (r: Arithmetic)
        ensures
            r == (Arithmetic { return_cas: true, ..self }),
    {
        Arithmetic { return_cas: true, ..self }
    }

    /// Return the remaining TTL in the result.
    #[must_use]
    pub fn return_ttl(self) -> (r: Arithmetic)
        ensures
            r == (Arithmetic { return_ttl: true, ..self }),
    {
        Arithmetic { return_ttl: true, ..self }
    }
}

/// Any operation, for heterogeneous batches. Running an `Op` yields an
/// [`OpResult`](super::result::OpResult).
#[derive(Debug, Clone, PartialEq, Eq)]
#[non_exhaustive]
pub enum Op {
    Get(Get),
    Store(Store),
    Delete(Delete),
    Arithmetic(Arithmetic),
}

impl vstd::std_specs::convert::FromSpecImpl<Get> for Op {
    open spec fn obeys_from_spec() -> bool {
        true
    }

    open spec fn from_spec(operation: Get) -> Op {
        Op::Get(operation)
    }
}

impl From<Get> for Op {
    fn from(operation: Get) -> (r: Op) {
        Op::Get(operation)
    }
}

impl vstd::std_specs::convert::FromSpecImpl<Store> for Op {
    open spec fn obeys_from_spec() -> bool {
        true
    }

    open spec fn from_spec(operation: Store) -> Op {
        Op::Store(operation)
    }
}

impl From<Store> for Op {
    fn from(operation: Store) -> (r: Op) {
        Op::Store(operation)
    }
}

impl vstd::std_specs::convert::FromSpecImpl<Delete> for Op {
    open spec fn obeys_from_spec() -> bool {
        true
    }

    open spec fn from_spec(operation: Delete) -> Op {
        Op::Delete(operation)
    }
}

impl From<Delete> for Op {
    fn from(operation: Delete) -> (r: Op) {
        Op::Delete(operation)
    }
}

impl vstd::std_specs::convert::FromSpecImpl<Arithmetic> for Op {
    open spec fn obeys_from_spec() -> bool {
        true
    }

    open spec fn from_spec(operation: Arithmetic) -> Op {
        Op::Arithmetic(operation)
    }
}

impl From<Arithmetic> for Op {
    fn from(operation: Arithmetic) -> (r: Op) {
        Op::Arithmetic(operation)
    }
}

} // verus!
