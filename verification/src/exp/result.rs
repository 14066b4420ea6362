//! Typed results for the semantic layer.
//!
//! Results describe protocol-level outcomes (miss, CAS mismatch, lease state);
//! transport and parse failures surface as [`Error`](super::error::Error)
//! instead.

use vstd::prelude::*;

use super::error::Error;
use super::value::Decode;
use crate::bytes;

verus! {

/// Outcome of a [`Get`](super::operation::Get) operation.
#[derive(Debug, Clone, Copy, PartialEq, Eq, Structural)]
#[non_exhaustive]
pub enum GetStatus {
    /// The item was found (the value is present when it was requested).
    Hit,
    /// The item was not found.
    Miss,
    /// The item is a placeholder another client is currently filling.
    Pending,
    /// `unless_cas` matched, so the server suppressed the value.
    Unchanged,
}

/// Outcome of a mutation ([`Store`](super::operation::Store) /
/// [`Delete`](super::operation::Delete) /
/// [`Arithmetic`](super::operation::Arithmetic)).
#[derive(Debug, Clone, Copy, PartialEq, Eq, Structural)]
#[non_exhaustive]
pub enum MutationStatus {
    /// The mutation took effect: the value was stored, the item deleted, or
    /// the counter adjusted.
    Applied,
    /// The item does not exist.
    NotFound,
    /// Add mode: the item already exists.
    AlreadyExists,
    /// `compare_cas` did not match the item.
    CasMismatch,
}

/// Freshness of a returned value.
#[derive(Debug, Clone, Copy, PartialEq, Eq, Structural)]
#[non_exhaustive]
pub enum ValueState {
    Fresh,
    /// The item was invalidated and awaits a refresh.
    Stale,
    Missing,
}

/// Lease outcome of a [`Get`](super::operation::Get) with
/// `lease_ttl`/`refresh_before`.
#[derive(Debug, Clone, Copy, PartialEq, Eq, Structural)]
#[non_exhaustive]
pub enum LeaseState {
    /// No lease was requested or granted.
    Absent,
    /// This client won the lease and should recompute the value.
    Granted,
    /// Another client holds the lease.
    Busy,
}

/// Item metadata requested via [`Meta`](super::operation::Meta); a field is
/// `None` when it was not requested or the server did not send it.
#[derive(Debug, Clone, Copy, PartialEq, Eq, Structural)]
pub struct ItemMeta {
    pub cas: Option<u64>,
    /// Remaining TTL in seconds; `-1` means unlimited.
    pub ttl: Option<i64>,
    pub size: Option<u64>,
    pub last_access: Option<u64>,
    pub hit_before: Option<bool>,
}

impl ItemMeta {
    pub open spec fn unknown() -> ItemMeta {
        ItemMeta { cas: None, ttl: None, size: None, last_access: None, hit_before: None }
    }
}

impl Default for ItemMeta {
    fn default() -> (r: ItemMeta)
        ensures
            r == ItemMeta::unknown(),
    {
        ItemMeta { cas: None, ttl: None, size: None, last_access: None, hit_before: None }
    }
}

/// Result of a [`Get`](super::operation::Get) operation.
#[derive(Debug, Clone, PartialEq, Eq)]
pub struct GetResult {
    pub key: Vec<u8>,
    pub status: GetStatus,
    /// The raw value; present only on a [`Hit`](GetStatus::Hit) that requested
    /// the value.
    pub value: Option<Vec<u8>>,
    /// The client flags stored with the item, used by
    /// [`decode`](Self::decode).
    pub client_flags: Option<u32>,
    pub item: ItemMeta,
    pub value_state: ValueState,
    pub lease_state: LeaseState,
}

/// What a [`GetResult`] holds.
pub struct GetResultView {
    pub key: Seq<u8>,
    pub status: GetStatus,
    pub value: Option<Seq<u8>>,
    pub client_flags: Option<u32>,
    pub item: ItemMeta,
    pub value_state: ValueState,
    pub lease_state: LeaseState,
}

impl View for GetResult {
    type V = GetResultView;

    open spec fn view(&self) -> GetResultView {
        GetResultView {
            key: self.key@,
            status: self.status,
            value: bytes::view_opt(self.value),
            client_flags: self.client_flags,
            item: self.item,
            value_state: self.value_state,
            lease_state: self.lease_state,
        }
    }
}

impl GetResult {
    pub fn hit(&self) -> (r: bool)
        ensures
            r == (self.status == GetStatus::Hit),
    {
        self.status == GetStatus::Hit
    }

    /// Decode the value into the requested type; `Ok(None)` when there is no
    /// value.
    pub fn decode<V: Decode>(self) -> (r: Result<Option<V>, Error>)
        ensures
            match (self@.value, r) {
                (None, Ok(None)) => true,
                (Some(bytes), Ok(Some(value))) => V::decode_fault(bytes, self.flags_or_zero()) is None
                    && V::stands_for(bytes, self.flags_or_zero(), value),
                (Some(bytes), Err(e)) => e@ is Decode && V::decode_fault(bytes, self.flags_or_zero()) == Some(
                    e@->Decode_0,
                ),
                _ => false,
            },
    {
        let flags = match self.client_flags {
            Some(flags) => flags,
            None => 0,
        };
        match self.value {
            None => Ok(None),
            Some(value) => match V::decode(value, flags) {
                Ok(value) => Ok(Some(value)),
                Err(e) => Err(Error::Decode(e)),
            },
        }
    }

    pub open spec fn flags_or_zero(&self) -> u32 {
        match self.client_flags {
            Some(flags) => flags,
            None => 0,
        }
    }

    pub fn is_stale(&self) -> (r: bool)
        ensures
            r == (self.value_state == ValueState::Stale),
    {
        self.value_state == ValueState::Stale
    }

    /// This client won the lease and should recompute the value.
    pub fn won_lease(&self) -> (r: bool)
        ensures
            r == (self.lease_state == LeaseState::Granted),
    {
        self.lease_state == LeaseState::Granted
    }

    /// Another client already holds the lease.
    pub fn lease_busy(&self) -> (r: bool)
        ensures
            r == (self.lease_state == LeaseState::Busy),
    {
        self.lease_state == LeaseState::Busy
    }
}

/// Result of a [`Store`](super::operation::Store) or
/// [`Delete`](super::operation::Delete) operation.
#[derive(Debug, Clone, PartialEq, Eq)]
pub struct MutationResult {
    pub key: Vec<u8>,
    pub status: MutationStatus,
    /// The new item CAS, when requested with `return_cas`.
    pub cas: Option<u64>,
}

/// What a [`MutationResult`] holds.
pub struct MutationResultView {
    pub key: Seq<u8>,
    pub status: MutationStatus,
    pub cas: Option<u64>,
}

impl View for MutationResult {
    type V = MutationResultView;

    open spec fn view(&self) -> MutationResultView {
        MutationResultView { key: self.key@, status: self.status, cas: self.cas }
    }
}

impl MutationResult {
    /// Whether the mutation took effect.
    pub fn applied(&self) -> (r: bool)
        ensures
            r == (self.status == MutationStatus::Applied),
    {
        self.status == MutationStatus::Applied
    }
}

/// Result of an [`Arithmetic`](super::operation::Arithmetic) operation.
#[derive(Debug, Clone, PartialEq, Eq)]
pub struct ArithmeticResult {
    pub key: Vec<u8>,
    pub status: MutationStatus,
    /// The counter value after the operation, unless suppressed.
    pub value: Option<u64>,
    pub item: ItemMeta,
}

/// What an [`ArithmeticResult`] holds.
pub struct ArithmeticResultView {
    pub key: Seq<u8>,
    pub status: MutationStatus,
    pub value: Option<u64>,
    pub item: ItemMeta,
}

impl View for ArithmeticResult {
    type V = ArithmeticResultView;

    open spec fn view(&self) -> ArithmeticResultView {
        ArithmeticResultView { key: self.key@, status: self.status, value: self.value, item: self.item }
    }
}

impl ArithmeticResult {
    /// Whether the delta was applied (or the counter vivified).
    pub fn applied(&self) -> (r: bool)
        ensures
            r == (self.status == MutationStatus::Applied),
    {
        self.status == MutationStatus::Applied
    }
}

/// Result of an [`Op`](super::operation::Op) in a batch, one variant per
/// operation kind ([`Store`](super::operation::Store) and
/// [`Delete`](super::operation::Delete) both yield `Mutation`).
#[derive(Debug, Clone, PartialEq, Eq)]
#[non_exhaustive]
pub enum OpResult {
    Get(GetResult),
    Mutation(MutationResult),
    Arithmetic(ArithmeticResult),
}

/// What an [`OpResult`] holds.
pub enum OpResultView {
    Get(GetResultView),
    Mutation(MutationResultView),
    Arithmetic(ArithmeticResultView),
}

impl View for OpResult {
    type V = OpResultView;

    open spec fn view(&self) -> OpResultView {
        match *self {
            OpResult::Get(result) => OpResultView::Get(result@),
            OpResult::Mutation(result) => OpResultView::Mutation(result@),
            OpResult::Arithmetic(result) => OpResultView::Arithmetic(result@),
        }
    }
}

impl OpResult {
    pub fn as_get(&self) -> (r: Option<&GetResult>)
        ensures
            match r {
                Some(result) => *self == OpResult::Get(*result),
                None => !(self is Get),
            },
    {
        match self {
            OpResult::Get(result) => Some(result),
            _ => None,
        }
    }

    pub fn as_mutation(&self) -> (r: Option<&MutationResult>)
        ensures
            match r {
                Some(result) => *self == OpResult::Mutation(*result),
                None => !(self is Mutation),
            },
    {
        match self {
            OpResult::Mutation(result) => Some(result),
            _ => None,
        }
    }

    pub fn as_arithmetic(&self) -> (r: Option<&ArithmeticResult>)
        ensures
            match r {
                Some(result) => *self == OpResult::Arithmetic(*result),
                None => !(self is Arithmetic),
            },
    {
        match self {
            OpResult::Arithmetic(result) => Some(result),
            _ => None,
        }
    }
}

} // verus!
