//! Scenario layer: plan functions build the wire command for one verb, finish
//! functions reduce its response to the verb's answer. Both are pure, so the
//! blocking and tokio clients share every semantic decision and only differ in
//! how they move bytes.

use vstd::prelude::*;
use vstd::string::*;

use super::error;
use super::error::{Error, ErrorView};
use super::meta_api;
use super::meta_api::{
    build_arithmetic, build_delete, build_get, build_set, ArithmeticMode, ArithmeticOptions, DeleteOptions, GetOptions,
    MetaCommandResult, MetaCommandResultView, SetMode, SetOptions,
};
use super::meta_command::{MetaCommand, MetaCommandView, ReturnCode};
use super::semantics;
use super::ttl;
use super::ttl::{Freshness, Ttl, TtlRepr};
use super::value::{Decode, Encode, Encoded, EncodedView};
use crate::bytes;
use crate::decimal;
use crate::text;
use crate::time::{Duration, SystemTime};

verus! {

/// How long a miss-path lease lives: the zero-byte placeholder created by
/// vivify expires on its own, so a crashed winner's exclusive right to
/// recompute is re-elected later.
pub const LEASE_TTL_SECS: u32 = 30;

/// How many times a cross-process loser waits before it computes locally.
pub const WAIT_ATTEMPTS: usize = 5;

/// Bound of the optimistic loops in `update` and `take`.
pub const UPDATE_ATTEMPTS: usize = 8;

/// A cross-process loser's wait schedule in milliseconds; exhausted, it
/// computes locally without writing back.
pub open spec fn backoff_millis(attempt: int) -> Option<u64> {
    if attempt == 0 {
        Some(25)
    } else if attempt == 1 {
        Some(50)
    } else if attempt == 2 {
        Some(100)
    } else if attempt == 3 {
        Some(200)
    } else if attempt == 4 {
        Some(400)
    } else {
        None
    }
}

/// The wait before attempt `attempt + 1`, if there is one.
pub fn wait_backoff(attempt: usize) -> (r: Option<Duration>)
    ensures
        match r {
            Some(wait) => backoff_millis(attempt as int) matches Some(millis) && wait.nanos == millis * 1_000_000,
            None => backoff_millis(attempt as int) is None,
        },
        r is Some <==> attempt < WAIT_ATTEMPTS,
{
    if attempt == 0 {
        Some(Duration::from_millis(25))
    } else if attempt == 1 {
        Some(Duration::from_millis(50))
    } else if attempt == 2 {
        Some(Duration::from_millis(100))
    } else if attempt == 3 {
        Some(Duration::from_millis(200))
    } else if attempt == 4 {
        Some(Duration::from_millis(400))
    } else {
        None
    }
}

/// Read-only item metadata returned by `inspect`.
#[derive(Debug, Clone, Copy, PartialEq, Eq, Structural)]
#[non_exhaustive]
pub struct ItemInfo {
    /// Time left before expiry; `None` when the item never expires.
    pub ttl: Option<Duration>,
    /// Stored value size in bytes.
    pub size: u64,
    /// Time since the item was last read or written.
    pub last_access: Duration,
    /// Whether the item was hit since it was stored.
    pub hit_before: bool,
}

/// One read response reduced to the facts the scenario layer branches on. A
/// miss (`EN`) is `hit == false` with everything else empty.
#[derive(Debug, Clone, PartialEq, Eq)]
pub struct ReadView {
    pub hit: bool,
    pub value: Option<Vec<u8>>,
    pub flags: u32,
    pub cas: Option<u64>,
    pub ttl: Option<i64>,
    pub size: Option<u64>,
    pub last_access: Option<u64>,
    pub hit_before: Option<bool>,
    pub won: bool,
    pub busy: bool,
    pub stale: bool,
}

/// What a [`ReadView`] holds.
pub struct ReadFacts {
    pub hit: bool,
    pub value: Option<Seq<u8>>,
    pub flags: u32,
    pub cas: Option<u64>,
    pub ttl: Option<i64>,
    pub size: Option<u64>,
    pub last_access: Option<u64>,
    pub hit_before: Option<bool>,
    pub won: bool,
    pub busy: bool,
    pub stale: bool,
}

impl View for ReadView {
    type V = ReadFacts;

    open spec fn view(&self) -> ReadFacts {
        ReadFacts {
            hit: self.hit,
            value: bytes::view_opt(self.value),
            flags: self.flags,
            cas: self.cas,
            ttl: self.ttl,
            size: self.size,
            last_access: self.last_access,
            hit_before: self.hit_before,
            won: self.won,
            busy: self.busy,
            stale: self.stale,
        }
    }
}

/// An accidentally consumed stale-recache token.
#[derive(Debug, Clone, Copy, PartialEq, Eq, Structural)]
pub struct StaleWin {
    pub cas: u64,
    pub ttl: Option<i64>,
}

impl ReadFacts {
    /// The facts of a miss.
    pub open spec fn miss() -> ReadFacts {
        ReadFacts {
            hit: false,
            value: None,
            flags: 0,
            cas: None,
            ttl: None,
            size: None,
            last_access: None,
            hit_before: None,
            won: false,
            busy: false,
            stale: false,
        }
    }

    /// A value-bearing hit, zero-byte values folded away: placeholders and
    /// genuinely empty items both read as "nothing here".
    pub open spec fn has_value(self) -> bool {
        self.hit && self.value is Some && self.value->0.len() > 0
    }

    /// The bytes that were read, none where there are none.
    pub open spec fn bytes(self) -> Seq<u8> {
        match self.value {
            Some(value) => value,
            None => Seq::empty(),
        }
    }

    /// The stale-recache token that the read won.
    pub open spec fn stale_win(self) -> Option<StaleWin> {
        match self.cas {
            Some(cas) => if self.stale && self.won {
                Some(StaleWin { cas, ttl: self.ttl })
            } else {
                None
            },
            None => None,
        }
    }
}

impl Default for ReadView {
    fn default() -> (r: ReadView)
        ensures
            r@ == ReadFacts::miss(),
    {
        ReadView {
            hit: false,
            value: None,
            flags: 0,
            cas: None,
            ttl: None,
            size: None,
            last_access: None,
            hit_before: None,
            won: false,
            busy: false,
            stale: false,
        }
    }
}

impl ReadView {
    /// Whether the read is a value-bearing hit.
    pub fn has_value(&self) -> (r: bool)
        ensures
            r == self@.has_value(),
    {
        if !self.hit {
            return false;
        }
        match &self.value {
            Some(value) => value.len() > 0,
            None => false,
        }
    }

    /// The stale-recache token this read won by accident, to hand back with
    /// [`plan_return_win`]. memcached grants a stale item's single token to the
    /// first reader regardless of what it asked for and never re-grants it
    /// until the item is written; a read that cannot recompute would otherwise
    /// disable `fetch`'s election for the rest of the grace period.
    pub fn stale_win(&self) -> (r: Option<StaleWin>)
        ensures
            r == self@.stale_win(),
    {
        if self.stale && self.won {
            match self.cas {
                Some(cas) => Some(StaleWin { cas, ttl: self.ttl }),
                None => None,
            }
        } else {
            None
        }
    }

    fn into_bytes(self) -> (r: Vec<u8>)
        ensures
            r@ == self@.bytes(),
    {
        match self.value {
            Some(value) => value,
            None => Vec::new(),
        }
    }
}

/// The facts of a wire result that answers a read.
pub open spec fn read_facts(wire: MetaCommandResultView) -> Result<ReadFacts, ErrorView> {
    match wire.rc {
        ReturnCode::En => Ok(ReadFacts::miss()),
        ReturnCode::Va | ReturnCode::Hd => Ok(
            ReadFacts {
                hit: true,
                value: wire.value,
                flags: match wire.client_flags {
                    Some(flags) => flags,
                    None => 0,
                },
                cas: wire.cas,
                ttl: wire.ttl,
                size: wire.size,
                last_access: wire.last_access,
                hit_before: wire.hit_before,
                won: wire.won,
                busy: wire.busy,
                stale: wire.stale,
            },
        ),
        rc => Err(ErrorView::Protocol("unexpected read response "@ + rc.name())),
    }
}

pub fn read_view(wire: MetaCommandResult) -> (r: Result<ReadView, Error>)
    ensures
        match r {
            Ok(view) => read_facts(wire@) == Ok::<ReadFacts, ErrorView>(view@),
            Err(e) => read_facts(wire@) == Err::<ReadFacts, ErrorView>(e@),
        },
{
    match wire.rc {
        ReturnCode::En => Ok(ReadView::default()),
        ReturnCode::Va | ReturnCode::Hd => Ok(
            ReadView {
                hit: true,
                value: wire.value,
                flags: match wire.client_flags {
                    Some(flags) => flags,
                    None => 0,
                },
                cas: wire.cas,
                ttl: wire.ttl,
                size: wire.size,
                last_access: wire.last_access,
                hit_before: wire.hit_before,
                won: wire.won,
                busy: wire.busy,
                stale: wire.stale,
            },
        ),
        rc => Err(Error::Protocol(text::join("unexpected read response ", rc.to_str()))),
    }
}

/// Every scenario-level read asks for the CAS and TTL so a stale win can be
/// returned.
pub open spec fn base_read_spec() -> GetOptions {
    GetOptions { return_client_flags: true, return_cas: true, return_ttl: true, ..GetOptions::plain() }
}

fn base_read() -> (r: GetOptions)
    ensures
        r == base_read_spec(),
{
    GetOptions { return_client_flags: true, return_cas: true, return_ttl: true, ..GetOptions::default() }
}

/// The value read behind `update` and `take`.
pub open spec fn probe_plan(key: Seq<u8>) -> Result<MetaCommandView, ErrorView> {
    meta_api::get_command(key, base_read_spec())
}

/// The value read behind `update` and `take`.
pub fn plan_probe(key: &[u8]) -> (r: Result<MetaCommand, Error>)
    ensures
        match r {
            Ok(command) => probe_plan(key@) == Ok::<MetaCommandView, ErrorView>(command@),
            Err(e) => probe_plan(key@) == Err::<MetaCommandView, ErrorView>(e@),
        },
{
    build_get(key, &base_read())
}

/// The command of a plain read, optionally sliding the expiry.
pub open spec fn get_plan(key: Seq<u8>, touch: Option<Ttl>, now: SystemTime) -> Result<MetaCommandView, ErrorView> {
    match semantics::wire_opt(touch, now) {
        Err(e) => Err(e),
        Ok(touch) => meta_api::get_command(key, GetOptions { touch, ..base_read_spec() }),
    }
}

/// A plain read, optionally sliding the expiry (`get_touch`), with the TTL
/// resolved as of `now`.
pub fn plan_get_at(key: &[u8], touch: Option<Ttl>, now: SystemTime) -> (r: Result<MetaCommand, Error>)
    ensures
        match r {
            Ok(command) => get_plan(key@, touch, now) == Ok::<MetaCommandView, ErrorView>(command@),
            Err(e) => get_plan(key@, touch, now) == Err::<MetaCommandView, ErrorView>(e@),
        },
{
    match semantics::wire_ttl(touch, now) {
        Err(e) => Err(e),
        Ok(touch) => build_get(key, &GetOptions { touch, ..base_read() }),
    }
}

/// A plain read, optionally sliding the expiry (`get_touch`).
pub fn plan_get(key: &[u8], touch: Option<Ttl>) -> (r: Result<MetaCommand, Error>)
    ensures
        exists|now: SystemTime|
            match r {
                Ok(command) => #[trigger] get_plan(key@, touch, now) == Ok::<MetaCommandView, ErrorView>(command@),
                Err(e) => get_plan(key@, touch, now) == Err::<MetaCommandView, ErrorView>(e@),
            },
{
    let now = SystemTime::now();
    let r = plan_get_at(key, touch, now);
    assert(match r {
        Ok(command) => get_plan(key@, touch, now) == Ok::<MetaCommandView, ErrorView>(command@),
        Err(e) => get_plan(key@, touch, now) == Err::<MetaCommandView, ErrorView>(e@),
    });
    r
}

/// Decode a read into the caller's type; a miss, a placeholder and a
/// genuinely empty item all fold to `None` (the zero-byte rule).
pub fn finish_get<T: Decode>(view: ReadView) -> (r: Result<Option<T>, Error>)
    ensures
        match r {
            Ok(None) => !view@.has_value(),
            Ok(Some(value)) => view@.has_value() && T::decode_fault(view@.bytes(), view@.flags) is None
                && T::stands_for(view@.bytes(), view@.flags, value),
            Err(e) => view@.has_value() && (T::decode_fault(view@.bytes(), view@.flags) matches Some(message) && e@
                == ErrorView::Decode(message)),
        },
{
    if !view.has_value() {
        return Ok(None);
    }
    let flags = view.flags;
    match T::decode(view.into_bytes(), flags) {
        Ok(value) => Ok(Some(value)),
        Err(e) => Err(Error::Decode(e)),
    }
}

/// What a value is stored as, under the zero-byte rule.
pub open spec fn value_encoding<V: Encode>(value: V) -> Result<EncodedView, ErrorView> {
    match value.encoding() {
        Err(message) => Err(ErrorView::Encode(message)),
        Ok(encoded) => if encoded.bytes.len() == 0 {
            Err(ErrorView::EmptyValue)
        } else {
            Ok(encoded)
        },
    }
}

/// Encode a value for a scenario-level write, enforcing the zero-byte rule: a
/// zero-byte item is indistinguishable from a lease placeholder and every
/// scenario read folds it to a miss.
pub fn encode_value<V: Encode>(value: V) -> (r: Result<Encoded, Error>)
    ensures
        match r {
            Ok(encoded) => value_encoding(value) == Ok::<EncodedView, ErrorView>(encoded@),
            Err(e) => value_encoding(value) == Err::<EncodedView, ErrorView>(e@),
        },
{
    match value.encode() {
        Err(e) => Err(Error::Encode(e)),
        Ok(encoded) => {
            if encoded.bytes.len() == 0 {
                Err(Error::EmptyValue)
            } else {
                Ok(encoded)
            }
        },
    }
}

/// The command of a store.
pub open spec fn store_plan(
    key: Seq<u8>,
    value: EncodedView,
    ttl: Ttl,
    mode: SetMode,
    compare_cas: Option<u64>,
    now: SystemTime,
) -> Result<MetaCommandView, ErrorView> {
    match ttl.wire_spec(now) {
        Err(e) => Err(e),
        Ok(n) => meta_api::set_command(
            key,
            value.bytes,
            SetOptions {
                client_flags: semantics::wire_flags(value.flags),
                ttl: Some(n),
                mode,
                compare_cas,
                ..SetOptions::plain()
            },
        ),
    }
}

/// A store whose answer is whether it was applied, with the TTL resolved as of
/// `now`.
pub fn plan_store_at(
    key: &[u8],
    value: &Encoded,
    ttl: Ttl,
    mode: SetMode,
    compare_cas: Option<u64>,
    now: SystemTime,
) -> (r: Result<MetaCommand, Error>)
    ensures
        match r {
            Ok(command) => store_plan(key@, value@, ttl, mode, compare_cas, now) == Ok::<MetaCommandView, ErrorView>(command@),
            Err(e) => store_plan(key@, value@, ttl, mode, compare_cas, now) == Err::<MetaCommandView, ErrorView>(e@),
        },
{
    match ttl.wire_at(now) {
        Err(e) => Err(e),
        Ok(n) => {
            let options = SetOptions {
                client_flags: if value.flags != 0 {
                    Some(value.flags)
                } else {
                    None
                },
                ttl: Some(n),
                mode,
                compare_cas,
                ..SetOptions::default()
            };
            build_set(key, value.bytes.as_slice(), &options)
        },
    }
}

/// A store whose answer is whether it was applied; `NS` / `EX` / `NF` mean the
/// write's condition failed, which is an answer rather than an error.
pub fn plan_store(key: &[u8], value: &Encoded, ttl: Ttl, mode: SetMode, compare_cas: Option<u64>) -> (r: Result<MetaCommand, Error>)
    ensures
        exists|now: SystemTime|
            match r {
                Ok(command) => #[trigger] store_plan(key@, value@, ttl, mode, compare_cas, now) == Ok::<MetaCommandView, ErrorView>(command@),
                Err(e) => store_plan(key@, value@, ttl, mode, compare_cas, now) == Err::<MetaCommandView, ErrorView>(e@),
            },
{
    let now = SystemTime::now();
    let r = plan_store_at(key, value, ttl, mode, compare_cas, now);
    assert(match r {
        Ok(command) => store_plan(key@, value@, ttl, mode, compare_cas, now) == Ok::<MetaCommandView, ErrorView>(command@),
        Err(e) => store_plan(key@, value@, ttl, mode, compare_cas, now) == Err::<MetaCommandView, ErrorView>(e@),
    });
    r
}

/// Whether a return code says that a store was applied.
pub open spec fn store_answer(rc: ReturnCode) -> Result<bool, ErrorView> {
    match rc {
        ReturnCode::Hd => Ok(true),
        ReturnCode::Ns | ReturnCode::Ex | ReturnCode::Nf => Ok(false),
        rc => Err(ErrorView::Protocol("unexpected store response "@ + rc.name())),
    }
}

pub fn finish_store(wire: &MetaCommandResult) -> (r: Result<bool, Error>)
    ensures
        match r {
            Ok(stored) => store_answer(wire.rc) == Ok::<bool, ErrorView>(stored),
            Err(e) => store_answer(wire.rc) == Err::<bool, ErrorView>(e@),
        },
{
    match wire.rc {
        ReturnCode::Hd => Ok(true),
        ReturnCode::Ns | ReturnCode::Ex | ReturnCode::Nf => Ok(false),
        rc => Err(Error::Protocol(text::join("unexpected store response ", rc.to_str()))),
    }
}

/// Why a return code is no success of an unconditional set, if it is none.
pub open spec fn set_fault(rc: ReturnCode) -> Option<ErrorView> {
    match store_answer(rc) {
        Ok(true) => None,
        Ok(false) => Some(error::protocol("unconditional set was not stored")),
        Err(e) => Some(e),
    }
}

/// The answer of an unconditional set, which has to be stored.
pub fn finish_set(wire: &MetaCommandResult) -> (r: Result<(), Error>)
    ensures
        match r {
            Ok(_) => set_fault(wire.rc) is None,
            Err(e) => set_fault(wire.rc) == Some(e@),
        },
{
    match finish_store(wire) {
        Ok(true) => Ok(()),
        Ok(false) => Err(Error::protocol("unconditional set was not stored")),
        Err(e) => Err(e),
    }
}

/// The command of a delete, or of a soft invalidation when `grace` is given.
pub open spec fn erase_plan(
    key: Seq<u8>,
    grace: Option<Ttl>,
    compare_cas: Option<u64>,
    now: SystemTime,
) -> Result<MetaCommandView, ErrorView> {
    match semantics::wire_opt(grace, now) {
        Err(e) => Err(e),
        Ok(ttl) => meta_api::delete_command(
            key,
            DeleteOptions { compare_cas, invalidate: grace is Some, ttl, ..DeleteOptions::plain() },
        ),
    }
}

/// A delete or a soft invalidation, with the grace resolved as of `now`.
pub fn plan_erase_at(
    key: &[u8],
    grace: Option<Ttl>,
    compare_cas: Option<u64>,
    now: SystemTime,
) -> (r: Result<MetaCommand, Error>)
    ensures
        match r {
            Ok(command) => erase_plan(key@, grace, compare_cas, now) == Ok::<MetaCommandView, ErrorView>(command@),
            Err(e) => erase_plan(key@, grace, compare_cas, now) == Err::<MetaCommandView, ErrorView>(e@),
        },
{
    match semantics::wire_ttl(grace, now) {
        Err(e) => Err(e),
        Ok(ttl) => {
            let options = DeleteOptions {
                compare_cas,
                invalidate: grace.is_some(),
                ttl,
                ..DeleteOptions::default()
            };
            build_delete(key, &options)
        },
    }
}

/// A delete, or a soft invalidation when `grace` is given, answering whether
/// there was something to erase.
pub fn plan_erase(key: &[u8], grace: Option<Ttl>, compare_cas: Option<u64>) -> (r: Result<MetaCommand, Error>)
    ensures
        exists|now: SystemTime|
            match r {
                Ok(command) => #[trigger] erase_plan(key@, grace, compare_cas, now) == Ok::<MetaCommandView, ErrorView>(command@),
                Err(e) => erase_plan(key@, grace, compare_cas, now) == Err::<MetaCommandView, ErrorView>(e@),
            },
{
    let now = SystemTime::now();
    let r = plan_erase_at(key, grace, compare_cas, now);
    assert(match r {
        Ok(command) => erase_plan(key@, grace, compare_cas, now) == Ok::<MetaCommandView, ErrorView>(command@),
        Err(e) => erase_plan(key@, grace, compare_cas, now) == Err::<MetaCommandView, ErrorView>(e@),
    });
    r
}

/// Whether a return code says that something was erased.
pub open spec fn erase_answer(rc: ReturnCode) -> Result<bool, ErrorView> {
    match rc {
        ReturnCode::Hd => Ok(true),
        ReturnCode::Nf | ReturnCode::Ex => Ok(false),
        rc => Err(ErrorView::Protocol("unexpected delete response "@ + rc.name())),
    }
}

pub fn finish_erase(wire: &MetaCommandResult) -> (r: Result<bool, Error>)
    ensures
        match r {
            Ok(erased) => erase_answer(wire.rc) == Ok::<bool, ErrorView>(erased),
            Err(e) => erase_answer(wire.rc) == Err::<bool, ErrorView>(e@),
        },
{
    match wire.rc {
        ReturnCode::Hd => Ok(true),
        ReturnCode::Nf | ReturnCode::Ex => Ok(false),
        rc => Err(Error::Protocol(text::join("unexpected delete response ", rc.to_str()))),
    }
}

/// `invalidate`'s grace must be a positive duration; [`Ttl::never`] would keep
/// the item stale forever and zero is rejected by `Ttl` itself.
pub fn grace_ttl(grace: Duration) -> (r: Result<Ttl, Error>)
    ensures
        match r {
            Ok(grace_ttl) => grace.nanos > 0 && grace_ttl.repr == TtlRepr::Secs(ttl::ceil_secs_spec(grace)),
            Err(e) => grace.nanos == 0 && e@ == error::usage(
                "invalidate grace must be positive; use delete for a hard delete",
            ),
        },
{
    if grace.is_zero() {
        return Err(Error::Usage("invalidate grace must be positive; use delete for a hard delete"));
    }
    Ok(Ttl::from(grace))
}

/// The command of a blind expiry extension.
pub open spec fn touch_plan(key: Seq<u8>, ttl: Ttl, now: SystemTime) -> Result<MetaCommandView, ErrorView> {
    match ttl.wire_spec(now) {
        Err(e) => Err(e),
        Ok(n) => meta_api::get_command(
            key,
            GetOptions { value: false, return_client_flags: false, touch: Some(n), ..base_read_spec() },
        ),
    }
}

/// A blind expiry extension with the TTL resolved as of `now`.
pub fn plan_touch_at(key: &[u8], ttl: Ttl, now: SystemTime) -> (r: Result<MetaCommand, Error>)
    ensures
        match r {
            Ok(command) => touch_plan(key@, ttl, now) == Ok::<MetaCommandView, ErrorView>(command@),
            Err(e) => touch_plan(key@, ttl, now) == Err::<MetaCommandView, ErrorView>(e@),
        },
{
    match ttl.wire_at(now) {
        Err(e) => Err(e),
        Ok(n) => build_get(
            key,
            &GetOptions { value: false, return_client_flags: false, touch: Some(n), ..base_read() },
        ),
    }
}

/// A blind expiry extension without transferring the value.
pub fn plan_touch(key: &[u8], ttl: Ttl) -> (r: Result<MetaCommand, Error>)
    ensures
        exists|now: SystemTime|
            match r {
                Ok(command) => #[trigger] touch_plan(key@, ttl, now) == Ok::<MetaCommandView, ErrorView>(command@),
                Err(e) => touch_plan(key@, ttl, now) == Err::<MetaCommandView, ErrorView>(e@),
            },
{
    let now = SystemTime::now();
    let r = plan_touch_at(key, ttl, now);
    assert(match r {
        Ok(command) => touch_plan(key@, ttl, now) == Ok::<MetaCommandView, ErrorView>(command@),
        Err(e) => touch_plan(key@, ttl, now) == Err::<MetaCommandView, ErrorView>(e@),
    });
    r
}

/// The command of `incr` / `decr`.
pub open spec fn counter_plan(
    key: Seq<u8>,
    delta: u64,
    decrement: bool,
    ttl: Ttl,
    now: SystemTime,
) -> Result<MetaCommandView, ErrorView> {
    match ttl.wire_spec(now) {
        Err(e) => Err(e),
        Ok(n) => meta_api::arithmetic_command(
            key,
            ArithmeticOptions {
                delta: Some(delta),
                mode: if decrement {
                    ArithmeticMode::Decrement
                } else {
                    ArithmeticMode::Increment
                },
                initial: Some(
                    if decrement {
                        0
                    } else {
                        delta
                    },
                ),
                initial_ttl: Some(n),
                return_value: true,
                ..ArithmeticOptions::plain()
            },
        ),
    }
}

/// `incr` / `decr` with the TTL resolved as of `now`.
pub fn plan_counter_at(
    key: &[u8],
    delta: u64,
    decrement: bool,
    ttl: Ttl,
    now: SystemTime,
) -> (r: Result<MetaCommand, Error>)
    ensures
        match r {
            Ok(command) => counter_plan(key@, delta, decrement, ttl, now) == Ok::<MetaCommandView, ErrorView>(command@),
            Err(e) => counter_plan(key@, delta, decrement, ttl, now) == Err::<MetaCommandView, ErrorView>(e@),
        },
{
    match ttl.wire_at(now) {
        Err(e) => Err(e),
        Ok(n) => {
            let options = ArithmeticOptions {
                delta: Some(delta),
                mode: if decrement {
                    ArithmeticMode::Decrement
                } else {
                    ArithmeticMode::Increment
                },
                initial: Some(
                    if decrement {
                        0
                    } else {
                        delta
                    },
                ),
                initial_ttl: Some(n),
                return_value: true,
                ..ArithmeticOptions::default()
            };
            build_arithmetic(key, &options)
        },
    }
}

/// `incr` / `decr`: a miss counts from zero, so the vivified item is seeded
/// with the delta (or zero when decrementing toward the floor) and `ttl` rides
/// the creation only.
pub fn plan_counter(key: &[u8], delta: u64, decrement: bool, ttl: Ttl) -> (r: Result<MetaCommand, Error>)
    ensures
        exists|now: SystemTime|
            match r {
                Ok(command) => #[trigger] counter_plan(key@, delta, decrement, ttl, now) == Ok::<MetaCommandView, ErrorView>(command@),
                Err(e) => counter_plan(key@, delta, decrement, ttl, now) == Err::<MetaCommandView, ErrorView>(e@),
            },
{
    let now = SystemTime::now();
    let r = plan_counter_at(key, delta, decrement, ttl, now);
    assert(match r {
        Ok(command) => counter_plan(key@, delta, decrement, ttl, now) == Ok::<MetaCommandView, ErrorView>(command@),
        Err(e) => counter_plan(key@, delta, decrement, ttl, now) == Err::<MetaCommandView, ErrorView>(e@),
    });
    r
}

/// The counter value that a wire result carries.
pub open spec fn counter_answer(wire: MetaCommandResultView) -> Result<u64, ErrorView> {
    let failed = Err(ErrorView::Protocol("counter did not return a value ("@ + wire.rc.name() + ")"@));
    match wire.value {
        Some(value) => if wire.rc == ReturnCode::Va {
            match decimal::parse_unsigned(value, u64::MAX as nat) {
                Ok(n) => Ok(n as u64),
                Err(_) => failed,
            }
        } else {
            failed
        },
        None => failed,
    }
}

pub fn finish_counter(wire: &MetaCommandResult) -> (r: Result<u64, Error>)
    ensures
        match r {
            Ok(n) => counter_answer(wire@) == Ok::<u64, ErrorView>(n),
            Err(e) => counter_answer(wire@) == Err::<u64, ErrorView>(e@),
        },
{
    if wire.rc == ReturnCode::Va {
        if let Some(value) = &wire.value {
            match decimal::read_unsigned(value.as_slice(), u64::MAX as u128) {
                Ok(n) => {
                    return Ok(n as u64);
                },
                Err(_) => {},
            }
        }
    }
    let opened = text::join("counter did not return a value (", wire.rc.to_str());
    Err(Error::Protocol(text::join(opened.as_str(), ")")))
}

/// The command of `append` / `prepend`.
pub open spec fn concat_plan(
    key: Seq<u8>,
    fragment: Seq<u8>,
    ttl: Ttl,
    prepend: bool,
    now: SystemTime,
) -> Result<MetaCommandView, ErrorView> {
    if fragment.len() == 0 {
        Err(error::usage("append/prepend fragment must not be empty"))
    } else {
        match ttl.wire_spec(now) {
            Err(e) => Err(e),
            Ok(n) => meta_api::set_command(
                key,
                fragment,
                SetOptions {
                    mode: if prepend {
                        SetMode::Prepend
                    } else {
                        SetMode::Append
                    },
                    vivify_ttl: Some(n),
                    ..SetOptions::plain()
                },
            ),
        }
    }
}

/// `append` / `prepend` with the TTL resolved as of `now`.
pub fn plan_concat_at(
    key: &[u8],
    fragment: &[u8],
    ttl: Ttl,
    prepend: bool,
    now: SystemTime,
) -> (r: Result<MetaCommand, Error>)
    ensures
        match r {
            Ok(command) => concat_plan(key@, fragment@, ttl, prepend, now) == Ok::<MetaCommandView, ErrorView>(command@),
            Err(e) => concat_plan(key@, fragment@, ttl, prepend, now) == Err::<MetaCommandView, ErrorView>(e@),
        },
{
    if fragment.len() == 0 {
        return Err(Error::Usage("append/prepend fragment must not be empty"));
    }
    match ttl.wire_at(now) {
        Err(e) => Err(e),
        Ok(n) => {
            let options = SetOptions {
                mode: if prepend {
                    SetMode::Prepend
                } else {
                    SetMode::Append
                },
                vivify_ttl: Some(n),
                ..SetOptions::default()
            };
            build_set(key, fragment, &options)
        },
    }
}

/// `append` / `prepend`: raw bytes, created on a miss with `ttl`.
pub fn plan_concat(key: &[u8], fragment: &[u8], ttl: Ttl, prepend: bool) -> (r: Result<MetaCommand, Error>)
    ensures
        exists|now: SystemTime|
            match r {
                Ok(command) => #[trigger] concat_plan(key@, fragment@, ttl, prepend, now) == Ok::<MetaCommandView, ErrorView>(command@),
                Err(e) => concat_plan(key@, fragment@, ttl, prepend, now) == Err::<MetaCommandView, ErrorView>(e@),
            },
{
    let now = SystemTime::now();
    let r = plan_concat_at(key, fragment, ttl, prepend, now);
    assert(match r {
        Ok(command) => concat_plan(key@, fragment@, ttl, prepend, now) == Ok::<MetaCommandView, ErrorView>(command@),
        Err(e) => concat_plan(key@, fragment@, ttl, prepend, now) == Err::<MetaCommandView, ErrorView>(e@),
    });
    r
}

pub fn finish_concat(wire: &MetaCommandResult) -> (r: Result<(), Error>)
    ensures
        match r {
            Ok(_) => wire.rc == ReturnCode::Hd,
            Err(e) => wire.rc != ReturnCode::Hd && e@ == ErrorView::Protocol(
                "unexpected append/prepend response "@ + wire.rc.name(),
            ),
        },
{
    match wire.rc {
        ReturnCode::Hd => Ok(()),
        rc => Err(Error::Protocol(text::join("unexpected append/prepend response ", rc.to_str()))),
    }
}

/// The command that reads metadata only, without bumping the LRU.
pub open spec fn inspect_plan(key: Seq<u8>) -> Result<MetaCommandView, ErrorView> {
    meta_api::get_command(
        key,
        GetOptions {
            value: false,
            return_client_flags: false,
            return_size: true,
            return_last_access: true,
            return_hit_before: true,
            no_lru_bump: true,
            ..base_read_spec()
        },
    )
}

/// Metadata only, without bumping the LRU.
pub fn plan_inspect(key: &[u8]) -> (r: Result<MetaCommand, Error>)
    ensures
        match r {
            Ok(command) => inspect_plan(key@) == Ok::<MetaCommandView, ErrorView>(command@),
            Err(e) => inspect_plan(key@) == Err::<MetaCommandView, ErrorView>(e@),
        },
{
    let options = GetOptions {
        value: false,
        return_client_flags: false,
        return_size: true,
        return_last_access: true,
        return_hit_before: true,
        no_lru_bump: true,
        ..base_read()
    };
    build_get(key, &options)
}

/// `value`, or `default` where there is none.
pub open spec fn or_else<T>(value: Option<T>, default: T) -> T {
    match value {
        Some(value) => value,
        None => default,
    }
}

pub fn finish_inspect(view: &ReadView) -> (r: Option<ItemInfo>)
    ensures
        match r {
            None => !view.hit,
            Some(info) => view.hit && info.size == or_else(view.size, 0) && info.last_access.nanos == or_else(
                view.last_access,
                0,
            ) * 1_000_000_000 && info.hit_before == or_else(view.hit_before, false) && match info.ttl {
                Some(left) => view.ttl is Some && view.ttl->0 >= 0 && left.nanos == view.ttl->0 * 1_000_000_000,
                None => view.ttl is None || view.ttl->0 < 0,
            },
        },
{
    if !view.hit {
        return None;
    }
    let ttl = match view.ttl {
        Some(ttl) => {
            if ttl >= 0 {
                Some(Duration::from_secs(ttl as u64))
            } else {
                None
            }
        },
        None => None,
    };
    let size = match view.size {
        Some(size) => size,
        None => 0,
    };
    let last_access = match view.last_access {
        Some(secs) => secs,
        None => 0,
    };
    let hit_before = match view.hit_before {
        Some(hit) => hit,
        None => false,
    };
    Some(ItemInfo { ttl, size, last_access: Duration::from_secs(last_access), hit_before })
}

/// The command of `fetch`'s election read, with the refresh window in seconds.
pub open spec fn election_plan(
    key: Seq<u8>,
    freshness: Freshness,
    now: SystemTime,
) -> Result<(MetaCommandView, Option<u32>), ErrorView> {
    match freshness.window_spec(now) {
        Err(e) => Err(e),
        Ok(window) => match freshness.ttl.wire_spec(now) {
            Err(e) => Err(e),
            Ok(_) => match meta_api::get_command(
                key,
                GetOptions { vivify_ttl: Some(LEASE_TTL_SECS), recache_ttl: window, ..base_read_spec() },
            ) {
                Err(e) => Err(e),
                Ok(command) => Ok((command, window)),
            },
        },
    }
}

/// `fetch`'s election read with the TTL and the window resolved as of `now`.
pub fn plan_election_at(
    key: &[u8],
    freshness: Freshness,
    now: SystemTime,
) -> (r: Result<(MetaCommand, Option<u32>), Error>)
    ensures
        match r {
            Ok(command) => election_plan(key@, freshness, now) == Ok::<(MetaCommandView, Option<u32>), ErrorView>((command.0@, command.1)),
            Err(e) => election_plan(key@, freshness, now) == Err::<(MetaCommandView, Option<u32>), ErrorView>(e@),
        },
{
    let window = match freshness.refresh_before_secs_at(now) {
        Ok(window) => window,
        Err(e) => {
            return Err(e);
        },
    };
    // Validate the ttl up front so a bad one is reported before any lease is
    // taken.
    match freshness.ttl().wire_at(now) {
        Ok(_) => {},
        Err(e) => {
            return Err(e);
        },
    }
    let options = GetOptions { vivify_ttl: Some(LEASE_TTL_SECS), recache_ttl: window, ..base_read() };
    match build_get(key, &options) {
        Ok(command) => Ok((command, window)),
        Err(e) => Err(e),
    }
}

/// `fetch`'s combined read and server-side election: on a miss the vivify flag
/// creates a placeholder and grants this reader the lease, near expiry the
/// recache window elects one reader ahead of time, and during a soft-delete
/// grace the stale marker elects one refresher. Returns the command with the
/// resolved refresh window in seconds.
pub fn plan_election(key: &[u8], freshness: Freshness) -> (r: Result<(MetaCommand, Option<u32>), Error>)
    ensures
        exists|now: SystemTime|
            match r {
                Ok(command) => #[trigger] election_plan(key@, freshness, now) == Ok::<(MetaCommandView, Option<u32>), ErrorView>((command.0@, command.1)),
                Err(e) => election_plan(key@, freshness, now) == Err::<(MetaCommandView, Option<u32>), ErrorView>(e@),
            },
{
    let now = SystemTime::now();
    let r = plan_election_at(key, freshness, now);
    assert(match r {
        Ok(command) => election_plan(key@, freshness, now) == Ok::<(MetaCommandView, Option<u32>), ErrorView>((command.0@, command.1)),
        Err(e) => election_plan(key@, freshness, now) == Err::<(MetaCommandView, Option<u32>), ErrorView>(e@),
    });
    r
}

/// What `fetch` does with an election read.
#[derive(Debug, PartialEq, Eq)]
pub enum FetchStep {
    /// A value-bearing hit with no election: return it.
    Serve { value: Vec<u8>, flags: u32 },
    /// A value-bearing hit whose refresh this reader won (refresh-ahead window
    /// or stale grace). The blocking client recomputes now; the tokio client
    /// serves the value and recomputes in the background.
    Refresh { value: Vec<u8>, flags: u32, cas: u64 },
    /// This reader owns the miss-path lease (or found a zero-byte item nobody
    /// is rewriting): run the loader, write back through `cas`.
    Lead { cas: u64 },
    /// No coordination available (a miss despite vivify): compute without
    /// writing back.
    Local,
    /// Another process holds the lease: wait and re-read.
    Wait,
}

/// What a [`FetchStep`] holds.
pub enum FetchStepView {
    Serve { value: Seq<u8>, flags: u32 },
    Refresh { value: Seq<u8>, flags: u32, cas: u64 },
    Lead { cas: u64 },
    Local,
    Wait,
}

impl View for FetchStep {
    type V = FetchStepView;

    open spec fn view(&self) -> FetchStepView {
        match *self {
            FetchStep::Serve { value, flags } => FetchStepView::Serve { value: value@, flags },
            FetchStep::Refresh { value, flags, cas } => FetchStepView::Refresh { value: value@, flags, cas },
            FetchStep::Lead { cas } => FetchStepView::Lead { cas },
            FetchStep::Local => FetchStepView::Local,
            FetchStep::Wait => FetchStepView::Wait,
        }
    }
}

/// What `fetch` does with the facts of an election read. A zero-byte item is
/// the placeholder this read vivified and won, or one nobody else is rewriting
/// (a real empty item, or an empty item whose stale token this read just won).
pub open spec fn fetch_decision(facts: ReadFacts) -> FetchStepView {
    if facts.has_value() {
        match facts.cas {
            Some(cas) => if facts.won {
                FetchStepView::Refresh { value: facts.bytes(), flags: facts.flags, cas }
            } else {
                FetchStepView::Serve { value: facts.bytes(), flags: facts.flags }
            },
            None => FetchStepView::Serve { value: facts.bytes(), flags: facts.flags },
        }
    } else {
        match facts.cas {
            Some(cas) => if !facts.hit {
                FetchStepView::Local
            } else if facts.won || !facts.busy {
                FetchStepView::Lead { cas }
            } else {
                FetchStepView::Wait
            },
            None => FetchStepView::Local,
        }
    }
}

pub fn fetch_step(view: ReadView) -> (r: FetchStep)
    ensures
        r@ == fetch_decision(view@),
        view.hit && view.value is Some && view.value->0@.len() > 0 ==> (match r {
            FetchStep::Serve { value, flags } => value@ == view.value->0@ && flags == view.flags && (!view.won || view.cas
                is None),
            FetchStep::Refresh { value, flags, cas } => value@ == view.value->0@ && flags == view.flags && view.won
                && view.cas == Some(cas),
            _ => false,
        }),
{
    if view.has_value() {
        let flags = view.flags;
        return match (view.won, view.cas) {
            (true, Some(cas)) => FetchStep::Refresh { value: view.into_bytes(), flags, cas },
            _ => FetchStep::Serve { value: view.into_bytes(), flags },
        };
    }
    if !view.hit {
        return FetchStep::Local;
    }
    // Waiting on a zero-byte item that nobody is rewriting would pay the full
    // backoff on every fetch forever.
    match view.cas {
        Some(cas) => {
            if view.won || !view.busy {
                FetchStep::Lead { cas }
            } else {
                FetchStep::Wait
            }
        },
        None => FetchStep::Local,
    }
}

/// The store that repays a lease, with the TTL resolved as of `now`.
pub fn plan_write_back_at(
    key: &[u8],
    value: &Encoded,
    ttl: Ttl,
    cas: u64,
    now: SystemTime,
) -> (r: Result<MetaCommand, Error>)
    ensures
        match r {
            Ok(command) => store_plan(key@, value@, ttl, SetMode::Store, Some(cas), now) == Ok::<MetaCommandView, ErrorView>(command@),
            Err(e) => store_plan(key@, value@, ttl, SetMode::Store, Some(cas), now) == Err::<MetaCommandView, ErrorView>(e@),
        },
{
    plan_store_at(key, value, ttl, SetMode::Store, Some(cas), now)
}

/// The store that repays a lease: conditioned on the election's CAS so a delete,
/// set or re-invalidation that landed meanwhile wins.
pub fn plan_write_back(key: &[u8], value: &Encoded, ttl: Ttl, cas: u64) -> (r: Result<MetaCommand, Error>)
    ensures
        exists|now: SystemTime|
            match r {
                Ok(command) => #[trigger] store_plan(key@, value@, ttl, SetMode::Store, Some(cas), now) == Ok::<MetaCommandView, ErrorView>(command@),
                Err(e) => store_plan(key@, value@, ttl, SetMode::Store, Some(cas), now) == Err::<MetaCommandView, ErrorView>(e@),
            },
{
    let now = SystemTime::now();
    let r = plan_write_back_at(key, value, ttl, cas, now);
    assert(match r {
        Ok(command) => store_plan(key@, value@, ttl, SetMode::Store, Some(cas), now) == Ok::<MetaCommandView, ErrorView>(command@),
        Err(e) => store_plan(key@, value@, ttl, SetMode::Store, Some(cas), now) == Err::<MetaCommandView, ErrorView>(e@),
    });
    r
}

/// The command that deletes the placeholder of a lease.
pub open spec fn release_plan(key: Seq<u8>, cas: u64) -> Result<MetaCommandView, ErrorView> {
    meta_api::delete_command(key, DeleteOptions { compare_cas: Some(cas), ..DeleteOptions::plain() })
}

/// Delete the placeholder whose lease could not be repaid.
pub fn plan_release_lease(key: &[u8], cas: u64) -> (r: Result<MetaCommand, Error>)
    ensures
        match r {
            Ok(command) => release_plan(key@, cas) == Ok::<MetaCommandView, ErrorView>(command@),
            Err(e) => release_plan(key@, cas) == Err::<MetaCommandView, ErrorView>(e@),
        },
{
    plan_erase(key, None, Some(cas))
}

/// The TTL that keeps the remaining grace of a stale item: none where it is
/// exhausted or unlimited.
pub open spec fn grace_left(ttl: Option<i64>) -> Option<Ttl> {
    match ttl {
        Some(ttl) => if ttl <= 0 {
            None
        } else if ttl <= u32::MAX {
            Some(Ttl { repr: TtlRepr::Secs(ttl as u32) })
        } else {
            Some(Ttl { repr: TtlRepr::Secs(u32::MAX) })
        },
        None => None,
    }
}

/// The command that hands a stale-recache token back.
pub open spec fn return_plan(key: Seq<u8>, win: StaleWin, now: SystemTime) -> Result<MetaCommandView, ErrorView> {
    match semantics::wire_opt(grace_left(win.ttl), now) {
        Err(e) => Err(e),
        Ok(ttl) => meta_api::delete_command(
            key,
            DeleteOptions { compare_cas: Some(win.cas), invalidate: true, ttl, ..DeleteOptions::plain() },
        ),
    }
}

/// Hand a stale-recache token back, with the grace resolved as of `now`.
pub fn plan_return_win_at(key: &[u8], win: StaleWin, now: SystemTime) -> (r: Result<MetaCommand, Error>)
    ensures
        match r {
            Ok(command) => return_plan(key@, win, now) == Ok::<MetaCommandView, ErrorView>(command@),
            Err(e) => return_plan(key@, win, now) == Err::<MetaCommandView, ErrorView>(e@),
        },
{
    let left = match win.ttl {
        Some(ttl) => {
            if ttl <= 0 {
                None
            } else if ttl <= u32::MAX as i64 {
                Some(Ttl::secs(ttl as u32))
            } else {
                Some(Ttl::secs(u32::MAX))
            }
        },
        None => None,
    };
    match semantics::wire_ttl(left, now) {
        Err(e) => Err(e),
        Ok(ttl) => {
            let options = DeleteOptions {
                compare_cas: Some(win.cas),
                invalidate: true,
                ttl,
                ..DeleteOptions::default()
            };
            build_delete(key, &options)
        },
    }
}

/// Hand an accidentally consumed stale-recache token back: re-invalidate with
/// the CAS just read, keeping the value and the remaining grace.
pub fn plan_return_win(key: &[u8], win: StaleWin) -> (r: Result<MetaCommand, Error>)
    ensures
        exists|now: SystemTime|
            match r {
                Ok(command) => #[trigger] return_plan(key@, win, now) == Ok::<MetaCommandView, ErrorView>(command@),
                Err(e) => return_plan(key@, win, now) == Err::<MetaCommandView, ErrorView>(e@),
            },
{
    let now = SystemTime::now();
    let r = plan_return_win_at(key, win, now);
    assert(match r {
        Ok(command) => return_plan(key@, win, now) == Ok::<MetaCommandView, ErrorView>(command@),
        Err(e) => return_plan(key@, win, now) == Err::<MetaCommandView, ErrorView>(e@),
    });
    r
}

/// A token that `fetch` holds and has to repay or give back.
#[derive(Debug, Clone, Copy, PartialEq, Eq, Structural)]
pub enum Token {
    /// A win on an item that holds a value.
    Win(StaleWin),
    /// The lease of a placeholder.
    Lease { cas: u64 },
}

impl Token {
    pub open spec fn cas_spec(self) -> u64 {
        match self {
            Token::Win(win) => win.cas,
            Token::Lease { cas } => cas,
        }
    }

    /// The CAS through which the token is repaid.
    pub fn cas(self) -> (r: u64)
        ensures
            r == self.cas_spec(),
    {
        match self {
            Token::Win(win) => win.cas,
            Token::Lease { cas } => cas,
        }
    }
}

/// The command that gives a token back: a win is handed back by invalidating
/// again, a lease by deleting its placeholder.
pub open spec fn give_back_plan(key: Seq<u8>, token: Token, now: SystemTime) -> Result<MetaCommandView, ErrorView> {
    match token {
        Token::Win(win) => return_plan(key, win, now),
        Token::Lease { cas } => release_plan(key, cas),
    }
}

/// Give a token back, with the grace resolved as of `now`.
pub fn plan_give_back_at(key: &[u8], token: Token, now: SystemTime) -> (r: Result<MetaCommand, Error>)
    ensures
        match r {
            Ok(command) => give_back_plan(key@, token, now) == Ok::<MetaCommandView, ErrorView>(command@),
            Err(e) => give_back_plan(key@, token, now) == Err::<MetaCommandView, ErrorView>(e@),
        },
{
    match token {
        Token::Win(win) => plan_return_win_at(key, win, now),
        Token::Lease { cas } => plan_release_lease(key, cas),
    }
}

/// Give a token back that is not repaid.
pub fn plan_give_back(key: &[u8], token: Token) -> (r: Result<MetaCommand, Error>)
    ensures
        exists|now: SystemTime|
            match r {
                Ok(command) => #[trigger] give_back_plan(key@, token, now) == Ok::<MetaCommandView, ErrorView>(command@),
                Err(e) => give_back_plan(key@, token, now) == Err::<MetaCommandView, ErrorView>(e@),
            },
{
    let now = SystemTime::now();
    let r = plan_give_back_at(key, token, now);
    assert(match r {
        Ok(command) => give_back_plan(key@, token, now) == Ok::<MetaCommandView, ErrorView>(command@),
        Err(e) => give_back_plan(key@, token, now) == Err::<MetaCommandView, ErrorView>(e@),
    });
    r
}

/// What `update` does with its probe read.
#[derive(Debug, PartialEq, Eq)]
pub struct UpdateStep {
    /// The current value to hand to the closure; `None` on a miss, a
    /// placeholder, or an item kept stale by `invalidate` (transforming
    /// invalidated data would launder it back to fresh).
    pub current: Option<(Vec<u8>, u32)>,
    /// The CAS to write through. Any existing item, stale or zero-byte
    /// included, can only be replaced by CAS; `None` means the key is absent
    /// and the write is an `add`.
    pub compare_cas: Option<u64>,
    /// A stale token to hand back when nothing gets written.
    pub stale_win: Option<StaleWin>,
}

/// The value that `update` hands to its closure.
pub open spec fn current_value(facts: ReadFacts) -> Option<(Seq<u8>, u32)> {
    if facts.has_value() && !facts.stale {
        Some((facts.bytes(), facts.flags))
    } else {
        None
    }
}

pub fn update_step(view: ReadView) -> (r: UpdateStep)
    ensures
        match r.current {
            Some((value, flags)) => current_value(view@) == Some((value@, flags)),
            None => current_value(view@) is None,
        },
        match r.current {
            Some((value, flags)) => view.hit && view.value is Some && value@ == view.value->0@ && value@.len() > 0
                && flags == view.flags && !view.stale,
            None => !view.hit || view.value is None || view.value->0@.len() == 0 || view.stale,
        },
        r.compare_cas == (if view.hit {
            view.cas
        } else {
            None
        }),
        r.stale_win == view@.stale_win(),
{
    let stale_win = view.stale_win();
    let compare_cas = if view.hit {
        view.cas
    } else {
        None
    };
    let current = if view.has_value() && !view.stale {
        let flags = view.flags;
        Some((view.into_bytes(), flags))
    } else {
        None
    };
    UpdateStep { current, compare_cas, stale_win }
}

/// What `take` does with its probe read.
#[derive(Debug, PartialEq, Eq)]
pub enum TakeStep {
    /// Nothing to take (miss, placeholder, or stale item); hand back a stale
    /// token if one was won.
    Nothing(Option<StaleWin>),
    /// Decode this value and delete the item through `cas`.
    Take { value: Vec<u8>, flags: u32, cas: u64 },
}

pub fn take_step(view: ReadView) -> (r: Result<TakeStep, Error>)
    ensures
        match r {
            Ok(TakeStep::Nothing(win)) => current_value(view@) is None && win == view@.stale_win(),
            Ok(TakeStep::Take { value, flags, cas }) => current_value(view@) == Some((value@, flags)) && view.cas
                == Some(cas),
            Err(e) => current_value(view@) is Some && view.cas is None && e@ == error::protocol(
                "value read omitted the requested CAS",
            ),
        },
        r matches Ok(TakeStep::Nothing(_)) <==> !view.hit || view.value is None || view.value->0@.len() == 0 || view.stale,
        r matches Ok(TakeStep::Take { value, flags, .. }) ==> view.value is Some && value@ == view.value->0@ && flags
            == view.flags,
{
    if !view.has_value() || view.stale {
        return Ok(TakeStep::Nothing(view.stale_win()));
    }
    match view.cas {
        None => Err(Error::protocol("value read omitted the requested CAS")),
        Some(cas) => {
            let flags = view.flags;
            Ok(TakeStep::Take { value: view.into_bytes(), flags, cas })
        },
    }
}

} // verus!
