//! What the functions that decide promise of their results, call by call.

use vstd::prelude::*;

use super::batch;
use super::batch::{BatchStep, ExchangeStep};
use super::client;
use super::connection;
use super::connection::{DialStep, Probe};
use super::error::{Error, ErrorView};
use super::memcache;
use super::memcache::{ErrorKind, LeadStep, Policy, RefreshStep, Refreshed, Settled, UpdateWrite};
use super::meta_api::{ArithmeticMode, MetaCommandResult, SetMode};
use super::meta_command::{MetaCommand, MetaCommandView, MetaOp, MetaResponse, ReturnCode};
use super::operation::{Arithmetic, Delete, Get, Meta, Store};
use super::result::{ArithmeticResult, GetResult, MutationResult, OpResult};
use super::scenario;
use super::scenario::{FetchStep, ItemInfo, ReadView, StaleWin, TakeStep, Token, UpdateStep};
use super::semantics;
use super::sent;
use super::ttl::{Freshness, Ttl, TtlRepr};
use super::value::{Decode, Encode, Encoded};
use super::verb::Verb;
use crate::decimal;
use crate::io::{IoError, IoErrorKind};
use crate::time::{Duration, SystemTime};

verus! {

/// Whether a read brought no bytes: it missed, or its value is not there or empty.
pub open spec fn is_bare(view: ReadView) -> bool {
    !view.hit || view.value is None || view.value->0@.len() == 0
}

/// `fetch` serves or refreshes exactly what an election read brought, whatever TTL,
/// size or age came with it and whether it is stale or not: it serves where no
/// refresh was won, and refreshes through the read's CAS where one was. It computes,
/// leads or waits only where no bytes came.
pub proof fn lemma_fetch_step_serves_what_was_read(view: ReadView, step: FetchStep)
    requires
        call_ensures(scenario::fetch_step, (view,), step),
    ensures
        match step {
            FetchStep::Serve { value, flags } => !is_bare(view) && value@ == view.value->0@ && flags == view.flags && (
            !view.won || view.cas is None),
            FetchStep::Refresh { value, flags, cas } => !is_bare(view) && value@ == view.value->0@ && flags == view.flags
                && view.won && view.cas == Some(cas),
            FetchStep::Lead { cas } => is_bare(view) && view.hit && view.cas == Some(cas) && (view.won || !view.busy),
            FetchStep::Wait => is_bare(view) && view.hit && view.cas is Some && !view.won && view.busy,
            FetchStep::Local => is_bare(view) && (!view.hit || view.cas is None),
        },
{
}

/// `update` hands the transform the bytes and flags of every hit that is not stale
/// and not empty, whatever TTL came with it, and nothing otherwise. It writes through
/// the CAS of the item it read, and keeps the token of a stale one that it won.
pub proof fn lemma_update_step_hands_over_what_was_read(view: ReadView, step: UpdateStep)
    requires
        call_ensures(scenario::update_step, (view,), step),
    ensures
        step.current is Some <==> !is_bare(view) && !view.stale,
        step.current matches Some((value, flags)) ==> value@ == view.value->0@ && flags == view.flags,
        view.hit ==> step.compare_cas == view.cas,
        !view.hit ==> step.compare_cas is None,
        step.stale_win is Some <==> view.stale && view.won && view.cas is Some,
        step.stale_win matches Some(win) ==> view.cas == Some(win.cas) && win.ttl == view.ttl,
{
}

/// `take` takes the bytes and flags of every hit that is not stale and not empty,
/// through its CAS and whatever TTL came with it. Without a CAS it fails, and
/// otherwise it takes nothing and keeps the token of a stale item that it won.
pub proof fn lemma_take_step_takes_what_was_read(view: ReadView, step: Result<TakeStep, Error>)
    requires
        call_ensures(scenario::take_step, (view,), step),
    ensures
        match step {
            Ok(TakeStep::Take { value, flags, cas }) => !is_bare(view) && !view.stale && value@ == view.value->0@ && flags
                == view.flags && view.cas == Some(cas),
            Ok(TakeStep::Nothing(win)) => (is_bare(view) || view.stale) && (win is Some <==> view.stale && view.won
                && view.cas is Some) && (win matches Some(win) ==> view.cas == Some(win.cas) && win.ttl == view.ttl),
            Err(e) => !is_bare(view) && !view.stale && view.cas is None && e is Protocol,
        },
{
}

/// A store that was given a CAS to compare sends it as `C` and its decimal digits, and
/// one that was given none sends no flag with that letter.
#[verifier::spinoff_prover]
#[verifier::rlimit(40)]
pub proof fn lemma_prepared_store_is_fenced(operation: Store, now: SystemTime, command: MetaCommand, i: int)
    requires
        call_ensures(semantics::prepare_set_at, (&operation, now), Ok(command)),
    ensures
        command.key@ == operation.key@,
        command.value is Some,
        command.value->0@ == operation.value@,
        operation.compare_cas matches Some(cas) ==> command@.flags.contains(
            seq!['C' as u8] + decimal::decimal(cas as nat),
        ),
        operation.compare_cas is None && 0 <= i < command@.flags.len() && command@.flags[i].len() > 0
            ==> command@.flags[i][0] != 'C' as u8,
{
    sent::lemma_store_sends_its_options(operation, now, 'C' as u8);
    let flag = seq!['C' as u8] + decimal::decimal(operation.compare_cas->0 as nat);
    sent::lemma_shown_flags_are_there(command@.flags, 'C' as u8, flag, i);
}

/// Each operation is prepared as the command that stands for it, or fails as that does.
pub proof fn lemma_prepared_commands(
    get: Get,
    store: Store,
    delete: Delete,
    arithmetic: Arithmetic,
    now: SystemTime,
    r: Result<MetaCommand, Error>,
)
    ensures
        call_ensures(semantics::prepare_get_at, (&get, now), r) ==> (match r {
            Ok(command) => semantics::get_prepared(get, now) == Ok::<MetaCommandView, ErrorView>(command@),
            Err(e) => semantics::get_prepared(get, now) == Err::<MetaCommandView, ErrorView>(e@),
        }),
        call_ensures(semantics::prepare_set_at, (&store, now), r) ==> (match r {
            Ok(command) => semantics::set_prepared(store, now) == Ok::<MetaCommandView, ErrorView>(command@),
            Err(e) => semantics::set_prepared(store, now) == Err::<MetaCommandView, ErrorView>(e@),
        }),
        call_ensures(semantics::prepare_delete_at, (&delete, now), r) ==> (match r {
            Ok(command) => semantics::delete_prepared(delete, now) == Ok::<MetaCommandView, ErrorView>(command@),
            Err(e) => semantics::delete_prepared(delete, now) == Err::<MetaCommandView, ErrorView>(e@),
        }),
        call_ensures(semantics::prepare_arithmetic_at, (&arithmetic, now), r) ==> (match r {
            Ok(command) => semantics::arithmetic_prepared(arithmetic, now) == Ok::<MetaCommandView, ErrorView>(command@),
            Err(e) => semantics::arithmetic_prepared(arithmetic, now) == Err::<MetaCommandView, ErrorView>(e@),
        }),
{
}

/// Each thing that is asked for is added to what was asked for before.
pub proof fn lemma_settings_of_meta(before: Meta, after: Meta)
    ensures
        call_ensures(Meta::cas, (before,), after) ==> after == (Meta { cas: true, ..before }),
        call_ensures(Meta::ttl, (before,), after) ==> after == (Meta { ttl: true, ..before }),
        call_ensures(Meta::size, (before,), after) ==> after == (Meta { size: true, ..before }),
        call_ensures(Meta::last_access, (before,), after) ==> after == (Meta { last_access: true, ..before }),
        call_ensures(Meta::hit_before, (before,), after) ==> after == (Meta { hit_before: true, ..before }),
{
}

/// Each setting of a read changes its own option and leaves the others as they were.
pub proof fn lemma_settings_of_get(before: Get, meta: Meta, ttl: Ttl, secs: u32, number: u64, after: Get)
    ensures
        call_ensures(Get::meta, (before, meta), after) ==> after == (Get { meta: meta, ..before }),
        call_ensures(Get::touch, (before, ttl), after) ==> after == (Get { touch: Some(ttl), ..before }),
        call_ensures(Get::touch_raw, (before, secs), after) ==> after == (Get { touch: Some(Ttl { repr: TtlRepr::Raw(secs) }), ..before }),
        call_ensures(Get::no_lru_bump, (before,), after) ==> after == (Get { no_lru_bump: true, ..before }),
        call_ensures(Get::unless_cas, (before, number), after) ==> after == (Get { unless_cas: Some(number), ..before }),
        call_ensures(Get::without_value, (before,), after) ==> after == (Get { value: false, ..before }),
        call_ensures(Get::lease_ttl, (before, secs), after) ==> after == (Get { lease_ttl: Some(secs), ..before }),
        call_ensures(Get::refresh_before, (before, secs), after) ==> after == (Get { refresh_before: Some(secs), ..before }),
{
}

/// Each setting of a store changes its own option and leaves the others as they were.
pub proof fn lemma_settings_of_store(before: Store, ttl: Ttl, secs: u32, mode: SetMode, number: u64, after: Store)
    ensures
        call_ensures(Store::ttl, (before, ttl), after) ==> after == (Store { ttl: Some(ttl), ..before }),
        call_ensures(Store::ttl_raw, (before, secs), after) ==> after == (Store { ttl: Some(Ttl { repr: TtlRepr::Raw(secs) }), ..before }),
        call_ensures(Store::client_flags, (before, secs), after) ==> after == (Store { client_flags: secs, ..before }),
        call_ensures(Store::mode, (before, mode), after) ==> after == (Store { mode: mode, ..before }),
        call_ensures(Store::add, (before,), after) ==> after == (Store { mode: SetMode::Add, ..before }),
        call_ensures(Store::replace, (before,), after) ==> after == (Store { mode: SetMode::Replace, ..before }),
        call_ensures(Store::append, (before,), after) ==> after == (Store { mode: SetMode::Append, ..before }),
        call_ensures(Store::prepend, (before,), after) ==> after == (Store { mode: SetMode::Prepend, ..before }),
        call_ensures(Store::compare_cas, (before, number), after) ==> after == (Store { compare_cas: Some(number), ..before }),
        call_ensures(Store::force_cas, (before, number), after) ==> after == (Store { force_cas: Some(number), ..before }),
        call_ensures(Store::return_cas, (before,), after) ==> after == (Store { return_cas: true, ..before }),
        call_ensures(Store::vivify_ttl, (before, secs), after) ==> after == (Store { vivify_ttl: Some(secs), ..before }),
{
}

/// Each setting of a delete changes its own option and leaves the others as they were.
pub proof fn lemma_settings_of_delete(before: Delete, number: u64, ttl: Ttl, secs: u32, after: Delete)
    ensures
        call_ensures(Delete::compare_cas, (before, number), after) ==> after == (Delete { compare_cas: Some(number), ..before }),
        call_ensures(Delete::invalidate, (before,), after) ==> after == (Delete { invalidate: true, ..before }),
        call_ensures(Delete::stale_for, (before, ttl), after) ==> after == (Delete { stale_for: Some(ttl), ..before }),
        call_ensures(Delete::stale_for_raw, (before, secs), after) ==> after == (Delete { stale_for: Some(Ttl { repr: TtlRepr::Raw(secs) }), ..before }),
{
}

/// Each setting of a counter operation changes its own option, or the value to start from
/// with its TTL, and leaves the others as they were.
pub proof fn lemma_settings_of_arithmetic(before: Arithmetic, number: u64, secs: u32, ttl: Ttl, after: Arithmetic)
    ensures
        call_ensures(Arithmetic::delta, (before, number), after) ==> after == (Arithmetic { delta: number, ..before }),
        call_ensures(Arithmetic::decrement, (before,), after) ==> after == (Arithmetic { mode: ArithmeticMode::Decrement, ..before }),
        call_ensures(Arithmetic::initial, (before, number, secs), after) ==> after == (Arithmetic { initial: Some(number), initial_ttl: Some(secs), ..before }),
        call_ensures(Arithmetic::ttl, (before, ttl), after) ==> after == (Arithmetic { ttl: Some(ttl), ..before }),
        call_ensures(Arithmetic::ttl_raw, (before, secs), after) ==> after == (Arithmetic { ttl: Some(Ttl { repr: TtlRepr::Raw(secs) }), ..before }),
        call_ensures(Arithmetic::compare_cas, (before, number), after) ==> after == (Arithmetic { compare_cas: Some(number), ..before }),
        call_ensures(Arithmetic::force_cas, (before, number), after) ==> after == (Arithmetic { force_cas: Some(number), ..before }),
        call_ensures(Arithmetic::return_cas, (before,), after) ==> after == (Arithmetic { return_cas: true, ..before }),
        call_ensures(Arithmetic::return_ttl, (before,), after) ==> after == (Arithmetic { return_ttl: true, ..before }),
{
}

/// A new operation has its key, and its value where it stores one, and no option set:
/// a read asks for the value alone, a store is a plain one, a counter counts up by
/// one.
pub proof fn lemma_new_operations(
    key: &[u8],
    value: &[u8],
    get: Get,
    store: Store,
    delete: Delete,
    arithmetic: Arithmetic,
)
    ensures
        call_ensures(Get::new, (key,), get) ==> get.key@ == key@ && get.value && !get.meta.cas && !get.meta.ttl
            && !get.meta.size && !get.meta.last_access && !get.meta.hit_before && get.touch is None && !get.no_lru_bump
            && get.unless_cas is None && get.lease_ttl is None && get.refresh_before is None,
        call_ensures(Store::new, (key, value), store) ==> store.key@ == key@ && store.value@ == value@
            && store.client_flags == 0 && store.ttl is None && store.mode == SetMode::Store && store.compare_cas is None
            && store.force_cas is None && !store.return_cas && store.vivify_ttl is None,
        call_ensures(Delete::new, (key,), delete) ==> delete.key@ == key@ && delete.compare_cas is None
            && !delete.invalidate && delete.stale_for is None,
        call_ensures(Arithmetic::new, (key,), arithmetic) ==> arithmetic.key@ == key@ && arithmetic.delta == 1
            && arithmetic.mode == ArithmeticMode::Increment && arithmetic.initial is None && arithmetic.initial_ttl is None
            && arithmetic.ttl is None && arithmetic.compare_cas is None && arithmetic.force_cas is None
            && !arithmetic.return_cas && !arithmetic.return_ttl,
{
}

/// A store that is asked to compare a CAS is sent with that CAS, whatever else was
/// asked of it before.
#[verifier::spinoff_prover]
#[verifier::rlimit(40)]
pub proof fn lemma_compared_store_is_sent_fenced(
    before: Store,
    cas: u64,
    operation: Store,
    now: SystemTime,
    command: MetaCommand,
)
    requires
        call_ensures(Store::compare_cas, (before, cas), operation),
        call_ensures(semantics::prepare_set_at, (&operation, now), Ok(command)),
    ensures
        command@.flags.contains(seq!['C' as u8] + decimal::decimal(cas as nat)),
        command.key@ == before.key@,
{
    lemma_prepared_store_is_fenced(operation, now, command, 0);
}

/// The elected caller of `fetch` repays its right with the value it loaded, and gives
/// it back where it has none. Only a value that cannot be stored is reported.
pub proof fn lemma_lead_repays_or_gives_back(
    loaded: &Result<Encoded, Error>,
    cas: Option<u64>,
    token: Option<Token>,
    step: LeadStep,
)
    requires
        call_ensures(memcache::lead_step, (loaded, cas, token), step),
    ensures
        *loaded is Ok ==> step.write_back == cas && step.give_back is None && !step.report,
        *loaded is Err ==> step.write_back is None && step.give_back == token,
        *loaded matches Err(e) ==> (step.report <==> cas is Some && (e is EmptyValue || e is Encode)),
{
}

/// A background refresh writes back what it loaded, reports why it has nothing to
/// write back, and stops with the client. It may take as long as the window that
/// triggered it, or thirty seconds.
pub proof fn lemma_background_refresh(refreshed: Refreshed, step: RefreshStep, window: Option<u32>, bound: Duration)
    ensures
        call_ensures(memcache::refresh_step, (refreshed,), step) ==> (match refreshed {
            Refreshed::Shutdown => step is Stop,
            Refreshed::Failed(e) => step == RefreshStep::Report(ErrorKind::BackgroundLoader, e),
            Refreshed::Loaded(Ok(encoded)) => step == RefreshStep::WriteBack(encoded),
            Refreshed::Loaded(Err(e)) => step == RefreshStep::Report(ErrorKind::WriteBack, e),
        }),
        call_ensures(memcache::refresh_bound, (window,), bound) ==> bound.nanos == (match window {
            Some(secs) => secs * 1_000_000_000,
            None => 30_000_000_000,
        }),
{
}

/// An outcome reaches the caller as it is, unless it is an outage, the client
/// degrades, and the verb gives way: then the caller gets the fallback and the outage
/// is reported.
pub proof fn lemma_settled_outcomes<T>(
    policy: Policy,
    verb: Verb,
    result: Result<T, Error>,
    fallback: T,
    settled: Settled<T>,
)
    requires
        call_ensures(Policy::settle::<T>, (&policy, verb, result, fallback), settled),
    ensures
        ({
            let decides = verb is Add || verb is Replace || verb is Update || verb is Take || verb is Incr || verb is Decr;
            let gives_way = policy.degrade && !decides && (result matches Err(e) && (e is Io || e is Timeout || e
                is Protocol || e is Server));
            match settled {
                Settled::Kept(kept) => !gives_way && kept == result,
                Settled::Degraded { value, error } => gives_way && value == fallback && result == Err::<T, Error>(error),
            }
        }),
{
}

/// A read that gives way to an outage is a miss.
pub proof fn lemma_settled_reads(
    policy: Policy,
    verb: Verb,
    result: Result<ReadView, Error>,
    settled: Settled<ReadView>,
)
    requires
        call_ensures(Policy::settle_read, (&policy, verb, result), settled),
    ensures
        match settled {
            Settled::Kept(kept) => kept == result,
            Settled::Degraded { value, error } => policy.degrade && result == Err::<ReadView, Error>(error) && !value.hit
                && value.value is None && value.cas is None && !value.won && !value.busy && !value.stale,
        },
{
}

/// `update` sends what its transform gave, through the CAS that it read, or else gives
/// back what it won and fails with the transform's error.
#[verifier::spinoff_prover]
#[verifier::rlimit(40)]
pub proof fn lemma_update_sends_what_was_transformed<V: Encode>(
    key: &[u8],
    transformed: Result<V, Error>,
    ttl: Ttl,
    compare_cas: Option<u64>,
    stale_win: Option<StaleWin>,
    now: SystemTime,
    write: UpdateWrite<V>,
)
    requires
        call_ensures(memcache::update_write_at::<V>, (key, transformed, ttl, compare_cas, stale_win, now), write),
    ensures
        match write {
            UpdateWrite::Send { command, next } => transformed == Ok::<V, Error>(next) && (scenario::value_encoding(
                &next,
            ) matches Ok(encoded) && command.key@ == key@ && command.value is Some && command.value->0@ == encoded.bytes
                && scenario::store_plan(
                key@,
                encoded,
                ttl,
                if compare_cas is Some {
                    SetMode::Store
                } else {
                    SetMode::Add
                },
                compare_cas,
                now,
            ) == Ok::<MetaCommandView, ErrorView>(command@)),
            UpdateWrite::Fail { error, give_back } => {
                &&& transformed matches Err(e) ==> error == e && give_back == stale_win
                &&& transformed matches Ok(next) ==> (match scenario::value_encoding(&next) {
                    Err(e) => error@ == e && give_back == stale_win,
                    Ok(_) => give_back is None,
                })
            },
        },
{
    if let UpdateWrite::Send { command, next } = write {
        let encoded = scenario::value_encoding(&next)->Ok_0;
        let mode = if compare_cas is Some {
            SetMode::Store
        } else {
            SetMode::Add
        };
        sent::lemma_store_plan_sends_value_and_fence(key@, encoded, ttl, mode, compare_cas, now, 'C' as u8);
    }
}

/// A failed exchange is repeated only where a pooled connection failed before a byte
/// was written. A failure is told with its error and what had been written.
pub proof fn lemma_failed_exchanges(pooled: bool, written: usize, error: Error, step: ExchangeStep)
    requires
        call_ensures(batch::exchange_step, (pooled, written, error), step),
    ensures
        match step {
            ExchangeStep::Redial => pooled && written == 0 && error is Io,
            ExchangeStep::Fail(failure) => !(pooled && written == 0 && error is Io) && failure.error == error
                && failure.written == written,
        },
{
}

/// An attempt at a batch is done where every reply is in order and nothing failed. It
/// keeps the replies that came before a failure, and none that are out of order.
pub proof fn lemma_batch_attempts(
    pooled: bool,
    responses: Vec<MetaResponse>,
    error: Option<Error>,
    written: usize,
    step: BatchStep,
)
    requires
        call_ensures(batch::batch_step, (pooled, responses, error, written), step),
    ensures
        ({
            let paired = batch::in_order(batch::response_views(responses@));
            match step {
                BatchStep::Done(kept) => paired && error is None && kept == responses,
                BatchStep::Redial => paired && pooled && written == 0 && (error matches Some(e) && e is Io),
                BatchStep::Fail(kept, failure) => {
                    &&& failure.written == written
                    &&& paired ==> kept == responses && (error matches Some(e) && failure.error@ == e@)
                    &&& !paired ==> kept@.len() == 0 && failure.error is Protocol
                },
            }
        }),
{
}

/// An idle connection is used again only where nothing is buffered and nothing is to
/// be read.
pub proof fn lemma_reusable_connections(buffered: usize, probe: Probe, r: bool)
    requires
        call_ensures(connection::is_reusable, (buffered, probe), r),
    ensures
        r <==> buffered == 0 && probe is Quiet,
{
}

/// The time left to a deadline is what lies between, and a deadline that has come is a
/// timeout.
pub proof fn lemma_time_left(deadline: Option<SystemTime>, now: SystemTime, r: Result<Option<Duration>, Error>)
    requires
        call_ensures(connection::time_left, (deadline, now), r),
    ensures
        match r {
            Ok(None) => deadline is None,
            Ok(Some(left)) => deadline is Some && now.nanos < deadline->0.nanos && now.nanos + left.nanos
                == deadline->0.nanos,
            Err(e) => deadline is Some && now.nanos >= deadline->0.nanos && (e@ matches ErrorView::Io(fault) && fault.kind
                == IoErrorKind::TimedOut),
        },
{
}

/// A socket that would block ran out of time. Any other failure of it stays what it
/// is.
pub proof fn lemma_socket_errors(error: IoError, r: Error)
    requires
        call_ensures(connection::socket_error, (error,), r),
    ensures
        error.kind == IoErrorKind::WouldBlock ==> (r@ matches ErrorView::Io(fault) && fault.kind == IoErrorKind::TimedOut),
        error.kind != IoErrorKind::WouldBlock ==> r@ == ErrorView::Io(error@),
{
}

/// The addresses of a server are dialed in order while time is left. When none is
/// left, or the time is up, the last failure is told.
pub proof fn lemma_dialing(
    addresses: usize,
    tried: usize,
    deadline: Option<SystemTime>,
    now: SystemTime,
    last: Option<IoError>,
    step: DialStep,
)
    requires
        call_ensures(connection::dial_step, (addresses, tried, deadline, now, last), step),
    ensures
        match step {
            DialStep::Try { address, left } => address == tried && tried < addresses && (deadline is None ==> left is None)
                && (deadline matches Some(end) ==> left is Some && left->0.nanos > 0 && now.nanos + left->0.nanos
                == end.nanos),
            DialStep::Fail(e) => {
                &&& tried >= addresses || (deadline matches Some(end) && now.nanos >= end.nanos)
                &&& last matches Some(error) ==> e@ == ErrorView::Io(error@)
                &&& last is None ==> (e@ matches ErrorView::Io(fault) && fault.kind == IoErrorKind::TimedOut)
            },
        },
{
}

/// `get` gives back the value that stands for the bytes and flags it read, stale or
/// not, nothing where no bytes came, and fails only where they cannot be decoded.
pub proof fn lemma_get_gives_back_what_was_read<T: Decode>(view: ReadView, r: Result<Option<T>, Error>)
    requires
        call_ensures(scenario::finish_get::<T>, (view,), r),
    ensures
        match r {
            Ok(None) => is_bare(view),
            Ok(Some(value)) => !is_bare(view) && T::stands_for(view.value->0@, view.flags, value) && T::decode_fault(
                view.value->0@,
                view.flags,
            ) is None,
            Err(e) => !is_bare(view) && (T::decode_fault(view.value->0@, view.flags) matches Some(message) && e@
                == ErrorView::Decode(message)),
        },
{
}

/// `inspect` tells what is known of an item that is there, and nothing of one that is
/// not. Times are whole seconds, and a negative TTL never ends.
pub proof fn lemma_inspection_tells_what_was_read(view: ReadView, r: Option<ItemInfo>)
    requires
        call_ensures(scenario::finish_inspect, (&view,), r),
    ensures
        r is Some <==> view.hit,
        r matches Some(info) ==> {
            &&& view.size matches Some(size) ==> info.size == size
            &&& view.size is None ==> info.size == 0
            &&& view.last_access matches Some(secs) ==> info.last_access.nanos == secs * 1_000_000_000
            &&& view.last_access is None ==> info.last_access.nanos == 0
            &&& view.hit_before matches Some(before) ==> info.hit_before == before
            &&& view.hit_before is None ==> !info.hit_before
            &&& info.ttl is Some <==> view.ttl is Some && view.ttl->0 >= 0
            &&& info.ttl matches Some(left) ==> left.nanos == view.ttl->0 * 1_000_000_000
        },
{
}

/// An unconditional set and a joining succeed exactly where the server says so.
pub proof fn lemma_plain_writes_succeed_alike(wire: MetaCommandResult, r: Result<(), Error>)
    ensures
        call_ensures(scenario::finish_set, (&wire,), r) ==> (r is Ok <==> wire.rc == ReturnCode::Hd),
        call_ensures(scenario::finish_concat, (&wire,), r) ==> (r is Ok <==> wire.rc == ReturnCode::Hd),
        r is Err && (call_ensures(scenario::finish_set, (&wire,), r) || call_ensures(
            scenario::finish_concat,
            (&wire,),
            r,
        )) ==> r->Err_0 is Protocol,
{
}

/// A conditional write took effect exactly where the server says so, and did not where
/// it says that something stood in its way.
pub proof fn lemma_conditional_writes_tell(wire: MetaCommandResult, r: Result<bool, Error>)
    ensures
        call_ensures(scenario::finish_store, (&wire,), r) ==> (match r {
            Ok(stored) => (stored <==> wire.rc == ReturnCode::Hd) && (!stored ==> wire.rc == ReturnCode::Ns || wire.rc
                == ReturnCode::Ex || wire.rc == ReturnCode::Nf),
            Err(e) => e is Protocol && wire.rc != ReturnCode::Hd && wire.rc != ReturnCode::Ns && wire.rc != ReturnCode::Ex
                && wire.rc != ReturnCode::Nf,
        }),
        call_ensures(scenario::finish_erase, (&wire,), r) ==> (match r {
            Ok(erased) => (erased <==> wire.rc == ReturnCode::Hd) && (!erased ==> wire.rc == ReturnCode::Ex || wire.rc
                == ReturnCode::Nf),
            Err(e) => e is Protocol && wire.rc != ReturnCode::Hd && wire.rc != ReturnCode::Ex && wire.rc != ReturnCode::Nf,
        }),
{
}

/// A write-back goes through the CAS of the election: it carries the value and its
/// flags, and is a plain store that compares that CAS.
#[verifier::spinoff_prover]
#[verifier::rlimit(40)]
pub proof fn lemma_write_backs_are_fenced(
    key: &[u8],
    value: &Encoded,
    ttl: Ttl,
    cas: u64,
    now: SystemTime,
    command: MetaCommand,
    i: int,
)
    requires
        call_ensures(scenario::plan_write_back_at, (key, value, ttl, cas, now), Ok(command)),
    ensures
        command.key@ == key@,
        command.value is Some,
        command.value->0@ == value.bytes@,
        command@.flags.contains(seq!['C' as u8] + decimal::decimal(cas as nat)),
        0 <= i < command@.flags.len() && command@.flags[i].len() > 0 ==> command@.flags[i][0] != 'M' as u8,
{
    let flag = seq!['C' as u8] + decimal::decimal(cas as nat);
    assert(sent::shows(command@.flags, 'C' as u8, seq![flag]) && command@.key == key@ && command@.value == Some(
        value.bytes@,
    )) by {
        sent::lemma_store_plan_sends_value_and_fence(key@, value@, ttl, SetMode::Store, Some(cas), now, 'C' as u8);
    }
    assert(sent::shows(command@.flags, 'M' as u8, Seq::empty())) by {
        sent::lemma_store_plan_sends_value_and_fence(key@, value@, ttl, SetMode::Store, Some(cas), now, 'M' as u8);
    }
    sent::lemma_shown_flags_are_there(command@.flags, 'C' as u8, flag, i);
    sent::lemma_shown_flags_are_there(command@.flags, 'M' as u8, flag, i);
}

/// A lease is released through its CAS by a plain delete.
#[verifier::spinoff_prover]
#[verifier::rlimit(40)]
pub proof fn lemma_releases_are_fenced(key: &[u8], cas: u64, command: MetaCommand, i: int)
    requires
        call_ensures(scenario::plan_release_lease, (key, cas), Ok(command)),
    ensures
        command.op == MetaOp::Delete,
        command.key@ == key@,
        command@.flags.contains(seq!['C' as u8] + decimal::decimal(cas as nat)),
        0 <= i < command@.flags.len() && command@.flags[i].len() > 0 ==> command@.flags[i][0] != 'I' as u8,
{
    sent::lemma_release_deletes_the_lease(key@, cas, 'C' as u8);
    sent::lemma_release_deletes_the_lease(key@, cas, 'I' as u8);
    let flag = seq!['C' as u8] + decimal::decimal(cas as nat);
    sent::lemma_shown_flags_are_there(command@.flags, 'C' as u8, flag, i);
    sent::lemma_shown_flags_are_there(command@.flags, 'I' as u8, flag, i);
}

/// A caller that waits sleeps 25 milliseconds first, then twice as long each time, five
/// times in all.
pub proof fn lemma_waiting(attempt: usize, wait: Option<Duration>, next: Option<Duration>)
    requires
        attempt < usize::MAX,
        call_ensures(scenario::wait_backoff, (attempt,), wait),
        call_ensures(scenario::wait_backoff, ((attempt + 1) as usize,), next),
    ensures
        wait is Some <==> attempt < 5,
        attempt == 0 ==> wait is Some && wait->0.nanos == 25_000_000,
        attempt < 4 ==> next is Some && next->0.nanos == 2 * wait->0.nanos,
{
}

/// A TTL is what it was made from: for ever, so many seconds, until an instant, or a
/// number that is sent as it is.
pub proof fn lemma_lifetimes_are_what_they_were_made_from(
    n: u32,
    t: SystemTime,
    never: Ttl,
    secs: Ttl,
    at: Ttl,
    raw: Ttl,
)
    requires
        call_ensures(Ttl::never, (), never),
        call_ensures(Ttl::secs, (n,), secs),
        call_ensures(Ttl::at, (t,), at),
        call_ensures(Ttl::raw, (n,), raw),
    ensures
        never.repr is Never,
        (secs.repr matches TtlRepr::Secs(kept) && kept == n),
        (at.repr matches TtlRepr::At(kept) && kept == t),
        (raw.repr matches TtlRepr::Raw(kept) && kept == n),
{
}

/// A freshness keeps the lifetime and the window that it was made from.
pub proof fn lemma_freshness_keeps_lifetime_and_window(ttl: Ttl, window: Duration, made: Freshness, kept: Ttl)
    requires
        call_ensures(Ttl::refresh_ahead, (ttl, window), made),
        call_ensures(Freshness::ttl, (made,), kept),
    ensures
        kept == ttl,
        made.refresh_ahead == Some(window),
{
}

/// A read is a hit, stale, leased or busy exactly where its states say so; it is
/// never leased and busy at once.
pub proof fn lemma_reads_say_what_they_are(result: &GetResult, hit: bool, stale: bool, won: bool, busy: bool)
    requires
        call_ensures(GetResult::hit, (result,), hit),
        call_ensures(GetResult::is_stale, (result,), stale),
        call_ensures(GetResult::won_lease, (result,), won),
        call_ensures(GetResult::lease_busy, (result,), busy),
    ensures
        hit <==> result.status is Hit,
        stale <==> result.value_state is Stale,
        won <==> result.lease_state is Granted,
        busy <==> result.lease_state is Busy,
        !(won && busy),
{
}

/// A write took effect exactly where its status says that it was applied.
pub proof fn lemma_writes_say_whether_they_were_applied(
    mutation: &MutationResult,
    arithmetic: &ArithmeticResult,
    written: bool,
    counted: bool,
)
    requires
        call_ensures(MutationResult::applied, (mutation,), written),
        call_ensures(ArithmeticResult::applied, (arithmetic,), counted),
    ensures
        written <==> mutation.status is Applied,
        counted <==> arithmetic.status is Applied,
{
}

/// A result of a batch is found under its own kind and under no other.
pub proof fn lemma_results_are_found_under_their_kind(
    result: &OpResult,
    get: Option<&GetResult>,
    mutation: Option<&MutationResult>,
    arithmetic: Option<&ArithmeticResult>,
)
    requires
        call_ensures(OpResult::as_get, (result,), get),
        call_ensures(OpResult::as_mutation, (result,), mutation),
        call_ensures(OpResult::as_arithmetic, (result,), arithmetic),
    ensures
        match *result {
            OpResult::Get(kept) => get is Some && *get->0 == kept && mutation is None && arithmetic is None,
            OpResult::Mutation(kept) => mutation is Some && *mutation->0 == kept && get is None && arithmetic is None,
            OpResult::Arithmetic(kept) => arithmetic is Some && *arithmetic->0 == kept && get is None && mutation is None,
        },
{
}

/// A client needs a server, and a server's address an address to dial; a no-op is
/// answered by `MN` and nothing else.
pub proof fn lemma_what_a_client_needs(
    count: usize,
    response: &MetaResponse,
    servers: Result<(), Error>,
    resolved: Result<(), Error>,
    noop: Result<(), Error>,
)
    requires
        call_ensures(client::check_servers, (count,), servers),
        call_ensures(client::check_resolved, (count,), resolved),
        call_ensures(client::check_noop, (response,), noop),
    ensures
        servers is Ok <==> count > 0,
        resolved is Ok <==> count > 0,
        noop is Ok <==> response.rc is Mn,
        servers is Err ==> servers->Err_0@ is Usage,
        resolved is Err ==> resolved->Err_0@ is Usage,
        noop is Err ==> noop->Err_0@ is Protocol,
{
}

} // verus!
