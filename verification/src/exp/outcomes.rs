//! What each answer of a server leads to: which value is served, handed over or
//! reported as missing, and which reply is a success, a refusal or a fault.

use vstd::prelude::*;
use vstd::string::*;

use super::error::{Error, ErrorView};
use super::memcache;
use super::memcache::{FetchAction, Policy, Verdict, WriteVerb};
use super::meta_api::{MetaCommandResult, MetaCommandResultView, SetMode};
use super::meta_command::ReturnCode;
use super::operation::{Arithmetic, Delete, Get, Op, Store};
use super::result::{
    ArithmeticResultView, GetResultView, GetStatus, LeaseState, MutationResultView, MutationStatus, OpResult,
    ValueState,
};
use super::scenario;
use super::scenario::{FetchStep, FetchStepView, ReadFacts, ReadView};
use super::semantics;
use super::semantics::Operation;
use super::ttl::Ttl;
use super::value::{Decode, Encode, EncodedView};
use crate::decimal;
use crate::time::SystemTime;

verus! {

/// Whether a read brought bytes: it hit, and the value is there and not empty.
pub open spec fn brings(facts: ReadFacts, value: Seq<u8>) -> bool {
    facts.hit && facts.value == Some(value) && value.len() > 0
}

/// Whether a read brought no bytes.
pub open spec fn brings_nothing(facts: ReadFacts) -> bool {
    !facts.hit || facts.value is None || facts.value->0.len() == 0
}

/// `fetch` serves or refreshes what is cached. A hit with bytes, stale or not and
/// whatever came with it, gives back those bytes with those flags: as they are
/// where no refresh was won, and through the read's CAS where one was. Only a
/// read without bytes leads, waits or computes: it leads with a CAS of a hit that
/// was won or that nobody holds, waits where another caller holds it, and
/// computes on its own on a miss or without a CAS.
pub proof fn lemma_fetch_gives_back_what_is_cached(facts: ReadFacts)
    ensures
        match scenario::fetch_decision(facts) {
            FetchStepView::Serve { value, flags } => brings(facts, value) && flags == facts.flags && (!facts.won
                || facts.cas is None),
            FetchStepView::Refresh { value, flags, cas } => brings(facts, value) && flags == facts.flags && facts.won
                && facts.cas == Some(cas),
            FetchStepView::Lead { cas } => brings_nothing(facts) && facts.hit && facts.cas == Some(cas) && (facts.won
                || !facts.busy),
            FetchStepView::Wait => brings_nothing(facts) && facts.hit && facts.cas is Some && !facts.won && facts.busy,
            FetchStepView::Local => brings_nothing(facts) && (!facts.hit || facts.cas is None),
        },
        facts.hit && facts.value is Some && facts.value->0.len() > 0 ==> {
            let step = scenario::fetch_decision(facts);
            ||| step == (FetchStepView::Serve { value: facts.value->0, flags: facts.flags })
            ||| facts.won && facts.cas is Some && step == (FetchStepView::Refresh {
                value: facts.value->0,
                flags: facts.flags,
                cas: facts.cas->0,
            })
        },
{
}

/// What `fetch` does depends on nothing but whether the read hit, its bytes, flags
/// and CAS, and who holds the right to recompute: two reads that agree on these
/// lead to the same step, whatever TTL, size or age came with them and whether
/// they are stale or not.
pub proof fn lemma_fetch_ignores_the_rest(a: ReadFacts, b: ReadFacts)
    requires
        a.hit == b.hit,
        a.value == b.value,
        a.flags == b.flags,
        a.cas == b.cas,
        a.won == b.won,
        a.busy == b.busy,
    ensures
        scenario::fetch_decision(a) == scenario::fetch_decision(b),
{
}

/// The current value, for `update` and `take`, is there exactly where the read is
/// a hit that is not stale and has bytes. It is then those bytes with those flags,
/// whatever TTL came with them.
pub proof fn lemma_current_value_is_what_is_cached(facts: ReadFacts)
    ensures
        match scenario::current_value(facts) {
            Some((value, flags)) => brings(facts, value) && !facts.stale && flags == facts.flags,
            None => brings_nothing(facts) || facts.stale,
        },
{
}

/// The current value depends on nothing but whether the read hit, its bytes and
/// flags, and whether it is stale.
pub proof fn lemma_current_value_ignores_the_rest(a: ReadFacts, b: ReadFacts)
    requires
        a.hit == b.hit,
        a.value == b.value,
        a.flags == b.flags,
        a.stale == b.stale,
    ensures
        scenario::current_value(a) == scenario::current_value(b),
{
}

/// A read tells of bytes, and of a won refresh of a stale value, exactly where it
/// holds them.
pub proof fn lemma_facts_say_what_they_hold(facts: ReadFacts)
    ensures
        facts.has_value() <==> facts.hit && facts.value is Some && facts.value->0.len() > 0,
        facts.value is Some ==> facts.bytes() == facts.value->0,
        facts.value is None ==> facts.bytes().len() == 0,
        match facts.stale_win() {
            Some(win) => facts.stale && facts.won && facts.cas == Some(win.cas) && win.ttl == facts.ttl,
            None => !facts.stale || !facts.won || facts.cas is None,
        },
{
}

/// A read of a hit holds what the reply held, field by field, with flags of zero
/// where the reply had none. A miss holds nothing. Any other reply is a fault.
pub proof fn lemma_reply_is_read_field_by_field(wire: MetaCommandResultView)
    ensures
        match scenario::read_facts(wire) {
            Ok(facts) => if facts.hit {
                &&& wire.rc == ReturnCode::Va || wire.rc == ReturnCode::Hd
                &&& facts.value == wire.value
                &&& wire.client_flags matches Some(flags) ==> facts.flags == flags
                &&& wire.client_flags is None ==> facts.flags == 0
                &&& facts.cas == wire.cas
                &&& facts.ttl == wire.ttl
                &&& facts.size == wire.size
                &&& facts.last_access == wire.last_access
                &&& facts.hit_before == wire.hit_before
                &&& facts.won == wire.won
                &&& facts.busy == wire.busy
                &&& facts.stale == wire.stale
            } else {
                &&& wire.rc == ReturnCode::En
                &&& facts.value is None
                &&& facts.flags == 0
                &&& facts.cas is None
                &&& facts.ttl is None
                &&& facts.size is None
                &&& facts.last_access is None
                &&& facts.hit_before is None
                &&& !facts.won
                &&& !facts.busy
                &&& !facts.stale
            },
            Err(e) => e is Protocol && wire.rc != ReturnCode::Va && wire.rc != ReturnCode::Hd && wire.rc
                != ReturnCode::En,
        },
{
}

/// The view of a read, and of a step of `fetch`, shows every field as it is.
pub proof fn lemma_reads_are_seen_as_they_are(view: ReadView, step: FetchStep)
    ensures
        view@.hit == view.hit,
        view@.value is Some <==> view.value is Some,
        view.value matches Some(value) ==> view@.value == Some(value@),
        view@.flags == view.flags,
        view@.cas == view.cas,
        view@.ttl == view.ttl,
        view@.size == view.size,
        view@.last_access == view.last_access,
        view@.hit_before == view.hit_before,
        view@.won == view.won,
        view@.busy == view.busy,
        view@.stale == view.stale,
        match step@ {
            FetchStepView::Serve { value: seen, flags: with } => step matches FetchStep::Serve { value, flags } && value@
                == seen && flags == with,
            FetchStepView::Refresh { value: seen, flags: with, cas: through } => step matches FetchStep::Refresh {
                value,
                flags,
                cas,
            } && value@ == seen && flags == with && cas == through,
            FetchStepView::Lead { cas: through } => step matches FetchStep::Lead { cas } && cas == through,
            FetchStepView::Local => step is Local,
            FetchStepView::Wait => step is Wait,
        },
{
}

/// `fetch` gives back what the server sent: a reply with bytes is served, or
/// refreshed through its CAS where the refresh was won, with exactly those bytes
/// and flags. It never fails on a reply that hit or missed, and it runs the loader
/// only where no bytes came.
pub proof fn lemma_fetch_acts_on_the_reply(
    policy: Policy,
    attempt: usize,
    led_here: bool,
    wire: MetaCommandResult,
    action: FetchAction,
)
    requires
        memcache::is_fetch_action(policy, attempt, led_here, Ok(wire), action),
        wire.rc == ReturnCode::Va || wire.rc == ReturnCode::Hd || wire.rc == ReturnCode::En,
    ensures
        wire.rc != ReturnCode::En && wire.value is Some && wire.value->0@.len() > 0 ==> (match action {
            FetchAction::Serve { value, flags } => value@ == wire.value->0@ && flags == (match wire.client_flags {
                Some(flags) => flags,
                None => 0,
            }) && (!wire.won || wire.cas is None),
            FetchAction::Refresh { value, flags, win } => value@ == wire.value->0@ && flags == (
            match wire.client_flags {
                Some(flags) => flags,
                None => 0,
            }) && wire.won && wire.cas == Some(win.cas) && win.ttl == wire.ttl,
            _ => false,
        }),
        wire.rc == ReturnCode::En || wire.value is None || wire.value->0@.len() == 0 ==> (match action {
            FetchAction::Lead { cas } => wire.rc != ReturnCode::En && wire.cas == Some(cas) && (wire.won || !wire.busy),
            FetchAction::Join => led_here && wire.rc != ReturnCode::En && wire.cas is Some && !wire.won && wire.busy,
            FetchAction::Sleep(wait) => !led_here && wire.rc != ReturnCode::En && wire.cas is Some && !wire.won
                && wire.busy && attempt < 5 && wait.nanos == scenario::backoff_millis(attempt as int)->0 * 1_000_000,
            FetchAction::Compute { report } => report is None && (wire.rc == ReturnCode::En || wire.cas is None || (
            !led_here && !wire.won && wire.busy && attempt >= 5)),
            _ => false,
        }),
{
}

/// A reply that is neither a hit nor a miss, and a request that failed, fail
/// `fetch` with that error, except that with `degrade` an outage is reported and
/// the loader runs instead.
pub proof fn lemma_fetch_reports_failures(
    policy: Policy,
    attempt: usize,
    led_here: bool,
    error: Error,
    action: FetchAction,
)
    requires
        memcache::is_fetch_action(policy, attempt, led_here, Err(error), action),
    ensures
        match action {
            FetchAction::Compute { report } => policy.degrade && (error is Io || error is Timeout || error is Protocol
                || error is Server) && report is Some && report->0@ == error@,
            FetchAction::Fail(e) => e@ == error@ && !(policy.degrade && (error is Io || error is Timeout
                || error is Protocol || error is Server)),
            _ => false,
        },
{
}

/// A caller that waits for another one's value doubles its wait each time, from
/// 25 milliseconds, and gives up after the fifth.
pub proof fn lemma_waits_double(attempt: int)
    ensures
        scenario::backoff_millis(0) == Some(25u64),
        0 <= attempt < 4 ==> scenario::backoff_millis(attempt) is Some && scenario::backoff_millis(attempt + 1) is Some
            && scenario::backoff_millis(attempt + 1)->0 == 2 * scenario::backoff_millis(attempt)->0,
        attempt >= 5 ==> scenario::backoff_millis(attempt) is None,
        scenario::WAIT_ATTEMPTS == 5,
        scenario::UPDATE_ATTEMPTS == 8,
        scenario::LEASE_TTL_SECS == 30,
{
}

/// A store took effect exactly where the server said so, and did not where an
/// item, a missing item or another CAS stood in its way. A removal is alike. Any
/// other reply is a fault.
pub proof fn lemma_only_a_plain_success_is_one(rc: ReturnCode)
    ensures
        match scenario::store_answer(rc) {
            Ok(true) => rc == ReturnCode::Hd,
            Ok(false) => rc == ReturnCode::Ns || rc == ReturnCode::Ex || rc == ReturnCode::Nf,
            Err(e) => e is Protocol && (rc == ReturnCode::Va || rc == ReturnCode::En || rc == ReturnCode::Mn || rc
                == ReturnCode::Me),
        },
        match scenario::erase_answer(rc) {
            Ok(true) => rc == ReturnCode::Hd,
            Ok(false) => rc == ReturnCode::Nf || rc == ReturnCode::Ex,
            Err(e) => e is Protocol && rc != ReturnCode::Hd && rc != ReturnCode::Nf && rc != ReturnCode::Ex,
        },
        match scenario::set_fault(rc) {
            None => rc == ReturnCode::Hd,
            Some(e) => e is Protocol && rc != ReturnCode::Hd,
        },
{
}

/// A write of many fails as the same write alone would: a store unless it was
/// stored, a delete unless the item was deleted, missing or changed.
pub proof fn lemma_many_writes_fail_alike(result: Result<MetaCommandResult, Error>)
    ensures
        memcache::write_fault(WriteVerb::Store, result) is None <==> (result matches Ok(wire) && wire.rc
            == ReturnCode::Hd),
        memcache::write_fault(WriteVerb::Delete, result) is None <==> (result matches Ok(wire) && (wire.rc
            == ReturnCode::Hd || wire.rc == ReturnCode::Nf || wire.rc == ReturnCode::Ex)),
        result matches Err(e) ==> memcache::write_fault(WriteVerb::Store, result) == Some(e@)
            && memcache::write_fault(WriteVerb::Delete, result) == Some(e@),
{
}

/// An attempt of `update` or `take` is done when its write took effect. One that
/// lost its race is tried again, eight times in all, and then conflicts. A fault
/// ends it as that fault.
pub proof fn lemma_attempts_settle(result: Result<MetaCommandResult, Error>, attempt: usize, verdict: Verdict)
    requires
        attempt < 8,
    ensures
        memcache::attempt_verdict(memcache::store_outcome(result), attempt, verdict) ==> (match verdict {
            Verdict::Done => result matches Ok(wire) && wire.rc == ReturnCode::Hd,
            Verdict::Retry => attempt < 7 && (result matches Ok(wire) && (wire.rc == ReturnCode::Ns || wire.rc
                == ReturnCode::Ex || wire.rc == ReturnCode::Nf)),
            Verdict::Fail(e) => match result {
                Ok(wire) => wire.rc != ReturnCode::Hd && (if wire.rc == ReturnCode::Ns || wire.rc == ReturnCode::Ex
                    || wire.rc == ReturnCode::Nf {
                    attempt == 7 && e@ == ErrorView::Conflict
                } else {
                    e@ is Protocol
                }),
                Err(fault) => e@ == fault@,
            },
        }),
        memcache::attempt_verdict(memcache::erase_outcome(result), attempt, verdict) ==> (match verdict {
            Verdict::Done => result matches Ok(wire) && wire.rc == ReturnCode::Hd,
            Verdict::Retry => attempt < 7 && (result matches Ok(wire) && (wire.rc == ReturnCode::Ex || wire.rc
                == ReturnCode::Nf)),
            Verdict::Fail(e) => match result {
                Ok(wire) => wire.rc != ReturnCode::Hd && (if wire.rc == ReturnCode::Ex || wire.rc == ReturnCode::Nf {
                    attempt == 7 && e@ == ErrorView::Conflict
                } else {
                    e@ is Protocol
                }),
                Err(fault) => e@ == fault@,
            },
        }),
{
}

/// `update` writes over the item that it read, through that item's CAS. Where it
/// read none it adds, so that an item that came up meanwhile is kept.
pub proof fn lemma_update_writes_over_what_it_read(
    key: Seq<u8>,
    value: EncodedView,
    ttl: Ttl,
    compare_cas: Option<u64>,
    now: SystemTime,
)
    ensures
        compare_cas is Some ==> memcache::update_plan(key, value, ttl, compare_cas, now) == scenario::store_plan(
            key,
            value,
            ttl,
            SetMode::Store,
            compare_cas,
            now,
        ),
        compare_cas is None ==> memcache::update_plan(key, value, ttl, compare_cas, now) == scenario::store_plan(
            key,
            value,
            ttl,
            SetMode::Add,
            None,
            now,
        ),
{
}

/// `update` reads a reply as a value exactly where it is a hit with bytes that is
/// not stale. It fails on such a value only where that cannot be decoded, and on
/// other replies only where they are neither a hit nor a miss.
pub proof fn lemma_update_reads_what_is_cached<T: Decode>(wire: MetaCommandResult)
    ensures
        ({
            let hit = wire.rc == ReturnCode::Va || wire.rc == ReturnCode::Hd;
            let flags = match wire.client_flags {
                Some(flags) => flags,
                None => 0,
            };
            let result: Result<MetaCommandResult, Error> = Ok(wire);
            &&& hit && wire.value is Some && wire.value->0@.len() > 0 && !wire.stale ==> memcache::probe_fault::<T>(result)
                == (match T::decode_fault(wire.value->0@, flags) {
                Some(message) => Some(ErrorView::Decode(message)),
                None => None,
            })
            &&& hit && (wire.value is None || wire.value->0@.len() == 0 || wire.stale) ==> memcache::probe_fault::<T>(
                result,
            ) is None
            &&& wire.rc == ReturnCode::En ==> memcache::probe_fault::<T>(result) is None
            &&& !hit && wire.rc != ReturnCode::En ==> memcache::probe_fault::<T>(result) is Some
        }),
{
}

/// `take` takes what `update` would read, and needs its CAS. A value that cannot
/// be decoded, or that came without a CAS, fails the call and stays on the server.
pub proof fn lemma_take_reads_what_is_cached<T: Decode>(wire: MetaCommandResult)
    ensures
        ({
            let hit = wire.rc == ReturnCode::Va || wire.rc == ReturnCode::Hd;
            let flags = match wire.client_flags {
                Some(flags) => flags,
                None => 0,
            };
            let result: Result<MetaCommandResult, Error> = Ok(wire);
            &&& hit && wire.value is Some && wire.value->0@.len() > 0 && !wire.stale ==> (match wire.cas {
                Some(_) => memcache::take_fault::<T>(result) == (match T::decode_fault(wire.value->0@, flags) {
                    Some(message) => Some(ErrorView::Decode(message)),
                    None => None,
                }),
                None => memcache::take_fault::<T>(result) is Some && memcache::take_fault::<T>(result)->0 is Protocol,
            })
            &&& hit && (wire.value is None || wire.value->0@.len() == 0 || wire.stale) ==> memcache::take_fault::<T>(
                result,
            ) is None
            &&& wire.rc == ReturnCode::En ==> memcache::take_fault::<T>(result) is None
            &&& !hit && wire.rc != ReturnCode::En ==> memcache::take_fault::<T>(result) is Some
        }),
{
}

/// A value read with `get` or `get_many` is looked at exactly where it has bytes,
/// stale or not: it is then decoded from those bytes and flags.
pub proof fn lemma_reads_decode_what_is_cached<T: Decode>(wire: MetaCommandResult)
    ensures
        ({
            let hit = wire.rc == ReturnCode::Va || wire.rc == ReturnCode::Hd;
            let flags = match wire.client_flags {
                Some(flags) => flags,
                None => 0,
            };
            let result: Result<MetaCommandResult, Error> = Ok(wire);
            if hit && wire.value is Some && wire.value->0@.len() > 0 {
                memcache::undecodable::<T>(result) == T::decode_fault(wire.value->0@, flags)
            } else {
                memcache::undecodable::<T>(result) is None
            }
        }),
{
}

/// In a read of many, a key is found exactly where its reply hit with bytes, and
/// its token is won exactly where its reply is stale, won and has a CAS.
pub proof fn lemma_many_reads_find_what_is_cached(results: Seq<Result<MetaCommandResult, Error>>, i: int)
    requires
        0 <= i < results.len(),
    ensures
        memcache::hits(results).len() == results.len(),
        memcache::wins(results).len() == results.len(),
        memcache::hits(results)[i] <==> (results[i] matches Ok(wire) && (wire.rc == ReturnCode::Va || wire.rc
            == ReturnCode::Hd) && wire.value is Some && wire.value->0@.len() > 0),
        memcache::wins(results)[i] <==> (results[i] matches Ok(wire) && (wire.rc == ReturnCode::Va || wire.rc
            == ReturnCode::Hd) && wire.stale && wire.won && wire.cas is Some),
        memcache::read_faults(results).len() == results.len(),
        memcache::read_faults(results)[i] is None <==> (results[i] matches Ok(wire) && (wire.rc == ReturnCode::Va
            || wire.rc == ReturnCode::Hd || wire.rc == ReturnCode::En)),
        results[i] matches Err(e) ==> memcache::read_faults(results)[i] == Some(e@),
{
}

/// The marked positions are those whose mark is set, each once, in order.
pub proof fn lemma_marked_positions(marks: Seq<bool>)
    ensures
        forall|k: int|
            0 <= k < memcache::marked(marks).len() ==> 0 <= #[trigger] memcache::marked(marks)[k] < marks.len()
                && marks[memcache::marked(marks)[k]],
        forall|k: int, l: int|
            0 <= k < l < memcache::marked(marks).len() ==> memcache::marked(marks)[k] < memcache::marked(marks)[l],
        forall|i: int| 0 <= i < marks.len() && #[trigger] marks[i] ==> memcache::marked(marks).contains(i),
    decreases marks.len(),
{
    if marks.len() > 0 {
        let before = marks.drop_last();
        lemma_marked_positions(before);
        let last = marks.len() - 1;
        assert forall|i: int| 0 <= i < marks.len() && #[trigger] marks[i] implies memcache::marked(marks).contains(i) by {
            if i < last {
                assert(before[i]);
                let k = choose|k: int| 0 <= k < memcache::marked(before).len() && memcache::marked(before)[k] == i;
                assert(memcache::marked(marks)[k] == i);
            } else {
                assert(memcache::marked(marks)[memcache::marked(marks).len() - 1] == i);
            }
        }
    }
}

/// Which faults are absorbed and which one fails a call on many keys: with
/// `degrade` every outage is absorbed, and the first fault that is not absorbed
/// fails the call, if there is one.
pub proof fn lemma_first_kept_fault(faults: Seq<Option<ErrorView>>, policy: Policy)
    ensures
        memcache::absorbed(faults, policy).len() == faults.len(),
        forall|i: int|
            0 <= i < faults.len() ==> (#[trigger] memcache::absorbed(faults, policy)[i] <==> policy.degrade && faults[i]
                is Some && (faults[i]->0 is Io || faults[i]->0 is Timeout || faults[i]->0 is Protocol || faults[i]->0
                is Server)),
        match memcache::first_kept(faults, policy) {
            None => forall|i: int|
                0 <= i < faults.len() ==> (#[trigger] faults[i] is None || memcache::absorbed(faults, policy)[i]),
            Some(e) => exists|i: int|
                {
                    &&& 0 <= i < faults.len()
                    &&& #[trigger] faults[i] == Some(e)
                    &&& !memcache::absorbed(faults, policy)[i]
                    &&& forall|j: int| 0 <= j < i ==> (#[trigger] faults[j] is None || memcache::absorbed(faults, policy)[j])
                },
        },
    decreases faults.len(),
{
    if faults.len() > 0 {
        let before = faults.drop_last();
        let last = faults.len() - 1;
        lemma_first_kept_fault(before, policy);
        assert forall|j: int| 0 <= j < last implies faults[j] == before[j] && memcache::absorbed(faults, policy)[j]
            == memcache::absorbed(before, policy)[j] by {}
        match memcache::first_kept(before, policy) {
            Some(e) => {
                let i = choose|i: int|
                    {
                        &&& 0 <= i < before.len()
                        &&& #[trigger] before[i] == Some(e)
                        &&& !memcache::absorbed(before, policy)[i]
                        &&& forall|j: int|
                            0 <= j < i ==> (#[trigger] before[j] is None || memcache::absorbed(before, policy)[j])
                    };
                assert(faults[i] == Some(e));
                assert(!memcache::absorbed(faults, policy)[i]);
                assert forall|j: int| 0 <= j < i implies (#[trigger] faults[j] is None || memcache::absorbed(
                    faults,
                    policy,
                )[j]) by {
                    assert(before[j] == faults[j]);
                }
            },
            None => {
                assert forall|j: int| 0 <= j < last implies (#[trigger] faults[j] is None || memcache::absorbed(
                    faults,
                    policy,
                )[j]) by {
                    assert(before[j] == faults[j]);
                }
                if memcache::first_kept(faults, policy) is Some {
                    assert(faults[last] == memcache::first_kept(faults, policy));
                }
            },
        }
    }
}

/// A policy absorbs outages alone, and only with `degrade`: a connection that
/// failed or timed out, a reply that makes no sense and an error of the server.
pub proof fn lemma_only_outages_are_absorbed(policy: Policy, error: Error)
    ensures
        policy.absorbs_spec(error@) <==> policy.degrade && (error is Io || error is Timeout || error is Protocol
            || error is Server),
{
}

/// A write-back is reported unless it was stored: as a protocol error where the
/// item changed meanwhile, and as the fault itself where the write failed.
pub proof fn lemma_write_back_is_reported_unless_stored(result: Result<MetaCommandResult, Error>)
    ensures
        match memcache::write_back_fault(result) {
            None => result matches Ok(wire) && wire.rc == ReturnCode::Hd,
            Some(e) => match result {
                Ok(wire) => wire.rc != ReturnCode::Hd && e is Protocol,
                Err(fault) => e == fault@,
            },
        },
{
}

/// A counter reads as the decimal number in the reply's value, and as a fault
/// where the reply has none.
pub proof fn lemma_counter_is_the_number_sent(wire: MetaCommandResultView)
    ensures
        match scenario::counter_answer(wire) {
            Ok(n) => wire.rc == ReturnCode::Va && wire.value is Some && decimal::parse_unsigned(
                wire.value->0,
                u64::MAX as nat,
            ) == Ok::<nat, decimal::IntErrorKind>(n as nat),
            Err(e) => e is Protocol && (wire.rc != ReturnCode::Va || wire.value is None || decimal::parse_unsigned(
                wire.value->0,
                u64::MAX as nat,
            ) is Err),
        },
{
}

/// An empty value is never stored by a verb that encodes: it stands for a lease.
/// Every other encoding goes out as it is.
pub proof fn lemma_encodings_are_stored_as_they_are<V: Encode>(value: V)
    ensures
        match scenario::value_encoding(value) {
            Ok(encoded) => value.encoding() == Ok::<EncodedView, Seq<char>>(encoded) && encoded.bytes.len() > 0,
            Err(e) => match value.encoding() {
                Ok(encoded) => e == ErrorView::EmptyValue && encoded.bytes.len() == 0,
                Err(message) => e == ErrorView::Encode(message),
            },
        },
{
}

/// The status of a mutation says what the server said: applied, another CAS,
/// nothing there, or, for an add alone, something there already.
pub proof fn lemma_mutation_status_is_the_reply(is_add: bool, rc: ReturnCode)
    ensures
        match semantics::mutation_outcome(is_add, rc) {
            Ok(MutationStatus::Applied) => rc == ReturnCode::Hd || rc == ReturnCode::Va,
            Ok(MutationStatus::CasMismatch) => rc == ReturnCode::Ex,
            Ok(MutationStatus::NotFound) => rc == ReturnCode::Nf || (rc == ReturnCode::Ns && !is_add),
            Ok(MutationStatus::AlreadyExists) => rc == ReturnCode::Ns && is_add,
            Err(e) => e is Protocol && (rc == ReturnCode::En || rc == ReturnCode::Mn || rc == ReturnCode::Me),
        },
{
}

/// Whether a reply is a placeholder: an empty value that somebody holds a lease
/// on, and that is not stale.
pub open spec fn holds_a_place(wire: MetaCommandResultView) -> bool {
    !wire.stale && wire.value is Some && wire.value->0.len() == 0 && (wire.won || wire.busy)
}

/// A read operation answers with what the reply held. A hit keeps its bytes,
/// flags and metadata; a miss has none of them; a placeholder is a miss to a read
/// that asked for a lease and pending to one that did not; a reply without a
/// value to a read that named a CAS is unchanged.
pub proof fn lemma_get_answers_with_the_reply(operation: Get, wire: MetaCommandResultView)
    ensures
        match semantics::get_answer(operation, wire) {
            Ok(result) => {
                &&& result.key == operation.key@
                &&& wire.rc == ReturnCode::En ==> result.status == GetStatus::Miss && result.value is None
                    && result.client_flags is None && result.item.cas is None && result.item.ttl is None
                    && result.item.size is None && result.item.last_access is None && result.item.hit_before is None
                    && result.value_state == ValueState::Missing && result.lease_state == LeaseState::Absent
                &&& wire.rc != ReturnCode::En ==> {
                    &&& wire.rc == ReturnCode::Va || wire.rc == ReturnCode::Hd
                    &&& result.client_flags == wire.client_flags
                    &&& result.item.cas == wire.cas
                    &&& result.item.ttl == wire.ttl
                    &&& result.item.size == wire.size
                    &&& result.item.last_access == wire.last_access
                    &&& result.item.hit_before == wire.hit_before
                    &&& result.lease_state == LeaseState::Granted <==> wire.won
                    &&& result.lease_state == LeaseState::Busy <==> wire.busy && !wire.won
                    &&& result.lease_state == LeaseState::Absent <==> !wire.busy && !wire.won
                    &&& result.value_state == ValueState::Stale <==> wire.stale
                    &&& result.value_state == ValueState::Missing <==> holds_a_place(wire)
                    &&& result.value_state == ValueState::Fresh <==> !wire.stale && !holds_a_place(wire)
                    &&& result.status == GetStatus::Miss <==> holds_a_place(wire) && operation.lease_ttl is Some
                    &&& result.status == GetStatus::Pending <==> holds_a_place(wire) && operation.lease_ttl is None
                    &&& result.status == GetStatus::Unchanged <==> !holds_a_place(wire) && wire.rc == ReturnCode::Hd
                        && operation.unless_cas is Some
                    &&& result.status == GetStatus::Hit <==> !holds_a_place(wire) && (wire.rc == ReturnCode::Va
                        || operation.unless_cas is None)
                    &&& wire.rc == ReturnCode::Va && !holds_a_place(wire) ==> result.value == wire.value
                    &&& wire.rc == ReturnCode::Hd || holds_a_place(wire) ==> result.value is None
                }
            },
            Err(e) => e is Protocol && wire.rc != ReturnCode::En && wire.rc != ReturnCode::Va && wire.rc
                != ReturnCode::Hd,
        },
{
    if wire.value is Some && wire.value->0.len() == 0 {
        assert(wire.value->0 =~= Seq::<u8>::empty());
    }
}

/// A mutation answers with its key, the status the server gave and the CAS that
/// came with it.
pub proof fn lemma_mutation_answers_with_the_reply(key: Seq<u8>, is_add: bool, wire: MetaCommandResultView)
    ensures
        match semantics::mutation_answer(key, is_add, wire) {
            Ok(result) => result.key == key && result.cas == wire.cas && semantics::mutation_outcome(is_add, wire.rc)
                == Ok::<MutationStatus, ErrorView>(result.status),
            Err(e) => semantics::mutation_outcome(is_add, wire.rc) == Err::<MutationStatus, ErrorView>(e),
        },
{
}

/// A counter operation answers with its key, the status the server gave, the
/// number in the value, where one came, and the CAS and TTL that came with it.
pub proof fn lemma_arithmetic_answers_with_the_reply(operation: Arithmetic, wire: MetaCommandResultView)
    ensures
        match semantics::arithmetic_answer(operation, wire) {
            Ok(result) => {
                &&& result.key == operation.key@
                &&& semantics::mutation_outcome(false, wire.rc) == Ok::<MutationStatus, ErrorView>(result.status)
                &&& result.item.cas == wire.cas
                &&& result.item.ttl == wire.ttl
                &&& result.item.size is None && result.item.last_access is None && result.item.hit_before is None
                &&& match result.value {
                    Some(n) => wire.rc == ReturnCode::Va && wire.value is Some && decimal::parse_unsigned(
                        wire.value->0,
                        u64::MAX as nat,
                    ) == Ok::<nat, decimal::IntErrorKind>(n as nat),
                    None => wire.rc != ReturnCode::Va || wire.value is None || wire.value->0.len() == 0,
                }
            },
            Err(e) => e is Protocol && (wire.rc == ReturnCode::En || wire.rc == ReturnCode::Mn || wire.rc
                == ReturnCode::Me || (wire.rc == ReturnCode::Va && wire.value is Some && decimal::parse_unsigned(
                wire.value->0,
                u64::MAX as nat,
            ) is Err)),
        },
{
}

/// An operation of any kind is asked for, and answered, as itself: by its own key,
/// its own command and its own reading of the reply.
pub proof fn lemma_operations_stay_themselves(
    get: Get,
    store: Store,
    delete: Delete,
    arithmetic: Arithmetic,
    now: SystemTime,
    wire: MetaCommandResultView,
)
    ensures
        get.key_spec() == get.key@,
        store.key_spec() == store.key@,
        delete.key_spec() == delete.key@,
        arithmetic.key_spec() == arithmetic.key@,
        Op::Get(get).key_spec() == get.key@,
        Op::Store(store).key_spec() == store.key@,
        Op::Delete(delete).key_spec() == delete.key@,
        Op::Arithmetic(arithmetic).key_spec() == arithmetic.key@,
        get.command_spec(now) == semantics::get_prepared(get, now),
        store.command_spec(now) == semantics::set_prepared(store, now),
        delete.command_spec(now) == semantics::delete_prepared(delete, now),
        arithmetic.command_spec(now) == semantics::arithmetic_prepared(arithmetic, now),
        Op::Get(get).command_spec(now) == semantics::get_prepared(get, now),
        Op::Store(store).command_spec(now) == semantics::set_prepared(store, now),
        Op::Delete(delete).command_spec(now) == semantics::delete_prepared(delete, now),
        Op::Arithmetic(arithmetic).command_spec(now) == semantics::arithmetic_prepared(arithmetic, now),
        forall|output: OpResult| #[trigger]
            Op::Get(get).answers(wire, output) ==> (output matches OpResult::Get(result) && semantics::get_answer(
                get,
                wire,
            ) == Ok::<GetResultView, ErrorView>(result@)),
        forall|output: OpResult| #[trigger]
            Op::Store(store).answers(wire, output) ==> (output matches OpResult::Mutation(result)
                && semantics::mutation_answer(store.key@, store.mode == SetMode::Add, wire) == Ok::<
                MutationResultView,
                ErrorView,
            >(result@)),
        forall|output: OpResult| #[trigger]
            Op::Delete(delete).answers(wire, output) ==> (output matches OpResult::Mutation(result)
                && semantics::mutation_answer(delete.key@, false, wire) == Ok::<MutationResultView, ErrorView>(result@)),
        forall|output: OpResult| #[trigger]
            Op::Arithmetic(arithmetic).answers(wire, output) ==> (output matches OpResult::Arithmetic(result)
                && semantics::arithmetic_answer(arithmetic, wire) == Ok::<ArithmeticResultView, ErrorView>(result@)),
        Op::Get(get).answer_fault(wire) is Some <==> semantics::get_answer(get, wire) is Err,
        Op::Store(store).answer_fault(wire) is Some <==> semantics::mutation_outcome(false, wire.rc) is Err,
        Op::Delete(delete).answer_fault(wire) is Some <==> semantics::mutation_outcome(false, wire.rc) is Err,
        Op::Arithmetic(arithmetic).answer_fault(wire) is Some <==> semantics::arithmetic_answer(arithmetic, wire) is Err,
{
}

} // verus!
