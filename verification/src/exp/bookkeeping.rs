//! What a call on many keys, a batch or a running refresh keeps account of: which
//! entries were found, reported or refused, and which keys are under way.

use vstd::prelude::*;

use super::batch;
use super::batch::{Batch, BatchPlan};
use super::client;
use super::error::{Error, ErrorView};
use super::many;
use super::memcache;
use super::memcache::{Policy, RefreshEvent, WriteVerb};
use super::meta_api;
use super::meta_api::MetaCommandResult;
use super::meta_command::{MetaCommand, MetaCommandView, MetaResponse, MetaResponseView, ReturnCode};
use super::operation::{Arithmetic, Delete, Get, Meta, Op, Store};
use super::outcomes;
use super::result::{ArithmeticResult, GetResult, MutationResult, OpResult, OpResultView};
use super::scenario;
use super::scenario::StaleWin;
use super::semantics::Operation;
use super::ttl::{Freshness, Ttl, TtlRepr};
use super::value::{Decode, DecodeError, EncodeError, Encoded};
use crate::io::IoError;
use crate::text;
use crate::time::{Duration, SystemTime};

verus! {

/// The bytes and flags of a reply that hit with a value.
pub open spec fn reply_holds(result: Result<MetaCommandResult, Error>, value: Seq<u8>, flags: u32) -> bool {
    result matches Ok(wire) && (wire.rc == ReturnCode::Va || wire.rc == ReturnCode::Hd) && wire.value is Some
        && wire.value->0@ == value && value.len() > 0 && flags == (match wire.client_flags {
        Some(flags) => flags,
        None => 0,
    })
}

/// A read of many finds each key whose reply hit with bytes, once and in order, as a
/// value that stands for those bytes and flags, and finds no other, among the
/// replies that it looks at.
pub proof fn lemma_found_is_what_is_cached<T: Decode>(
    found: Seq<(usize, T)>,
    results: Seq<Result<MetaCommandResult, Error>>,
    looked: int,
)
    requires
        0 <= looked <= results.len(),
        memcache::found_are::<T>(found, results, memcache::hits(results.take(looked))),
    ensures
        forall|k: int|
            0 <= k < found.len() ==> (#[trigger] found[k]).0 < looked && exists|value: Seq<u8>, flags: u32|
                #[trigger] reply_holds(results[found[k].0 as int], value, flags) && T::stands_for(
                    value,
                    flags,
                    found[k].1,
                ),
        forall|k: int, l: int| 0 <= k < l < found.len() ==> (#[trigger] found[k]).0 < (#[trigger] found[l]).0,
        forall|i: int, value: Seq<u8>, flags: u32|
            0 <= i < looked && #[trigger] reply_holds(results[i], value, flags) ==> exists|k: int|
                0 <= k < found.len() && (#[trigger] found[k]).0 == i,
{
    let seen = results.take(looked);
    let marks = memcache::hits(seen);
    outcomes::lemma_marked_positions(marks);
    assert forall|k: int| 0 <= k < found.len() implies (#[trigger] found[k]).0 < looked && exists|
        value: Seq<u8>,
        flags: u32,
    | #[trigger] reply_holds(results[found[k].0 as int], value, flags) && T::stands_for(value, flags, found[k].1) by {
        let i = memcache::marked(marks)[k];
        assert(marks[i]);
        assert(seen[i] == results[i]);
        assert(found[k].0 == i);
        let facts = memcache::facts_of(results[i])->Ok_0;
        assert(reply_holds(results[found[k].0 as int], facts.bytes(), facts.flags));
        assert(T::stands_for(facts.bytes(), facts.flags, found[k].1));
    }
    assert forall|i: int, value: Seq<u8>, flags: u32|
        0 <= i < looked && #[trigger] reply_holds(results[i], value, flags) implies exists|k: int|
        0 <= k < found.len() && (#[trigger] found[k]).0 == i by {
        assert(seen[i] == results[i]);
        assert(marks[i]);
        let k = choose|k: int| 0 <= k < memcache::marked(marks).len() && memcache::marked(marks)[k] == i;
        assert(found[k].0 == i);
    }
}

/// A read of many hands out the token of each key whose refresh it won, and no other,
/// among the replies that it looks at.
pub proof fn lemma_tokens_are_what_was_won(
    tokens: Seq<(usize, StaleWin)>,
    results: Seq<Result<MetaCommandResult, Error>>,
    looked: int,
)
    requires
        0 <= looked <= results.len(),
        memcache::wins_are(tokens, results, memcache::wins(results.take(looked))),
    ensures
        forall|k: int|
            0 <= k < tokens.len() ==> (#[trigger] tokens[k]).0 < looked && (results[tokens[k].0 as int] matches Ok(wire)
                && wire.stale && wire.won && wire.cas == Some(tokens[k].1.cas) && wire.ttl == tokens[k].1.ttl),
        forall|i: int|
            0 <= i < looked && (#[trigger] results[i] matches Ok(wire) && (wire.rc == ReturnCode::Va || wire.rc
                == ReturnCode::Hd) && wire.stale && wire.won && wire.cas is Some) ==> exists|k: int|
                0 <= k < tokens.len() && (#[trigger] tokens[k]).0 == i,
{
    let seen = results.take(looked);
    let marks = memcache::wins(seen);
    outcomes::lemma_marked_positions(marks);
    assert forall|k: int| 0 <= k < tokens.len() implies (#[trigger] tokens[k]).0 < looked && (
    results[tokens[k].0 as int] matches Ok(wire) && wire.stale && wire.won && wire.cas == Some(tokens[k].1.cas)
        && wire.ttl == tokens[k].1.ttl) by {
        let i = memcache::marked(marks)[k];
        assert(marks[i]);
        assert(seen[i] == results[i]);
    }
    assert forall|i: int|
        0 <= i < looked && (#[trigger] results[i] matches Ok(wire) && (wire.rc == ReturnCode::Va || wire.rc
            == ReturnCode::Hd) && wire.stale && wire.won && wire.cas is Some) implies exists|k: int|
        0 <= k < tokens.len() && (#[trigger] tokens[k]).0 == i by {
        assert(seen[i] == results[i]);
        assert(marks[i]);
        let k = choose|k: int| 0 <= k < memcache::marked(marks).len() && memcache::marked(marks)[k] == i;
        assert(tokens[k].0 == i);
    }
}

/// A call on many keys reports each fault that is absorbed, once and in order with
/// its position, and no other.
pub proof fn lemma_reports_are_what_was_absorbed(
    reports: Seq<(usize, Error)>,
    faults: Seq<Option<ErrorView>>,
    policy: Policy,
)
    requires
        memcache::reports_are(reports, faults, memcache::absorbed(faults, policy)),
    ensures
        forall|k: int|
            0 <= k < reports.len() ==> (#[trigger] reports[k]).0 < faults.len() && faults[reports[k].0 as int] == Some(
                reports[k].1@,
            ) && policy.degrade,
        forall|i: int|
            0 <= i < faults.len() && #[trigger] faults[i] is Some && policy.degrade && (faults[i]->0 is Io || faults[i]->0
                is Timeout || faults[i]->0 is Protocol || faults[i]->0 is Server) ==> exists|k: int|
                0 <= k < reports.len() && (#[trigger] reports[k]).0 == i,
{
    let marks = memcache::absorbed(faults, policy);
    outcomes::lemma_marked_positions(marks);
    assert forall|k: int| 0 <= k < reports.len() implies (#[trigger] reports[k]).0 < faults.len()
        && faults[reports[k].0 as int] == Some(reports[k].1@) && policy.degrade by {
        assert(marks[memcache::marked(marks)[k]]);
    }
    assert forall|i: int|
        0 <= i < faults.len() && #[trigger] faults[i] is Some && policy.degrade && (faults[i]->0 is Io || faults[i]->0
            is Timeout || faults[i]->0 is Protocol || faults[i]->0 is Server) implies exists|k: int|
        0 <= k < reports.len() && (#[trigger] reports[k]).0 == i by {
        assert(marks[i]);
        let k = choose|k: int| 0 <= k < memcache::marked(marks).len() && memcache::marked(marks)[k] == i;
        assert(reports[k].0 == i);
    }
}

/// The faults of many writes are those of each write, in order.
pub proof fn lemma_write_faults(verb: WriteVerb, results: Seq<Result<MetaCommandResult, Error>>, i: int)
    requires
        0 <= i < results.len(),
    ensures
        memcache::write_faults(verb, results).len() == results.len(),
        memcache::write_faults(verb, results)[i] == memcache::write_fault(verb, results[i]),
{
}

/// A read of many looks at its replies in order, and stops at the first value that
/// cannot be decoded.
pub proof fn lemma_looking_stops_at_the_undecodable<T: Decode>(
    result: Result<MetaCommandResult, Error>,
    results: Seq<Result<MetaCommandResult, Error>>,
)
    ensures
        memcache::looked_at::<T>(Seq::empty()) == 0,
        memcache::undecodable::<T>(result) is Some ==> memcache::looked_at::<T>(seq![result] + results) == 1,
        memcache::undecodable::<T>(result) is None ==> memcache::looked_at::<T>(seq![result] + results) == 1
            + memcache::looked_at::<T>(results),
{
    let all = seq![result] + results;
    assert(all[0] == result);
    assert(all.skip(1) =~= results);
}

/// What is under way for a key is the entry with that key, where each key has one.
pub proof fn lemma_entries_by_key<E>(list: Seq<(Vec<u8>, E)>, key: Seq<u8>)
    requires
        memcache::one_per_key(list),
    ensures
        match memcache::entry_of(list, key) {
            Some(entry) => exists|i: int| 0 <= i < list.len() && (#[trigger] list[i]).0@ == key && list[i].1 == entry,
            None => forall|i: int| 0 <= i < list.len() ==> (#[trigger] list[i]).0@ != key,
        },
        memcache::one_per_key(list) <==> forall|i: int, j: int|
            0 <= i < j < list.len() ==> (#[trigger] list[i]).0@ != (#[trigger] list[j]).0@,
    decreases list.len(),
{
    if list.len() > 0 && list.last().0@ != key {
        let before = list.drop_last();
        assert(memcache::one_per_key(before)) by {
            assert forall|i: int, j: int| 0 <= i < j < before.len() implies (#[trigger] before[i]).0@ != (
            #[trigger] before[j]).0@ by {
                assert(before[i] == list[i] && before[j] == list[j]);
            }
        }
        lemma_entries_by_key(before, key);
        match memcache::entry_of(before, key) {
            Some(entry) => {
                let i = choose|i: int| 0 <= i < before.len() && (#[trigger] before[i]).0@ == key && before[i].1 == entry;
                assert(list[i].0@ == key && list[i].1 == entry);
            },
            None => {
                assert forall|i: int| 0 <= i < list.len() implies (#[trigger] list[i]).0@ != key by {
                    if i < before.len() {
                        assert(before[i] == list[i]);
                    }
                }
            },
        }
    } else if list.len() > 0 {
        assert(list[list.len() - 1].0@ == key);
    }
}

/// A refresh is under way from its start to its end, and one event changes nothing
/// for other keys.
pub proof fn lemma_running_refreshes(running: Set<Seq<u8>>, key: Seq<u8>, other: Seq<u8>, events: Seq<RefreshEvent>)
    ensures
        memcache::running_after(running, RefreshEvent::Start(key)).contains(key),
        !memcache::running_after(running, RefreshEvent::End(key)).contains(key),
        other != key ==> (memcache::running_after(running, RefreshEvent::Start(key)).contains(other)
            <==> running.contains(other)) && (memcache::running_after(running, RefreshEvent::End(key)).contains(other)
            <==> running.contains(other)),
        memcache::running_after_all(running, Seq::empty()) == running,
        memcache::running_after_all(running, events.push(RefreshEvent::Start(key))) == memcache::running_after(
            memcache::running_after_all(running, events),
            RefreshEvent::Start(key),
        ),
        memcache::running_after_all(running, events.push(RefreshEvent::End(key))) == memcache::running_after(
            memcache::running_after_all(running, events),
            RefreshEvent::End(key),
        ),
{
    assert(events.push(RefreshEvent::Start(key)).drop_last() =~= events);
    assert(events.push(RefreshEvent::End(key)).drop_last() =~= events);
}

/// A plan of operations holds each one's key and command, in order, and all of them
/// can be sent.
pub proof fn lemma_plan_holds_the_operations<O: Operation>(
    plan: BatchPlan,
    operations: Seq<O>,
    servers: usize,
    now: SystemTime,
    i: int,
)
    requires
        batch::is_plan_of(plan, operations, servers, now),
        0 <= i < operations.len(),
    ensures
        plan.well_formed(),
        plan.groups@.len() == servers,
        plan.entries@.len() == operations.len(),
        plan.entries@[i].0@ == operations[i].key_spec(),
        operations[i].command_spec(now) == Ok::<MetaCommandView, ErrorView>(plan.entries@[i].1@),
        plan.entries@[i].1@.fault() is None,
        plan.routes@[i] < servers,
{
    assert(plan.entries@[i].1@.fault() is None);
    assert(plan.routes@[i] < plan.groups@.len());
}

/// What is planned for many keys is each key with its plan, in order, or the first
/// refusal among them.
pub proof fn lemma_planned_keys(
    r: Result<Vec<(Vec<u8>, MetaCommand)>, Error>,
    keys: Seq<Seq<u8>>,
    plans: Seq<many::Plan>,
    i: int,
)
    requires
        many::planned(r, keys, plans),
    ensures
        match r {
            Ok(entries) => {
                &&& many::first_refusal(plans) is None
                &&& entries@.len() == keys.len()
                &&& plans.len() == keys.len()
                &&& 0 <= i < keys.len() ==> entries@[i].0@ == keys[i] && plans[i] == Ok::<MetaCommandView, ErrorView>(
                    entries@[i].1@,
                )
            },
            Err(e) => many::first_refusal(plans) == Some(e@),
        },
{
}

/// A response fails an operation where it cannot be read, or where it does not answer
/// the operation.
pub proof fn lemma_response_faults<O: Operation>(operation: O, response: MetaResponseView)
    ensures
        match meta_api::meta_result(response) {
            Err(e) => client::response_fault(operation, response) == Some(e),
            Ok(wire) => client::response_fault(operation, response) == operation.answer_fault(wire),
        },
{
}

/// The views of results show every field as it is.
pub proof fn lemma_results_are_seen_as_they_are(
    get: GetResult,
    mutation: MutationResult,
    arithmetic: ArithmeticResult,
    encoded: Encoded,
)
    ensures
        get@.key == get.key@,
        get@.status == get.status,
        get@.value is Some <==> get.value is Some,
        get.value matches Some(value) ==> get@.value == Some(value@),
        get@.client_flags == get.client_flags,
        get@.item == get.item,
        get@.value_state == get.value_state,
        get@.lease_state == get.lease_state,
        get.client_flags matches Some(flags) ==> get.flags_or_zero() == flags,
        get.client_flags is None ==> get.flags_or_zero() == 0,
        mutation@.key == mutation.key@,
        mutation@.status == mutation.status,
        mutation@.cas == mutation.cas,
        arithmetic@.key == arithmetic.key@,
        arithmetic@.status == arithmetic.status,
        arithmetic@.value == arithmetic.value,
        arithmetic@.item == arithmetic.item,
        encoded@.bytes == encoded.bytes@,
        encoded@.flags == encoded.flags,
        OpResult::Get(get)@ == OpResultView::Get(get@),
        OpResult::Mutation(mutation)@ == OpResultView::Mutation(mutation@),
        OpResult::Arithmetic(arithmetic)@ == OpResultView::Arithmetic(arithmetic@),
{
}

/// What is missing from an inspection is taken as nothing.
pub proof fn lemma_missing_metadata<T>(value: Option<T>, default: T)
    ensures
        value matches Some(known) ==> scenario::or_else(value, default) == known,
        value is None ==> scenario::or_else(value, default) == default,
{
}

/// Metadata is asked for all of it or none of it.
pub proof fn lemma_all_metadata(all: bool)
    ensures
        Meta::of(all).cas == all,
        Meta::of(all).ttl == all,
        Meta::of(all).size == all,
        Meta::of(all).last_access == all,
        Meta::of(all).hit_before == all,
{
}

/// An operation, a lifetime or an error is taken for the wider type as what it is.
pub proof fn lemma_conversions(
    get: Get,
    store: Store,
    delete: Delete,
    arithmetic: Arithmetic,
    d: Duration,
    ttl: Ttl,
    io: IoError,
    encode: EncodeError,
    decode: DecodeError,
)
    ensures
        <Op as vstd::std_specs::convert::FromSpec<Get>>::from_spec(get) == Op::Get(get),
        <Op as vstd::std_specs::convert::FromSpec<Store>>::from_spec(store) == Op::Store(store),
        <Op as vstd::std_specs::convert::FromSpec<Delete>>::from_spec(delete) == Op::Delete(delete),
        <Op as vstd::std_specs::convert::FromSpec<Arithmetic>>::from_spec(arithmetic) == Op::Arithmetic(arithmetic),
        <Ttl as vstd::std_specs::convert::FromSpec<Duration>>::from_spec(d).repr == TtlRepr::Secs(
            super::ttl::ceil_secs_spec(d),
        ),
        <Freshness as vstd::std_specs::convert::FromSpec<Ttl>>::from_spec(ttl).ttl == ttl,
        <Freshness as vstd::std_specs::convert::FromSpec<Ttl>>::from_spec(ttl).refresh_ahead is None,
        <Freshness as vstd::std_specs::convert::FromSpec<Duration>>::from_spec(d).ttl.repr == TtlRepr::Secs(
            super::ttl::ceil_secs_spec(d),
        ),
        <Freshness as vstd::std_specs::convert::FromSpec<Duration>>::from_spec(d).refresh_ahead is None,
        <Error as vstd::std_specs::convert::FromSpec<IoError>>::from_spec(io) == Error::Io(io),
        <Error as vstd::std_specs::convert::FromSpec<EncodeError>>::from_spec(encode) == Error::Encode(encode),
        <Error as vstd::std_specs::convert::FromSpec<DecodeError>>::from_spec(decode) == Error::Decode(decode),
{
}

/// What an error says, with its key or its cause.
pub proof fn lemma_error_texts(reason: Seq<char>, message: Seq<char>, key: Seq<u8>, source: ErrorView)
    ensures
        (ErrorView::Timeout { key }).text(message) == "timed out before sending request for "@ + text::key_shown(key),
        (ErrorView::Ambiguous { key, source: Box::new(source) }).text(message) == "outcome of request for "@
            + text::key_shown(key) + " is unknown: "@ + source.text(message),
        ErrorView::Protocol(reason).text(message) == "protocol error: "@ + reason,
        ErrorView::Server(reason).text(message) == "server error: "@ + reason,
        ErrorView::Rejected(reason).text(message) == "command rejected by server: "@ + reason,
        ErrorView::Conflict.text(message) == "too many conflicting concurrent writes"@,
        ErrorView::EmptyValue.text(message) == "empty values are reserved as lease placeholders"@,
        ErrorView::Encode(reason).text(message) == "encode failed: "@ + reason,
        ErrorView::Decode(reason).text(message) == "decode failed: "@ + reason,
        ErrorView::Usage(reason).text(message) == "invalid argument: "@ + reason,
        source matches ErrorView::Io(fault) ==> source.text(message) == "i/o error: "@ + fault.message,
        source is Callback ==> source.text(message) == "callback failed: "@ + message,
{
}

/// A key is shown as a quoted text where it is one, and else as its bytes in
/// brackets, in decimal with commas between.
pub proof fn lemma_shown_keys(key: Seq<u8>, byte: u8)
    ensures
        vstd::utf8::valid_utf8(key) ==> text::key_shown(key) == text::quoted(vstd::utf8::decode_utf8(key)),
        !vstd::utf8::valid_utf8(key) ==> text::key_shown(key) == "["@ + text::byte_numbers(key) + "]"@,
        text::byte_numbers(Seq::empty()).len() == 0,
        text::byte_numbers(seq![byte]) == text::number(byte as nat),
        key.len() > 0 ==> text::byte_numbers(key.push(byte)) == text::byte_numbers(key) + ", "@ + text::number(
            byte as nat,
        ),
{
    assert(key.push(byte).drop_last() =~= key);
}

/// A batch holds its commands as they go on the wire, where each of them ends, and
/// which of them change something.
pub proof fn lemma_batches_hold_their_commands(batch: Batch, commands: Seq<MetaCommandView>, i: int)
    requires
        batch.holds(commands),
        0 <= i < commands.len(),
    ensures
        batch.payload@ == batch::batch_wire(commands),
        batch.ends@.len() == commands.len(),
        batch.effects@.len() == commands.len(),
        batch.ends@[i] == batch::batch_wire(commands.take(i + 1)).len(),
        batch.effects@[i] == commands[i].has_side_effect(),
{
}

/// The batches of a plan hold the commands of their servers.
pub proof fn lemma_plans_hold_their_batches(plan: BatchPlan, server: usize)
    requires
        plan.well_formed(),
        server < plan.groups@.len(),
    ensures
        plan.batches@.len() == plan.groups@.len(),
        plan.routes@.len() == plan.entries@.len(),
        plan.groups@[server as int]@ == batch::group(plan.targets(), server),
        plan.batches@[server as int].holds(plan.commands_for(server)),
{
}

/// A reply word goes by its name in messages.
pub proof fn lemma_reply_names()
    ensures
        ReturnCode::Hd.name() == "Hd"@,
        ReturnCode::Va.name() == "Va"@,
        ReturnCode::En.name() == "En"@,
        ReturnCode::Ns.name() == "Ns"@,
        ReturnCode::Ex.name() == "Ex"@,
        ReturnCode::Nf.name() == "Nf"@,
        ReturnCode::Mn.name() == "Mn"@,
        ReturnCode::Me.name() == "Me"@,
{
}

/// Lists and optional errors are seen item by item.
pub proof fn lemma_lists_are_seen_item_by_item(
    commands: Seq<MetaCommand>,
    responses: Seq<MetaResponse>,
    pairs: Seq<(Vec<u8>, u64)>,
    error: Option<Error>,
    i: int,
)
    ensures
        batch::command_views(commands).len() == commands.len(),
        0 <= i < commands.len() ==> batch::command_views(commands)[i] == commands[i]@,
        batch::response_views(responses).len() == responses.len(),
        0 <= i < responses.len() ==> batch::response_views(responses)[i] == responses[i]@,
        many::pair_keys(pairs).len() == pairs.len(),
        0 <= i < pairs.len() ==> many::pair_keys(pairs)[i] == pairs[i].0@,
        error matches Some(e) ==> batch::error_view(error) == Some(e@) && memcache::view_error(error) == Some(e@),
        error is None ==> batch::error_view(error) is None && memcache::view_error(error) is None,
{
}

} // verus!
