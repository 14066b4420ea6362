//! How the client conducts itself: how long things live, what a failure is taken
//! for, how a batch is sent, paired and answered, and which verbs give way to an
//! outage.

use vstd::prelude::*;

use super::batch;
use super::batch::{BatchPlan, Reply};
use super::error::{Error, ErrorView};
use super::many;
use super::meta_api;
use super::meta_api::{MetaCommandResultView, SetMode};
use super::meta_command::{MetaCommandView, MetaResponseView};
use super::pool;
use super::scenario;
use super::semantics::Operation;
use super::ttl;
use super::ttl::{Freshness, Ttl, TtlRepr};
use super::value::Encode;
use super::verb::Verb;
use crate::decimal;
use crate::io::IoErrorKind;
use crate::time::{Duration, SystemTime};

verus! {

/// Whether a point in time, in nanoseconds since the epoch, lies in a second.
pub open spec fn in_second(nanos: int, second: int) -> bool {
    second * 1_000_000_000 <= nanos < (second + 1) * 1_000_000_000
}

/// How a lifetime is sent. None at all is zero and a raw number is itself. Seconds
/// up to thirty days are sent as they are, more as the point in time at which they
/// end, and none as nothing. A point in time is sent as its second, where that is
/// later than thirty days after the epoch and fits.
pub proof fn lemma_lifetimes_on_the_wire(ttl: Ttl, now: SystemTime)
    ensures
        match ttl.repr {
            TtlRepr::Never => ttl.wire_spec(now) == Ok::<u32, ErrorView>(0),
            TtlRepr::Raw(n) => ttl.wire_spec(now) == Ok::<u32, ErrorView>(n),
            TtlRepr::Secs(n) => if 1 <= n <= 2_592_000 {
                ttl.wire_spec(now) == Ok::<u32, ErrorView>(n)
            } else {
                match ttl.wire_spec(now) {
                    Ok(second) => n > 2_592_000 && in_second(now.nanos + n * 1_000_000_000, second as int),
                    Err(e) => e is Usage && (n == 0 || now.nanos + n * 1_000_000_000 < 0 || now.nanos + n * 1_000_000_000
                        >= 4_294_967_296_000_000_000),
                }
            },
            TtlRepr::At(time) => match ttl.wire_spec(now) {
                Ok(second) => second > 2_592_000 && in_second(time.nanos as int, second as int),
                Err(e) => e is Usage && (time.nanos < 2_592_001_000_000_000 || time.nanos >= 4_294_967_296_000_000_000),
            },
        },
{
}

/// How much of a lifetime is left. Seconds are left as they are, a point in time
/// leaves what is still to go of it and nothing once it is over, and what never
/// ends has no rest.
pub proof fn lemma_lifetimes_left(ttl: Ttl, now: SystemTime)
    requires
        now.nanos >= 0,
    ensures
        match ttl.repr {
            TtlRepr::Never => ttl.remaining_spec(now) == Ok::<Option<int>, ErrorView>(None),
            TtlRepr::Secs(n) => ttl.remaining_spec(now) == Ok::<Option<int>, ErrorView>(Some(n as int)),
            TtlRepr::Raw(n) => match ttl.remaining_spec(now) {
                Ok(None) => n == 0,
                Ok(Some(left)) => n > 0 && (if n <= 2_592_000 {
                    left == n
                } else {
                    left >= 0 && (left > 0 ==> in_second(now.nanos as int, n - left)) && (left == 0 ==> now.nanos >= n
                        * 1_000_000_000)
                }),
                Err(_) => false,
            },
            TtlRepr::At(time) => match ttl.remaining_spec(now) {
                Ok(None) => false,
                Ok(Some(left)) => left >= 0 && exists|second: int|
                    {
                        &&& #[trigger] in_second(time.nanos as int, second)
                        &&& left > 0 ==> in_second(now.nanos as int, second - left)
                        &&& left == 0 ==> now.nanos >= second * 1_000_000_000
                    },
                Err(e) => e is Usage && (time.nanos < 0 || time.nanos >= 4_294_967_296_000_000_000),
            },
        },
{
    if let TtlRepr::At(time) = ttl.repr {
        if time.nanos >= 0 {
            assert(in_second(time.nanos as int, time.nanos as int / 1_000_000_000));
        }
    }
}

/// A window to refresh ahead is its length in whole seconds, rounded up. It is at
/// least a second and shorter than what is left of the lifetime, and a value that
/// never expires has none.
pub proof fn lemma_windows(freshness: Freshness, now: SystemTime)
    ensures
        match freshness.window_spec(now) {
            Ok(None) => freshness.refresh_ahead is None,
            Ok(Some(secs)) => {
                &&& freshness.refresh_ahead is Some
                &&& freshness.refresh_ahead->0.nanos >= 1_000_000_000
                &&& secs == ttl::ceil_secs_spec(freshness.refresh_ahead->0)
                &&& freshness.ttl.remaining_spec(now) matches Ok(Some(left)) && secs < left
            },
            Err(e) => {
                &&& freshness.refresh_ahead is Some
                &&& e is Usage
                &&& freshness.refresh_ahead->0.nanos < 1_000_000_000 || (match freshness.ttl.remaining_spec(now) {
                    Ok(None) => true,
                    Ok(Some(left)) => ttl::ceil_secs_spec(freshness.refresh_ahead->0) >= left,
                    Err(_) => true,
                })
            },
        },
{
}

/// A duration becomes a lifetime by rounding up to whole seconds, as far as they
/// fit.
pub proof fn lemma_lifetime_of_a_duration(d: Duration)
    ensures
        d.nanos <= 4_294_967_295_000_000_000 ==> d.nanos <= ttl::ceil_secs_spec(d) * 1_000_000_000 && (d.nanos > 0 ==> (
        ttl::ceil_secs_spec(d) - 1) * 1_000_000_000 < d.nanos) && (d.nanos == 0 ==> ttl::ceil_secs_spec(d) == 0),
        d.nanos > 4_294_967_295_000_000_000 ==> ttl::ceil_secs_spec(d) == 4_294_967_295,
{
}

/// An error is worth a retry where it is of the connection or of time, and leaves
/// the outcome open where it says so. An I/O error that is a timeout becomes one
/// that names the key, and every other error stays what it is.
pub proof fn lemma_what_errors_mean(error: ErrorView, key: Seq<u8>)
    ensures
        error.is_retryable() <==> error is Io || error is Timeout,
        error.is_ambiguous() <==> error is Ambiguous,
        match error {
            ErrorView::Io(fault) => if fault.kind == IoErrorKind::TimedOut {
                error.for_key(key) == (ErrorView::Timeout { key })
            } else {
                error.for_key(key) == error
            },
            _ => error.for_key(key) == error,
        },
{
}

/// The view of an error tells it apart from every other and shows its message.
pub proof fn lemma_errors_are_seen_as_they_are(error: Error)
    ensures
        error@ is Io <==> error is Io,
        error@ is Timeout <==> error is Timeout,
        error@ is Ambiguous <==> error is Ambiguous,
        error@ is Protocol <==> error is Protocol,
        error@ is Server <==> error is Server,
        error@ is Rejected <==> error is Rejected,
        error@ is Conflict <==> error is Conflict,
        error@ is EmptyValue <==> error is EmptyValue,
        error@ is Encode <==> error is Encode,
        error@ is Decode <==> error is Decode,
        error@ is Usage <==> error is Usage,
        error@ is Callback <==> error is Callback,
        error matches Error::Io(fault) ==> error@ == ErrorView::Io(fault@),
        error matches Error::Timeout { key } ==> error@ == (ErrorView::Timeout { key: key@ }),
        error matches Error::Ambiguous { key, source } ==> error@ == (ErrorView::Ambiguous {
            key: key@,
            source: Box::new((*source)@),
        }),
        error matches Error::Protocol(message) ==> error@ == ErrorView::Protocol(message@),
        error matches Error::Server(message) ==> error@ == ErrorView::Server(message@),
        error matches Error::Rejected(message) ==> error@ == ErrorView::Rejected(message@),
        error matches Error::Encode(fault) ==> error@ == ErrorView::Encode(fault.message@),
        error matches Error::Decode(fault) ==> error@ == ErrorView::Decode(fault.message@),
        error matches Error::Usage(message) ==> error@ == ErrorView::Usage(message@),
        error matches Error::Callback(fault) ==> error@ == (ErrorView::Callback { cause: fault.source }),
{
}

/// A failure of an exchange is told for the key it struck: as it is where nothing
/// can have happened, and as an open outcome with the failure inside where the
/// command may have taken effect.
pub proof fn lemma_failures_are_told_by_key(error: ErrorView, key: Seq<u8>)
    ensures
        batch::attributed(error, key, false) == error.for_key(key),
        batch::attributed(error, key, true) == (ErrorView::Ambiguous { key, source: Box::new(error.for_key(key)) }),
{
}

/// An exchange is repeated on a fresh connection only where a pooled one failed, by
/// an I/O error, before a byte was written.
pub proof fn lemma_when_to_redial(pooled: bool, written: usize, error: ErrorView)
    ensures
        batch::redials(pooled, written, error) <==> pooled && written == 0 && error is Io,
{
}

/// A batch sends its commands one after the other, each with its position as the
/// opaque token. It is refused by the first command that cannot be sent.
pub proof fn lemma_batches_on_the_wire(commands: Seq<MetaCommandView>, command: MetaCommandView)
    ensures
        batch::batch_wire(Seq::empty()).len() == 0,
        batch::batch_wire(commands.push(command)) == batch::batch_wire(commands) + command.wire(Some(commands.len())),
        batch::first_fault(Seq::empty()) is None,
        batch::first_fault(commands) is Some ==> batch::first_fault(commands.push(command)) == batch::first_fault(
            commands,
        ),
        batch::first_fault(commands) is None ==> batch::first_fault(commands.push(command)) == command.fault(),
        super::connection::plain_wire(Seq::empty()).len() == 0,
        super::connection::plain_wire(commands.push(command)) == super::connection::plain_wire(commands) + command.wire(
            None,
        ),
{
    assert(commands.push(command).drop_last() =~= commands);
}

/// The replies of a batch are in order exactly where each has its own position as
/// the opaque token. Otherwise the batch fails, whatever else went wrong.
pub proof fn lemma_replies_are_paired(responses: Seq<MetaResponseView>, error: Option<ErrorView>)
    ensures
        batch::in_order(responses) <==> forall|i: int|
            #![trigger responses[i]]
            0 <= i < responses.len() ==> responses[i].flags.contains(seq!['O' as u8] + decimal::decimal(i as nat)),
        batch::in_order(responses) ==> batch::attempt_error(responses, error) == error,
        !batch::in_order(responses) ==> (batch::attempt_error(responses, error) matches Some(e) && e is Protocol),
{
    if forall|i: int|
        #![trigger responses[i]]
        0 <= i < responses.len() ==> responses[i].flags.contains(seq!['O' as u8] + decimal::decimal(i as nat)) {
        assert forall|i: int| 0 <= i < responses.len() implies batch::is_paired(responses, i) by {
            assert(responses[i].flags.contains(seq!['O' as u8] + decimal::decimal(i as nat)));
        }
    }
    if batch::in_order(responses) {
        assert forall|i: int|
            #![trigger responses[i]]
            0 <= i < responses.len() implies responses[i].flags.contains(
            seq!['O' as u8] + decimal::decimal(i as nat),
        ) by {
            assert(batch::is_paired(responses, i));
        }
    }
}

/// A command of a batch is settled by its reply where it has one. Where the
/// exchange failed first it is told that failure, as an open outcome exactly where
/// it was written in full and changes something.
pub proof fn lemma_commands_are_settled(
    reply: Reply,
    commands: Seq<MetaCommandView>,
    position: int,
    key: Seq<u8>,
)
    requires
        0 <= position < commands.len(),
    ensures
        position < reply.responses@.len() ==> reply.settles(commands, position, key) == meta_api::meta_result(
            reply.responses@[position]@,
        ),
        position >= reply.responses@.len() ==> (match reply.failure {
            Some(failure) => {
                let written = failure.written >= batch::batch_wire(commands.take(position + 1)).len();
                if written && commands[position].has_side_effect() {
                    reply.settles(commands, position, key) == Err::<MetaCommandResultView, ErrorView>(
                        (ErrorView::Ambiguous { key, source: Box::new(failure.error@.for_key(key)) }),
                    )
                } else {
                    reply.settles(commands, position, key) == Err::<MetaCommandResultView, ErrorView>(
                        failure.error@.for_key(key),
                    )
                }
            },
            None => reply.settles(commands, position, key) matches Err(e) && e is Protocol,
        }),
{
}

/// A command goes to the server of its route, behind those that went there before
/// it, and one that cannot be sent goes to none.
pub proof fn lemma_commands_are_grouped(targets: Seq<Option<usize>>, target: Option<usize>, server: usize)
    requires
        targets.len() < usize::MAX,
    ensures
        batch::group(Seq::empty(), server).len() == 0,
        target == Some(server) ==> batch::group(targets.push(target), server) == batch::group(targets, server).push(
            targets.len() as usize,
        ),
        target != Some(server) ==> batch::group(targets.push(target), server) == batch::group(targets, server),
        target matches Some(own) ==> batch::rank(targets.push(target), targets.len() as int) == batch::group(
            targets,
            own,
        ).len(),
{
    assert(targets.push(target).drop_last() =~= targets);
    assert(targets.push(target).take(targets.len() as int) =~= targets);
}

/// A plan sends each command that can be sent along its route, and answers one that
/// cannot with its fault. The others are answered from their own server's reply, at
/// their place among that server's commands.
pub proof fn lemma_plans_answer_each_command(plan: BatchPlan, replies: Seq<Reply>, i: int)
    requires
        plan.well_formed(),
        0 <= i < plan.entries@.len(),
    ensures
        plan.targets().len() == plan.entries@.len(),
        plan.entries@[i].1@.fault() is None ==> plan.targets()[i] == Some(plan.routes@[i]),
        plan.entries@[i].1@.fault() is Some ==> plan.targets()[i] is None,
        match plan.entries@[i].1@.fault() {
            Some(e) => plan.outcome(replies, i) == Err::<MetaCommandResultView, ErrorView>(e),
            None => {
                let server = plan.routes@[i];
                let place = batch::rank(plan.targets(), i) as int;
                plan.outcome(replies, i) == replies[server as int].settles(
                    plan.commands_for(server),
                    place,
                    plan.entries@[i].0@,
                )
            },
        },
{
}

/// The commands for a server are those of its group, in order.
pub proof fn lemma_commands_for_a_server(plan: BatchPlan, server: usize, k: int)
    requires
        0 <= k < batch::group(plan.targets(), server).len(),
    ensures
        plan.commands_for(server).len() == batch::group(plan.targets(), server).len(),
        plan.commands_for(server)[k] == plan.entries@[batch::group(plan.targets(), server)[k] as int].1@,
{
}

/// A batch of operations fails as its first operation that cannot be prepared, or
/// else as its first command that cannot be sent.
pub proof fn lemma_first_bad_operation<O: Operation>(operations: Seq<O>, operation: O, now: SystemTime)
    ensures
        batch::first_prepare_fault(Seq::<O>::empty(), now) is None,
        batch::first_prepare_fault(operations, now) is Some ==> batch::first_prepare_fault(
            operations.push(operation),
            now,
        ) == batch::first_prepare_fault(operations, now),
        batch::first_prepare_fault(operations, now) is None ==> (match operation.command_spec(now) {
            Ok(_) => batch::first_prepare_fault(operations.push(operation), now) is None,
            Err(e) => batch::first_prepare_fault(operations.push(operation), now) == Some(e),
        }),
        batch::first_prepare_fault(operations, now) is Some ==> batch::plan_fault(operations, now)
            == batch::first_prepare_fault(operations, now),
        batch::first_prepare_fault(operations, now) is None ==> batch::plan_fault(operations, now) == batch::first_fault(
            batch::prepared(operations, now),
        ),
{
    assert(operations.push(operation).drop_last() =~= operations);
}

/// A call on many keys does to each what the call on one key does: it reads without
/// a new TTL, deletes without grace, and stores plainly. It is refused by the first
/// plan that is.
pub proof fn lemma_many_keys_are_planned_alike<V: Encode>(
    keys: Seq<Seq<u8>>,
    pairs: Seq<(Vec<u8>, V)>,
    ttl: Ttl,
    now: SystemTime,
    i: int,
)
    ensures
        many::get_plans(keys, now).len() == keys.len(),
        many::delete_plans(keys, now).len() == keys.len(),
        many::set_plans(pairs, ttl, now).len() == pairs.len(),
        0 <= i < keys.len() ==> many::get_plans(keys, now)[i] == scenario::get_plan(keys[i], None, now)
            && many::delete_plans(keys, now)[i] == scenario::erase_plan(keys[i], None, None, now),
        0 <= i < pairs.len() ==> (match scenario::value_encoding(&pairs[i].1) {
            Ok(encoded) => many::set_plans(pairs, ttl, now)[i] == scenario::store_plan(
                pairs[i].0@,
                encoded,
                ttl,
                SetMode::Store,
                None,
                now,
            ),
            Err(e) => many::set_plans(pairs, ttl, now)[i] == Err::<MetaCommandView, ErrorView>(e),
        }),
{
}

/// The first refusal of a list of plans is the first that is an error.
pub proof fn lemma_first_refusal(plans: Seq<many::Plan>, plan: many::Plan)
    ensures
        many::first_refusal(Seq::empty()) is None,
        many::first_refusal(plans) is Some ==> many::first_refusal(plans.push(plan)) == many::first_refusal(plans),
        many::first_refusal(plans) is None ==> (match plan {
            Ok(_) => many::first_refusal(plans.push(plan)) is None,
            Err(e) => many::first_refusal(plans.push(plan)) == Some(e),
        }),
{
    assert(plans.push(plan).drop_last() =~= plans);
}

/// A connection that sat idle is used again up to the age limit. Those on top of
/// the stack that are older are passed over, and no others.
pub proof fn lemma_idle_connections<C>(
    idle: Seq<(C, SystemTime)>,
    connection: C,
    since: SystemTime,
    now: SystemTime,
    max_age: Duration,
)
    ensures
        pool::is_young(since, now, max_age) <==> now.nanos - since.nanos <= max_age.nanos,
        pool::too_old(Seq::<(C, SystemTime)>::empty(), now, max_age) == 0,
        now.nanos - since.nanos <= max_age.nanos ==> pool::too_old(idle.push((connection, since)), now, max_age) == 0,
        now.nanos - since.nanos > max_age.nanos ==> pool::too_old(idle.push((connection, since)), now, max_age) == 1
            + pool::too_old(idle, now, max_age),
        pool::pool_exhausted() matches ErrorView::Io(fault) && fault.kind == IoErrorKind::TimedOut,
{
    assert(idle.push((connection, since)).drop_last() =~= idle);
}

/// Reads, writes without an answer to decide on, and `fetch` give way to an outage.
/// A verb whose answer decides something does not: `add`, `replace`, `update`,
/// `take`, `incr` and `decr`.
pub proof fn lemma_verbs_that_give_way(verb: Verb)
    ensures
        verb.degrades_spec() <==> !(verb is Add || verb is Replace || verb is Update || verb is Take || verb is Incr
            || verb is Decr),
        verb.is_decision() <==> verb is Add || verb is Replace || verb is Update || verb is Take || verb is Incr || verb
            is Decr,
        verb.is_read() <==> verb is Get || verb is GetTouch || verb is GetAndTouch || verb is GetMany || verb is Inspect,
        verb.is_blind_write() <==> verb is Store || verb is StoreMany || verb is Delete || verb is DeleteMany || verb
            is Invalidate || verb is Touch || verb is Append || verb is Prepend,
{
}

/// Each verb goes by the name of its method.
pub proof fn lemma_verb_names()
    ensures
        Verb::Get.name_spec() == "get"@,
        Verb::GetTouch.name_spec() == "get_touch"@,
        Verb::GetAndTouch.name_spec() == "get_and_touch"@,
        Verb::GetMany.name_spec() == "get_many"@,
        Verb::Inspect.name_spec() == "inspect"@,
        Verb::Fetch.name_spec() == "fetch"@,
        Verb::Store.name_spec() == "set"@,
        Verb::StoreMany.name_spec() == "set_many"@,
        Verb::Delete.name_spec() == "delete"@,
        Verb::DeleteMany.name_spec() == "delete_many"@,
        Verb::Invalidate.name_spec() == "invalidate"@,
        Verb::Touch.name_spec() == "touch"@,
        Verb::Append.name_spec() == "append"@,
        Verb::Prepend.name_spec() == "prepend"@,
        Verb::Add.name_spec() == "add"@,
        Verb::Replace.name_spec() == "replace"@,
        Verb::Update.name_spec() == "update"@,
        Verb::Take.name_spec() == "take"@,
        Verb::Incr.name_spec() == "incr"@,
        Verb::Decr.name_spec() == "decr"@,
{
}

} // verus!
