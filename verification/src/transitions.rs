//! What calls that change a value leave behind, stated from the value before the
//! call to the value after it.

use vstd::prelude::*;

use crate::connection::Connection;
use crate::error::MemcacheError;
use crate::exp::connection::Sending;
use crate::exp::error::Error;
use crate::exp::memcache::{Flights, RefreshStart, Refreshes};
use crate::exp::pool::{IdleStack, SlotStep, Slots};
use crate::exp::scenario::{StaleWin, Token};
use crate::reader::Reader;
use crate::stream::udp_stream::UdpStream;
use crate::time::{Duration, SystemTime};

verus! {

/// A slot is taken wherever fewer are active than the cap allows, and always where
/// there is no cap. Otherwise the caller waits as long as it has left, and fails
/// once nothing is left.
pub proof fn lemma_slots_are_taken_below_the_cap(
    slots: &mut Slots,
    cap: Option<usize>,
    left: Option<Duration>,
    step: SlotStep,
)
    requires
        call_ensures(Slots::acquire, (slots, cap, left), step),
    ensures
        step is Take <==> cap is None || old(slots).active < cap->0,
        step is Exhausted <==> cap is Some && old(slots).active >= cap->0 && left is Some && left->0.nanos == 0,
        (step matches SlotStep::Wait(limit) ==> limit == left),
        final(slots).active == old(slots).active + (if step is Take {
            1int
        } else {
            0int
        }),
{
}

/// A released slot is one less that is active.
pub proof fn lemma_slots_are_released(slots: &mut Slots)
    requires
        call_ensures(Slots::release, (slots,), ()),
    ensures
        final(slots).active + 1 == old(slots).active,
{
}

/// A connection that is put back lies on top of the others, with the time at which
/// it was put back, unless as many lie there as may: then it is handed out again.
pub proof fn lemma_connections_are_put_back<C>(
    stack: &mut IdleStack<C>,
    connection: C,
    now: SystemTime,
    max_idle: usize,
    refused: Option<C>,
    i: int,
)
    requires
        call_ensures(IdleStack::<C>::put_back, (stack, connection, now, max_idle), refused),
    ensures
        refused is None <==> old(stack).idle@.len() < max_idle,
        refused is Some ==> refused->0 == connection && final(stack).idle@ == old(stack).idle@,
        refused is None ==> {
            &&& final(stack).idle@.len() == old(stack).idle@.len() + 1
            &&& final(stack).idle@[old(stack).idle@.len() as int] == (connection, now)
            &&& 0 <= i < old(stack).idle@.len() ==> final(stack).idle@[i] == old(stack).idle@[i]
        },
{
}

/// The connection that was put back last is taken first, where it is young enough;
/// those below stay.
pub proof fn lemma_youngest_connection_is_taken<C>(
    stack: &mut IdleStack<C>,
    now: SystemTime,
    max_age: Duration,
    taken: Option<C>,
)
    requires
        old(stack).idle@.len() > 0,
        now.nanos - old(stack).idle@.last().1.nanos <= max_age.nanos,
        call_ensures(IdleStack::<C>::take, (stack, now, max_age), taken),
    ensures
        taken == Some(old(stack).idle@.last().0),
        final(stack).idle@ == old(stack).idle@.drop_last(),
{
    assert(old(stack).idle@.drop_last() =~= old(stack).idle@.take(old(stack).idle@.len() - 1));
}

/// Nothing is taken from a stack whose connections are all too old, and it is left
/// empty.
pub proof fn lemma_old_connections_are_discarded<C>(
    stack: &mut IdleStack<C>,
    now: SystemTime,
    max_age: Duration,
    taken: Option<C>,
)
    requires
        forall|i: int|
            0 <= i < old(stack).idle@.len() ==> now.nanos - (#[trigger] old(stack).idle@[i]).1.nanos > max_age.nanos,
        call_ensures(IdleStack::<C>::take, (stack, now, max_age), taken),
    ensures
        taken is None,
        final(stack).idle@.len() == 0,
{
    lemma_all_too_old(old(stack).idle@, now, max_age);
}

proof fn lemma_all_too_old<C>(idle: Seq<(C, SystemTime)>, now: SystemTime, max_age: Duration)
    requires
        forall|i: int| 0 <= i < idle.len() ==> now.nanos - (#[trigger] idle[i]).1.nanos > max_age.nanos,
    ensures
        crate::exp::pool::too_old(idle, now, max_age) == idle.len(),
    decreases idle.len(),
{
    if idle.len() > 0 {
        assert(now.nanos - idle[idle.len() - 1].1.nanos > max_age.nanos);
        assert forall|i: int| 0 <= i < idle.drop_last().len() implies now.nanos - (
        #[trigger] idle.drop_last()[i]).1.nanos > max_age.nanos by {
            assert(idle.drop_last()[i] == idle[i]);
        }
        lemma_all_too_old(idle.drop_last(), now, max_age);
    }
}

/// A connection passes every outcome on. A success leaves it as it was; a failure
/// makes it dirty exactly where the stream may be out of step with the server.
pub proof fn lemma_outcomes_are_noted<T>(
    connection: &mut Connection,
    outcome: Result<T, MemcacheError>,
    passed: Result<T, MemcacheError>,
)
    requires
        call_ensures(Connection::note::<T>, (connection, outcome), passed),
    ensures
        passed == outcome,
        outcome is Ok ==> final(connection).is_dirty == old(connection).is_dirty,
        outcome is Err ==> final(connection).is_dirty == !outcome->Err_0@.is_recoverable(),
        final(connection).url == old(connection).url,
        final(connection).protocol == old(connection).protocol,
{
}

/// What a socket accepted counts as written; accepting nothing is a failure.
pub proof fn lemma_what_was_accepted_is_written(sending: &mut Sending, accepted: usize, r: Result<(), Error>)
    requires
        call_ensures(Sending::advance, (sending, accepted), r),
    ensures
        final(sending).written == old(sending).written + accepted,
        final(sending).length == old(sending).length,
        r is Ok <==> accepted > 0,
        r is Err ==> r->Err_0@ is Io,
{
}

/// Callers of a key that is in flight share its flight and get no ticket. Where it is
/// not, the caller's own flight takes off, under a ticket that no flight had before,
/// and those of other keys are as they were.
pub proof fn lemma_flights_are_shared<T>(
    flights: &mut Flights<T>,
    key: &[u8],
    fresh: std::sync::Arc<T>,
    claimed: (std::sync::Arc<T>, Option<u64>),
    other: Seq<u8>,
)
    requires
        call_ensures(Flights::<T>::claim, (flights, key, fresh), claimed),
    ensures
        claimed.1 is Some <==> old(flights).pending(key@) is None,
        claimed.1 is None ==> claimed.0 == old(flights).pending(key@)->0.flight,
        claimed.1 is Some ==> claimed.0 == fresh && claimed.1->0 == old(flights).next && final(flights).next
            > claimed.1->0,
        final(flights).pending(key@) is Some,
        final(flights).pending(key@)->0.flight == claimed.0,
        other != key@ ==> final(flights).pending(other) == old(flights).pending(other),
{
}

/// A flight ends with its own ticket only, and takes no other with it.
pub proof fn lemma_flights_end_with_their_ticket<T>(
    flights: &mut Flights<T>,
    key: &[u8],
    ticket: u64,
    other: Seq<u8>,
)
    requires
        call_ensures(Flights::<T>::forget, (flights, key, ticket), ()),
    ensures
        final(flights).pending(key@) is Some <==> old(flights).pending(key@) is Some && old(flights).pending(
            key@,
        )->0.ticket != ticket,
        final(flights).pending(key@) is Some ==> final(flights).pending(key@) == old(flights).pending(key@),
        other != key@ ==> final(flights).pending(other) == old(flights).pending(other),
{
}

/// A refresh starts where none of its key is running, and hands its win back where
/// one is. Afterwards one of its key is running, and other keys are as they were.
pub proof fn lemma_refreshes_start_once(
    refreshes: &mut Refreshes,
    key: &[u8],
    win: StaleWin,
    started: RefreshStart,
    other: Seq<u8>,
)
    requires
        call_ensures(Refreshes::start, (refreshes, key, win), started),
    ensures
        started is Run <==> !old(refreshes).running().contains(key@),
        started is Run || started == RefreshStart::HandBack(Token::Win(win)),
        final(refreshes).running().contains(key@),
        other != key@ ==> (final(refreshes).running().contains(other) <==> old(refreshes).running().contains(other)),
{
}

/// A refresh that ends is no longer running; those of other keys still are.
pub proof fn lemma_refreshes_end(refreshes: &mut Refreshes, key: &[u8], other: Seq<u8>)
    requires
        call_ensures(Refreshes::end, (refreshes, key), ()),
    ensures
        !final(refreshes).running().contains(key@),
        other != key@ ==> (final(refreshes).running().contains(other) <==> old(refreshes).running().contains(other)),
{
}

/// What is read from a stream over datagrams, and what stays to be read, are what
/// was there; no more is read than was asked for, and less only where less is there.
pub proof fn lemma_stream_is_read_in_order(stream: &mut UdpStream, limit: usize, read: Vec<u8>)
    requires
        call_ensures(UdpStream::read, (stream, limit), read),
    ensures
        read@ + final(stream).read_buf@ == old(stream).read_buf@,
        read@.len() <= limit,
        read@.len() < limit ==> final(stream).read_buf@.len() == 0,
        final(stream).write_buf@ == old(stream).write_buf@,
{
}

/// What is written to a stream over datagrams waits behind what was written before,
/// until it is sent: eight bytes precede it then.
pub proof fn lemma_stream_is_written_in_order(
    stream: &mut UdpStream,
    flushed: &mut UdpStream,
    buf: &[u8],
    datagram: Vec<u8>,
)
    requires
        call_ensures(UdpStream::write, (stream, buf), ()),
        call_ensures(UdpStream::start_flush, (flushed,), datagram),
    ensures
        final(stream).write_buf@ == old(stream).write_buf@ + buf@,
        final(stream).read_buf@ == old(stream).read_buf@,
        final(stream).request_id == old(stream).request_id,
        datagram@.len() == 8 + old(flushed).write_buf@.len(),
        datagram@.skip(8) == old(flushed).write_buf@,
        datagram@[0] * 256 + datagram@[1] == old(flushed).request_id,
        final(flushed).request_id == old(flushed).request_id,
{
    crate::stream::datagrams::lemma_datagram_layout(old(flushed).request_id, 0, 1, old(flushed).write_buf@);
}

/// Bytes are read from the front, and either all that were asked for or none: a
/// reader that holds fewer fails and is left empty.
pub proof fn lemma_bytes_are_read_from_the_front(reader: &mut Reader, length: usize, r: Result<Vec<u8>, MemcacheError>)
    requires
        call_ensures(Reader::read_exact, (reader, length), r),
    ensures
        r is Ok <==> length <= old(reader)@.len(),
        r is Ok ==> r->Ok_0@.len() == length && r->Ok_0@ + final(reader)@ == old(reader)@,
        r is Err ==> final(reader)@.len() == 0 && r->Err_0@ is IOError,
{
}

/// A byte is the first that was there.
pub proof fn lemma_a_byte_is_read_from_the_front(reader: &mut Reader, r: Result<u8, MemcacheError>)
    requires
        call_ensures(Reader::read_u8, (reader,), r),
    ensures
        r is Ok <==> old(reader)@.len() > 0,
        r is Ok ==> seq![r->Ok_0] + final(reader)@ == old(reader)@,
{
}

} // verus!
