//! The datagrams of a reply over UDP: where their numbers stand, which of them are
//! taken, and how they are put together.

use vstd::prelude::*;

use super::udp_stream;
use super::udp_stream::{Assembly, AssemblyView};
use crate::big_endian;
use crate::io::IoErrorKind;
use crate::notation;

verus! {

/// A datagram starts with the number of its request, its own number and how many
/// there are, two bytes each with the higher one first, then two bytes of zero. The
/// rest is its content.
pub proof fn lemma_datagram_layout(request_id: u16, sequence_no: u16, datagrams: u16, payload: Seq<u8>)
    ensures
        ({
            let sent = udp_stream::datagram(request_id, sequence_no, datagrams, payload);
            &&& sent.len() == 8 + payload.len()
            &&& 256 * sent[0] + sent[1] == request_id
            &&& 256 * sent[2] + sent[3] == sequence_no
            &&& 256 * sent[4] + sent[5] == datagrams
            &&& sent[6] == 0 && sent[7] == 0
            &&& sent.skip(8) == payload
        }),
{
    notation::lemma_network_bytes(request_id as nat);
    notation::lemma_network_bytes(sequence_no as nat);
    notation::lemma_network_bytes(datagrams as nat);
    notation::lemma_network_bytes(0);
    let sent = udp_stream::datagram(request_id, sequence_no, datagrams, payload);
    assert(sent.skip(8) =~= payload);
    assert(sent[0] == (request_id as nat / 256 % 256) as u8 && sent[1] == (request_id as nat % 256) as u8);
    assert(sent[2] == (sequence_no as nat / 256 % 256) as u8 && sent[3] == (sequence_no as nat % 256) as u8);
    assert(sent[4] == (datagrams as nat / 256 % 256) as u8 && sent[5] == (datagrams as nat % 256) as u8);
}

proof fn lemma_pair(s: Seq<u8>, at: int)
    requires
        0 <= at,
        at + 2 <= s.len(),
    ensures
        big_endian::value(s.subrange(at, at + 2)) == 256 * s[at] + s[at + 1],
{
    let t = s.subrange(at, at + 2);
    reveal_with_fuel(big_endian::value, 3);
    assert(t.drop_last().drop_last() =~= Seq::<u8>::empty());
}

/// A datagram that is too short fails the reply. One of another request is passed
/// over. One of this request is kept under its number, where that number and the
/// count make sense and the count is the same as before.
pub proof fn lemma_which_datagrams_are_taken(state: AssemblyView, request_id: u16, datagram: Seq<u8>)
    ensures
        datagram.len() < 8 ==> (udp_stream::arrived(state, request_id, datagram) matches Err(e) && e.kind
            == IoErrorKind::Other),
        datagram.len() >= 8 ==> {
            let id = 256 * datagram[0] + datagram[1];
            let number = 256 * datagram[2] + datagram[3];
            let count = 256 * datagram[4] + datagram[5];
            match udp_stream::arrived(state, request_id, datagram) {
                Ok(next) => if id != request_id {
                    next == state
                } else {
                    &&& number < count
                    &&& state.total != 0 ==> state.total == count
                    &&& next.total == count
                    &&& next.parts == state.parts.insert(number as u16, datagram.skip(8))
                },
                Err(e) => id == request_id && e.kind == IoErrorKind::InvalidData && (number >= count || (state.total != 0
                    && state.total != count)),
            }
        },
{
    if datagram.len() >= 8 {
        lemma_pair(datagram, 0);
        lemma_pair(datagram, 2);
        lemma_pair(datagram, 4);
        assert(datagram.subrange(0, 2) =~= datagram.take(2));
    }
}

/// Datagrams are taken one after the other, up to the first that fails.
pub proof fn lemma_datagrams_one_by_one(
    state: AssemblyView,
    request_id: u16,
    datagrams: Seq<Seq<u8>>,
    datagram: Seq<u8>,
)
    ensures
        udp_stream::all_arrived(state, request_id, Seq::empty()) == Ok::<AssemblyView, crate::io::IoErrorView>(state),
        match udp_stream::all_arrived(state, request_id, datagrams) {
            Ok(next) => udp_stream::all_arrived(state, request_id, datagrams.push(datagram)) == udp_stream::arrived(
                next,
                request_id,
                datagram,
            ),
            Err(e) => udp_stream::all_arrived(state, request_id, datagrams.push(datagram)) == Err::<
                AssemblyView,
                crate::io::IoErrorView,
            >(e),
        },
{
    assert(datagrams.push(datagram).drop_last() =~= datagrams);
}

/// A reply is whole when as many different datagrams arrived as there are. It is
/// then their contents by number.
pub proof fn lemma_reply_is_whole(state: AssemblyView, n: nat, parts: Seq<Seq<u8>>, part: Seq<u8>)
    requires
        n < 65535,
    ensures
        udp_stream::is_complete(state) <==> state.total != 0 && state.parts.dom().len() == state.total,
        state.joined(0).len() == 0,
        state.joined(n + 1) == state.joined(n) + state.parts[n as u16],
        udp_stream::whole(Seq::empty()).len() == 0,
        udp_stream::whole(parts.push(part)) == udp_stream::whole(parts) + part,
        AssemblyView::empty().total == 0,
        AssemblyView::empty().parts.dom().len() == 0,
{
    assert(parts.push(part).drop_last() =~= parts);
}

/// The view of an assembly shows what arrived, under the same numbers.
pub proof fn lemma_assembly_is_seen_as_it_is(assembly: Assembly, number: u16)
    ensures
        assembly@.total == assembly.total,
        assembly@.parts.contains_key(number) <==> assembly.parts@.contains_key(number),
        assembly.parts@.contains_key(number) ==> assembly@.parts[number] == assembly.parts@[number]@,
        udp_stream::HEADER_LENGTH == 8,
{
}

} // verus!
