//! A stream over datagrams: a request is one datagram, and a response is put
//! together from as many as the server split it into.

use std::collections::HashMap;

use vstd::prelude::*;
use vstd::string::*;

use crate::big_endian;
use crate::bytes;
use crate::io::{IoError, IoErrorKind, IoErrorView};
use crate::text;

verus! {

broadcast use vstd::std_specs::hash::group_hash_axioms;

/// The length of the header that each datagram starts with.
pub const HEADER_LENGTH: usize = 8;

/// The datagrams of a response that have arrived.
pub struct Assembly {
    /// How many there will be; zero while none has arrived.
    pub total: u16,
    /// What they hold, by their place in the response.
    pub parts: HashMap<u16, Vec<u8>>,
}

/// What an [`Assembly`] holds.
pub struct AssemblyView {
    pub total: u16,
    pub parts: Map<u16, Seq<u8>>,
}

impl View for Assembly {
    type V = AssemblyView;

    open spec fn view(&self) -> AssemblyView {
        AssemblyView { total: self.total, parts: self.parts@.map_values(|part: Vec<u8>| part@) }
    }
}

impl AssemblyView {
    pub open spec fn empty() -> AssemblyView {
        AssemblyView { total: 0, parts: Map::empty() }
    }

    /// Every datagram has its place among those that were announced.
    pub open spec fn well_formed(self) -> bool {
        &&& self.parts.dom().finite()
        &&& self.parts.dom().len() < self.total || self.parts.dom().len() == 0
        &&& forall|i: u16| #[trigger] self.parts.contains_key(i) ==> i < self.total
    }

    /// The first `n` datagrams in sequence.
    pub open spec fn joined(self, n: nat) -> Seq<u8>
        decreases n,
    {
        if n == 0 {
            Seq::empty()
        } else {
            self.joined((n - 1) as nat) + self.parts[(n - 1) as u16]
        }
    }
}

/// What the header of a datagram says.
pub struct DatagramHeader {
    pub request_id: u16,
    pub sequence_no: u16,
    pub datagrams: u16,
}

pub open spec fn datagram_header(datagram: Seq<u8>) -> DatagramHeader {
    DatagramHeader {
        request_id: big_endian::value(datagram.take(2)) as u16,
        sequence_no: big_endian::value(datagram.subrange(2, 4)) as u16,
        datagrams: big_endian::value(datagram.subrange(4, 6)) as u16,
    }
}

/// A datagram: the header and what follows it.
pub open spec fn datagram(request_id: u16, sequence_no: u16, datagrams: u16, payload: Seq<u8>) -> Seq<u8> {
    big_endian::digits(request_id as nat, 2) + big_endian::digits(sequence_no as nat, 2) + big_endian::digits(
        datagrams as nat,
        2,
    ) + big_endian::digits(0, 2) + payload
}

/// A datagram's header reads back as it was written.
pub proof fn lemma_datagram_roundtrip(request_id: u16, sequence_no: u16, datagrams: u16, payload: Seq<u8>)
    ensures
        ({
            let wire = datagram(request_id, sequence_no, datagrams, payload);
            &&& wire.len() == HEADER_LENGTH + payload.len()
            &&& datagram_header(wire) == DatagramHeader { request_id, sequence_no, datagrams }
            &&& wire.skip(HEADER_LENGTH as int) == payload
        }),
{
    big_endian::lemma_spans();
    big_endian::lemma_roundtrip(request_id as nat, 2);
    big_endian::lemma_roundtrip(sequence_no as nat, 2);
    big_endian::lemma_roundtrip(datagrams as nat, 2);
    big_endian::lemma_roundtrip(0, 2);
    let wire = datagram(request_id, sequence_no, datagrams, payload);
    assert(wire.take(2) =~= big_endian::digits(request_id as nat, 2));
    assert(wire.subrange(2, 4) =~= big_endian::digits(sequence_no as nat, 2));
    assert(wire.subrange(4, 6) =~= big_endian::digits(datagrams as nat, 2));
    assert(wire.skip(8) =~= payload);
}

/// The error of a datagram whose header makes no sense.
pub open spec fn invalid_header(kind: IoErrorKind) -> IoErrorView {
    IoErrorView { kind, message: "Invalid UDP header received"@ }
}

/// What has arrived once one more datagram has: unchanged by the datagram of
/// another request, an error where its header makes no sense.
pub open spec fn arrived(state: AssemblyView, request_id: u16, datagram: Seq<u8>) -> Result<
    AssemblyView,
    IoErrorView,
> {
    let header = datagram_header(datagram);
    if datagram.len() < HEADER_LENGTH {
        Err(invalid_header(IoErrorKind::Other))
    } else if header.request_id != request_id {
        Ok(state)
    } else if header.datagrams == 0 || header.sequence_no >= header.datagrams || (state.total != 0
        && header.datagrams != state.total) {
        Err(invalid_header(IoErrorKind::InvalidData))
    } else {
        Ok(
            AssemblyView {
                total: header.datagrams,
                parts: state.parts.insert(header.sequence_no, datagram.skip(HEADER_LENGTH as int)),
            },
        )
    }
}

/// Whether every datagram that was announced has arrived.
pub open spec fn is_complete(state: AssemblyView) -> bool {
    state.total != 0 && state.parts.dom().len() == state.total
}

/// What has arrived once all of the datagrams have.
pub open spec fn all_arrived(state: AssemblyView, request_id: u16, datagrams: Seq<Seq<u8>>) -> Result<
    AssemblyView,
    IoErrorView,
>
    decreases datagrams.len(),
{
    if datagrams.len() == 0 {
        Ok(state)
    } else {
        match all_arrived(state, request_id, datagrams.drop_last()) {
            Ok(state) => arrived(state, request_id, datagrams.last()),
            Err(e) => Err(e),
        }
    }
}

/// The numbers below `n`.
spec fn places(n: u16) -> Set<u16> {
    Set::new(|i: u16| i < n)
}

proof fn lemma_places(n: u16)
    ensures
        places(n).finite(),
        places(n).len() == n,
    decreases n,
{
    if n == 0 {
        assert(places(0) =~= Set::<u16>::empty());
    } else {
        let before = (n - 1) as u16;
        lemma_places(before);
        assert(places(n) =~= places(before).insert(before));
    }
}

/// Where as many datagrams have arrived as were announced, each of them has.
proof fn lemma_complete_has_all(state: AssemblyView)
    requires
        state.parts.dom().finite(),
        forall|i: u16| #[trigger] state.parts.contains_key(i) ==> i < state.total,
        state.parts.dom().len() == state.total,
    ensures
        forall|i: u16| i < state.total ==> #[trigger] state.parts.contains_key(i),
{
    lemma_places(state.total);
    assert(state.parts.dom().subset_of(places(state.total))) by {
        assert forall|i: u16| state.parts.dom().contains(i) implies places(state.total).contains(i) by {
            assert(state.parts.contains_key(i));
        }
    }
    vstd::set_lib::lemma_subset_equality(state.parts.dom(), places(state.total));
    assert forall|i: u16| i < state.total implies #[trigger] state.parts.contains_key(i) by {
        assert(places(state.total).contains(i));
    }
}

/// As many datagrams as were announced leave no room for more.
proof fn lemma_no_more_than_announced(state: AssemblyView)
    requires
        state.parts.dom().finite(),
        forall|i: u16| #[trigger] state.parts.contains_key(i) ==> i < state.total,
    ensures
        state.parts.dom().len() <= state.total,
{
    lemma_places(state.total);
    assert(state.parts.dom().subset_of(places(state.total))) by {
        assert forall|i: u16| state.parts.dom().contains(i) implies places(state.total).contains(i) by {
            assert(state.parts.contains_key(i));
        }
    }
    vstd::set_lib::lemma_len_subset(state.parts.dom(), places(state.total));
}

/// The pieces of a response in their sequence.
pub open spec fn whole(parts: Seq<Seq<u8>>) -> Seq<u8>
    decreases parts.len(),
{
    if parts.len() == 0 {
        Seq::empty()
    } else {
        whole(parts.drop_last()) + parts.last()
    }
}

/// The datagrams of a response in the order in which they arrive.
pub open spec fn in_order_of_arrival(request_id: u16, parts: Seq<Seq<u8>>, order: Seq<u16>) -> Seq<Seq<u8>> {
    Seq::new(order.len(), |k: int| datagram(request_id, order[k], parts.len() as u16, parts[order[k] as int]))
}

proof fn lemma_arrivals(request_id: u16, parts: Seq<Seq<u8>>, order: Seq<u16>)
    requires
        0 < parts.len() <= u16::MAX,
        forall|k: int| 0 <= k < order.len() ==> #[trigger] order[k] < parts.len(),
        order.no_duplicates(),
    ensures
        all_arrived(AssemblyView::empty(), request_id, in_order_of_arrival(request_id, parts, order)) matches Ok(state)
            && (order.len() > 0 ==> state.total == parts.len()) && (order.len() == 0 ==> state
            == AssemblyView::empty()) && state.parts.dom() == order.to_set() && state.parts.dom().finite()
            && state.parts.dom().len() == order.len() && (forall|i: u16| #[trigger]
            state.parts.contains_key(i) ==> state.parts[i] == parts[i as int]),
    decreases order.len(),
{
    let arrivals = in_order_of_arrival(request_id, parts, order);
    if order.len() == 0 {
        assert(order.to_set() =~= Set::<u16>::empty());
    } else {
        let before = order.drop_last();
        let last = order.last();
        lemma_arrivals(request_id, parts, before);
        assert(arrivals.drop_last() =~= in_order_of_arrival(request_id, parts, before));
        lemma_datagram_roundtrip(request_id, last, parts.len() as u16, parts[last as int]);
        assert(!before.contains(last)) by {
            if before.contains(last) {
                let k = choose|k: int| 0 <= k < before.len() && before[k] == last;
                assert(order[k] == order[order.len() - 1]);
            }
        }
        assert(order.to_set() =~= before.to_set().insert(last)) by {
            assert forall|i: u16| order.to_set().contains(i) <==> before.to_set().insert(last).contains(i) by {
                if order.contains(i) {
                    let k = choose|k: int| 0 <= k < order.len() && order[k] == i;
                    if k < before.len() {
                        assert(before[k] == i);
                    }
                }
                if before.contains(i) {
                    let k = choose|k: int| 0 <= k < before.len() && before[k] == i;
                    assert(order[k] == i);
                }
                assert(order[order.len() - 1] == last);
            }
        }
    }
}

/// A response comes out whole, in whatever order its datagrams arrive: once
/// each has arrived, and not before, it is complete, and what is read is its
/// parts in their sequence.
pub proof fn lemma_order_of_arrival_does_not_matter(request_id: u16, parts: Seq<Seq<u8>>, order: Seq<u16>)
    requires
        0 < parts.len() <= u16::MAX,
        order.len() <= parts.len(),
        forall|k: int| 0 <= k < order.len() ==> #[trigger] order[k] < parts.len(),
        order.no_duplicates(),
    ensures
        all_arrived(AssemblyView::empty(), request_id, in_order_of_arrival(request_id, parts, order)) matches Ok(state)
            && (is_complete(state) <==> order.len() == parts.len()) && (is_complete(state) ==> state.joined(
            state.total as nat,
        ) == whole(parts)),
{
    lemma_arrivals(request_id, parts, order);
    let state = all_arrived(AssemblyView::empty(), request_id, in_order_of_arrival(request_id, parts, order))->Ok_0;
    if order.len() == parts.len() {
        assert forall|i: u16| #[trigger] state.parts.contains_key(i) implies i < state.total by {
            assert(order.to_set().contains(i));
            let k = choose|k: int| 0 <= k < order.len() && order[k] == i;
            assert(order[k] < parts.len());
        }
        lemma_complete_has_all(state);
        lemma_joined(state, parts, parts.len());
        assert(parts.take(parts.len() as int) =~= parts);
    }
}

proof fn lemma_joined(state: AssemblyView, parts: Seq<Seq<u8>>, n: nat)
    requires
        n <= parts.len() == state.total,
        forall|i: u16| i < state.total ==> #[trigger] state.parts.contains_key(i),
        forall|i: u16| #[trigger] state.parts.contains_key(i) ==> state.parts[i] == parts[i as int],
    ensures
        state.joined(n) == whole(parts.take(n as int)),
    decreases n,
{
    if n > 0 {
        lemma_joined(state, parts, (n - 1) as nat);
        assert(parts.take(n as int).drop_last() =~= parts.take(n - 1));
        assert(state.parts.contains_key((n - 1) as u16));
    } else {
        assert(parts.take(0) =~= Seq::<Seq<u8>>::empty());
    }
}

/// The number of the request after `request_id`: from one up to the largest,
/// and round again.
pub open spec fn next_request_id(request_id: u16) -> u16 {
    (request_id % u16::MAX + 1) as u16
}

/// Where a socket is bound: to the address that was asked for, else to the
/// loopback interface where the server is there, else to any.
pub open spec fn bind_text(bind_addr: Option<&str>, is_loopback: bool) -> Seq<char> {
    match bind_addr {
        Some(addr) => addr@ + ":0"@,
        None => if is_loopback {
            "127.0.0.1:0"@
        } else {
            "0.0.0.0:0"@
        },
    }
}

/// The address to bind a socket to; the port is left to the system.
pub fn bind_address(bind_addr: Option<&str>, is_loopback: bool) -> (r: String)
    ensures
        r@ == bind_text(bind_addr, is_loopback),
{
    match bind_addr {
        Some(addr) => text::join(addr, ":0"),
        None => {
            if is_loopback {
                "127.0.0.1:0".to_string()
            } else {
                "0.0.0.0:0".to_string()
            }
        },
    }
}

/// Calls `rand::random` for a `u16`. Nothing is claimed of the number.
#[verifier::external_body]
fn random_id() -> u16 {
    rand::random::<u16>()
}

/// What a stream over datagrams has buffered.
pub struct UdpStream {
    pub read_buf: Vec<u8>,
    pub write_buf: Vec<u8>,
    pub request_id: u16,
    pub assembly: Assembly,
}

impl UdpStream {
    pub open spec fn well_formed(self) -> bool {
        self.assembly@.well_formed()
    }

    /// A stream whose first request has a random number.
    pub fn new() -> (r: UdpStream)
        ensures
            r.well_formed(),
            r.read_buf@ == Seq::<u8>::empty(),
            r.write_buf@ == Seq::<u8>::empty(),
            r.assembly@ == AssemblyView::empty(),
    {
        UdpStream::with_request_id(random_id())
    }

    /// A stream whose first request has the given number.
    pub fn with_request_id(request_id: u16) -> (r: UdpStream)
        ensures
            r.well_formed(),
            r.read_buf@ == Seq::<u8>::empty(),
            r.write_buf@ == Seq::<u8>::empty(),
            r.request_id == request_id,
            r.assembly@ == AssemblyView::empty(),
    {
        let assembly = Assembly { total: 0, parts: HashMap::new() };
        assert(assembly@.parts =~= Map::<u16, Seq<u8>>::empty());
        UdpStream { read_buf: Vec::new(), write_buf: Vec::new(), request_id, assembly }
    }

    /// Take up to `limit` bytes of the response.
    pub fn read(&mut self, limit: usize) -> (r: Vec<u8>)
        ensures
            ({
                let n = if limit < old(self).read_buf@.len() {
                    limit as int
                } else {
                    old(self).read_buf@.len() as int
                };
                r@ == old(self).read_buf@.take(n) && final(self).read_buf@ == old(self).read_buf@.skip(n)
            }),
            final(self).write_buf == old(self).write_buf,
            final(self).request_id == old(self).request_id,
            final(self).assembly == old(self).assembly,
    {
        let n = if limit < self.read_buf.len() {
            limit
        } else {
            self.read_buf.len()
        };
        let taken = bytes::slice(self.read_buf.as_slice(), 0, n);
        let kept = bytes::slice(self.read_buf.as_slice(), n, self.read_buf.len());
        assert(taken@ =~= self.read_buf@.take(n as int));
        assert(kept@ =~= self.read_buf@.skip(n as int));
        self.read_buf = kept;
        taken
    }

    /// Add to the request.
    pub fn write(&mut self, buf: &[u8])
        ensures
            final(self).write_buf@ == old(self).write_buf@ + buf@,
            final(self).read_buf == old(self).read_buf,
            final(self).request_id == old(self).request_id,
            final(self).assembly == old(self).assembly,
    {
        bytes::append(&mut self.write_buf, buf);
    }

    /// The datagram that carries the request. The request is kept, header
    /// included, until it is [`sent`](Self::sent).
    pub fn start_flush(&mut self) -> (r: Vec<u8>)
        ensures
            r@ == datagram(old(self).request_id, 0, 1, old(self).write_buf@),
            final(self).write_buf@ == r@,
            final(self).read_buf == old(self).read_buf,
            final(self).request_id == old(self).request_id,
            final(self).assembly == old(self).assembly,
    {
        let mut wire: Vec<u8> = Vec::new();
        big_endian::write_u16(&mut wire, self.request_id);
        big_endian::write_u16(&mut wire, 0);
        big_endian::write_u16(&mut wire, 1);
        big_endian::write_u16(&mut wire, 0);
        bytes::append(&mut wire, self.write_buf.as_slice());
        assert(wire@ =~= datagram(self.request_id, 0, 1, self.write_buf@));
        self.write_buf = bytes::copy(wire.as_slice());
        wire
    }

    /// Note that the request was sent: the next one starts anew, and what was
    /// left of the response before is dropped.
    pub fn sent(&mut self)
        ensures
            final(self).well_formed(),
            final(self).read_buf@ == Seq::<u8>::empty(),
            final(self).write_buf@ == Seq::<u8>::empty(),
            final(self).request_id == old(self).request_id,
            final(self).assembly@ == AssemblyView::empty(),
    {
        self.read_buf = Vec::new();
        self.write_buf = Vec::new();
        self.assembly = Assembly { total: 0, parts: HashMap::new() };
        assert(self.assembly@.parts =~= Map::<u16, Seq<u8>>::empty());
    }

    /// Take in a datagram that was received. Once the response is complete it
    /// can be read, and the next request has the next number.
    pub fn receive(&mut self, received: &[u8]) -> (r: Result<bool, IoError>)
        requires
            old(self).well_formed(),
        ensures
            final(self).well_formed(),
            final(self).write_buf == old(self).write_buf,
            match r {
                Ok(true) => arrived(old(self).assembly@, old(self).request_id, received@) matches Ok(state)
                    && is_complete(state) && final(self).read_buf@ == state.joined(state.total as nat)
                    && final(self).request_id == next_request_id(old(self).request_id) && final(self).assembly@
                    == AssemblyView::empty(),
                Ok(false) => arrived(old(self).assembly@, old(self).request_id, received@) == Ok::<
                    AssemblyView,
                    IoErrorView,
                >(final(self).assembly@) && !is_complete(final(self).assembly@) && final(self).read_buf == old(
                    self,
                ).read_buf && final(self).request_id == old(self).request_id,
                Err(e) => arrived(old(self).assembly@, old(self).request_id, received@) == Err::<
                    AssemblyView,
                    IoErrorView,
                >(e@) && *final(self) == *old(self),
            },
    {
        if received.len() < HEADER_LENGTH {
            return Err(IoError::new(IoErrorKind::Other, "Invalid UDP header received"));
        }
        let request_id = big_endian::read_u16(received);
        let sequence_no = big_endian::read_u16(vstd::slice::slice_subrange(received, 2, 4));
        let datagrams = big_endian::read_u16(vstd::slice::slice_subrange(received, 4, 6));
        proof {
            assert(received@.subrange(2, 4).take(2) =~= received@.subrange(2, 4));
            assert(received@.subrange(4, 6).take(2) =~= received@.subrange(4, 6));
        }
        if self.request_id != request_id {
            return Ok(false);
        }
        if datagrams == 0 || sequence_no >= datagrams || (self.assembly.total != 0 && datagrams
            != self.assembly.total) {
            return Err(IoError::new(IoErrorKind::InvalidData, "Invalid UDP header received"));
        }
        let payload = bytes::slice(received, HEADER_LENGTH, received.len());
        assert(payload@ =~= received@.skip(HEADER_LENGTH as int));
        let ghost before = self.assembly@;
        let ghost state = arrived(before, self.request_id, received@)->Ok_0;
        self.assembly.total = datagrams;
        let _ = self.assembly.parts.insert(sequence_no, payload);
        proof {
            assert(self.assembly@.parts =~= state.parts);
            assert(self.assembly@ == state);
            assert(self.assembly.parts@.dom() =~= state.parts.dom());
            assert forall|i: u16| #[trigger] state.parts.contains_key(i) implies i < state.total by {
                if i != sequence_no {
                    assert(before.parts.contains_key(i));
                    assert(before.total != 0);
                }
            }
            lemma_no_more_than_announced(state);
        }
        if self.assembly.parts.len() != datagrams as usize {
            return Ok(false);
        }
        proof {
            lemma_complete_has_all(state);
        }
        let mut response: Vec<u8> = Vec::new();
        let mut i: u16 = 0;
        while i < datagrams
            invariant
                i <= datagrams,
                self.assembly@ == state,
                state.total == datagrams,
                forall|i: u16| i < datagrams ==> #[trigger] state.parts.contains_key(i),
                response@ == state.joined(i as nat),
            decreases datagrams - i,
        {
            assert(state.parts.contains_key(i));
            assert(self.assembly.parts@.contains_key(i));
            if let Some(part) = self.assembly.parts.get(&i) {
                assert(part@ == state.parts[i]);
                bytes::append(&mut response, part.as_slice());
            }
            i += 1;
        }
        self.read_buf = response;
        self.request_id = (self.request_id % u16::MAX) + 1;
        self.assembly = Assembly { total: 0, parts: HashMap::new() };
        assert(self.assembly@.parts =~= Map::<u16, Seq<u8>>::empty());
        Ok(true)
    }
}

} // verus!
