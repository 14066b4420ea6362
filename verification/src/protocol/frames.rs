//! The binary protocol in numbers: what stands at which place of a request, and
//! what each reply means.

use vstd::prelude::*;

use super::binary;
use super::binary_packet;
use super::binary_packet::{CounterExtras, Magic, Opcode, PacketHeader, Response, ResponseView, StoreExtras};
use super::StoreVerb;
use crate::big_endian;
use crate::error;
use crate::error::{CommandErrorView, MemcacheErrorView, ServerErrorView};
use crate::packet;
use crate::pairs;
use crate::reader;
use crate::value;
use crate::value::{FromMemcacheValueExt, ToMemcacheValue};

verus! {

/// The number by which the protocol knows an operation.
pub open spec fn number_of(opcode: Opcode) -> int {
    match opcode {
        Opcode::Get => 0x00,
        Opcode::Store => 0x01,
        Opcode::Add => 0x02,
        Opcode::Replace => 0x03,
        Opcode::Delete => 0x04,
        Opcode::Increment => 0x05,
        Opcode::Decrement => 0x06,
        Opcode::Flush => 0x08,
        Opcode::Noop => 0x0a,
        Opcode::Version => 0x0b,
        Opcode::GetKQ => 0x0d,
        Opcode::Append => 0x0e,
        Opcode::Prepend => 0x0f,
        Opcode::Stat => 0x10,
        Opcode::Touch => 0x1c,
        Opcode::StartAuth => 0x21,
    }
}

/// Each operation has its number of the protocol, and no two operations share one.
pub proof fn lemma_operation_numbers(a: Opcode, b: Opcode)
    ensures
        Opcode::Get.code_spec() == 0x00,
        Opcode::Store.code_spec() == 0x01,
        Opcode::Add.code_spec() == 0x02,
        Opcode::Replace.code_spec() == 0x03,
        Opcode::Delete.code_spec() == 0x04,
        Opcode::Increment.code_spec() == 0x05,
        Opcode::Decrement.code_spec() == 0x06,
        Opcode::Flush.code_spec() == 0x08,
        Opcode::Noop.code_spec() == 0x0a,
        Opcode::Version.code_spec() == 0x0b,
        Opcode::GetKQ.code_spec() == 0x0d,
        Opcode::Append.code_spec() == 0x0e,
        Opcode::Prepend.code_spec() == 0x0f,
        Opcode::Stat.code_spec() == 0x10,
        Opcode::Touch.code_spec() == 0x1c,
        Opcode::StartAuth.code_spec() == 0x21,
        a.code_spec() == number_of(a),
        a != b ==> a.code_spec() != b.code_spec(),
        Magic::Request.code_spec() == 0x80,
        Magic::Response.code_spec() == 0x81,
{
}

/// Each kind of store goes by its own number.
pub proof fn lemma_store_numbers()
    ensures
        StoreVerb::Store.opcode_spec().code_spec() == 0x01,
        StoreVerb::Add.opcode_spec().code_spec() == 0x02,
        StoreVerb::Replace.opcode_spec().code_spec() == 0x03,
{
}

/// The operations of a single packet go by the same numbers, and so do the
/// statuses that answer them.
pub proof fn lemma_packet_numbers(a: packet::Opcode, b: packet::Opcode)
    ensures
        packet::Opcode::Get.code_spec() == 0x00,
        packet::Opcode::Store.code_spec() == 0x01,
        packet::Opcode::Add.code_spec() == 0x02,
        packet::Opcode::Repalce.code_spec() == 0x03,
        packet::Opcode::Delete.code_spec() == 0x04,
        packet::Opcode::Flush.code_spec() == 0x08,
        packet::Opcode::Version.code_spec() == 0x0b,
        a != b ==> a.code_spec() != b.code_spec(),
        packet::ResponseStatus::NoError.code_spec() == 0,
        packet::ResponseStatus::KeyNotFound.code_spec() == 1,
        packet::ResponseStatus::KeyExits.code_spec() == 2,
        packet::ResponseStatus::ValueTooLarge.code_spec() == 3,
        packet::ResponseStatus::InvalidArguments.code_spec() == 4,
{
}

/// Whether a packet has these fields at their places: magic, operation, the
/// lengths of key, extras and body, status, opaque and CAS, most significant byte
/// first.
pub open spec fn laid_out(packet: Seq<u8>, header: PacketHeader) -> bool {
    &&& packet.len() >= 24
    &&& packet[0] == header.magic
    &&& packet[1] == header.opcode
    &&& 256 * packet[2] + packet[3] == header.key_length
    &&& packet[4] == header.extras_length
    &&& packet[5] == header.data_type
    &&& 256 * packet[6] + packet[7] == header.vbucket_id_or_status
    &&& 0x100_0000 * packet[8] + 0x1_0000 * packet[9] + 0x100 * packet[10] + packet[11] == header.total_body_length
    &&& 0x100_0000 * packet[12] + 0x1_0000 * packet[13] + 0x100 * packet[14] + packet[15] == header.opaque
    &&& 0x1_0000_0000 * (0x100_0000 * packet[16] + 0x1_0000 * packet[17] + 0x100 * packet[18] + packet[19]) + (
    0x100_0000 * packet[20] + 0x1_0000 * packet[21] + 0x100 * packet[22] + packet[23]) == header.cas
}

proof fn lemma_two(n: nat)
    requires
        n < 0x1_0000,
    ensures
        big_endian::digits(n, 2).len() == 2,
        256 * big_endian::digits(n, 2)[0] + big_endian::digits(n, 2)[1] == n,
{
    reveal_with_fuel(big_endian::digits, 3);
}

proof fn lemma_four(n: nat)
    requires
        n < 0x1_0000_0000,
    ensures
        big_endian::digits(n, 4).len() == 4,
        0x100_0000 * big_endian::digits(n, 4)[0] + 0x1_0000 * big_endian::digits(n, 4)[1] + 0x100 * big_endian::digits(
            n,
            4,
        )[2] + big_endian::digits(n, 4)[3] == n,
{
    reveal_with_fuel(big_endian::digits, 5);
}

proof fn lemma_eight(n: nat)
    requires
        n < 0x1_0000_0000_0000_0000,
    ensures
        ({
            let d = big_endian::digits(n, 8);
            &&& d.len() == 8
            &&& 0x1_0000_0000 * (0x100_0000 * d[0] + 0x1_0000 * d[1] + 0x100 * d[2] + d[3]) + (0x100_0000 * d[4]
                + 0x1_0000 * d[5] + 0x100 * d[6] + d[7]) == n
        }),
{
    crate::notation::lemma_network_bytes(n);
    let d = big_endian::digits(n, 8);
    let high = big_endian::digits(n / 0x1_0000_0000, 4);
    let low = big_endian::digits(n, 4);
    lemma_four(n / 0x1_0000_0000);
    lemma_low(n);
    assert(d.take(4)[0] == d[0] && d.take(4)[1] == d[1] && d.take(4)[2] == d[2] && d.take(4)[3] == d[3]);
    assert(d.skip(4)[0] == d[4] && d.skip(4)[1] == d[5] && d.skip(4)[2] == d[6] && d.skip(4)[3] == d[7]);
    assert(low[0] == n / 0x100_0000 % 256 && low[1] == n / 0x1_0000 % 256 && low[2] == n / 0x100 % 256 && low[3] == n
        % 256);
    assert(n == 0x1_0000_0000 * (n / 0x1_0000_0000) + n % 0x1_0000_0000);
}

proof fn lemma_low(n: nat)
    ensures
        0x100_0000 * (n / 0x100_0000 % 256) + 0x1_0000 * (n / 0x1_0000 % 256) + 0x100 * (n / 0x100 % 256) + n % 256 == n
            % 0x1_0000_0000,
{
    let a = n / 0x100;
    let b = a / 0x100;
    let c = b / 0x100;
    let d = c / 0x100;
    assert(n / 0x1_0000 == b);
    assert(n / 0x100_0000 == c);
    assert(n / 0x1_0000_0000 == d);
    assert(n == 0x100 * a + n % 256);
    assert(a == 0x100 * b + a % 256);
    assert(b == 0x100 * c + b % 256);
    assert(c == 0x100 * d + c % 256);
}

/// A header is written with every field at its place.
pub proof fn lemma_header_layout(header: PacketHeader, rest: Seq<u8>)
    ensures
        header.wire_spec().len() == 24,
        laid_out(header.wire_spec() + rest, header),
{
    lemma_two(header.key_length as nat);
    lemma_two(header.vbucket_id_or_status as nat);
    lemma_four(header.total_body_length as nat);
    lemma_four(header.opaque as nat);
    lemma_eight(header.cas as nat);
}

/// A header is read from the same places: what is laid out in bytes is what is
/// read.
pub proof fn lemma_header_is_read_where_it_stands(packet: Seq<u8>)
    requires
        packet.len() >= 24,
    ensures
        laid_out(packet, PacketHeader::parsed(packet)),
{
    lemma_read_two(packet, 2);
    lemma_read_two(packet, 6);
    lemma_read_four(packet, 8);
    lemma_read_four(packet, 12);
    lemma_read_eight(packet, 16);
}

proof fn lemma_read_two(s: Seq<u8>, at: int)
    requires
        0 <= at,
        at + 2 <= s.len(),
    ensures
        big_endian::value(s.subrange(at, at + 2)) == 256 * s[at] + s[at + 1],
{
    let t = s.subrange(at, at + 2);
    reveal_with_fuel(big_endian::value, 3);
    assert(t.drop_last().drop_last() =~= Seq::<u8>::empty());
}

proof fn lemma_read_four(s: Seq<u8>, at: int)
    requires
        0 <= at,
        at + 4 <= s.len(),
    ensures
        big_endian::value(s.subrange(at, at + 4)) == 0x100_0000 * s[at] + 0x1_0000 * s[at + 1] + 0x100 * s[at + 2] + s[at
            + 3],
{
    let t = s.subrange(at, at + 4);
    reveal_with_fuel(big_endian::value, 5);
    assert(t.drop_last().drop_last().drop_last().drop_last() =~= Seq::<u8>::empty());
}

proof fn lemma_read_eight(s: Seq<u8>, at: int)
    requires
        0 <= at,
        at + 8 <= s.len(),
    ensures
        big_endian::value(s.subrange(at, at + 8)) == 0x1_0000_0000 * (0x100_0000 * s[at] + 0x1_0000 * s[at + 1] + 0x100
            * s[at + 2] + s[at + 3]) + (0x100_0000 * s[at + 4] + 0x1_0000 * s[at + 5] + 0x100 * s[at + 6] + s[at + 7]),
{
    let t = s.subrange(at, at + 8);
    reveal_with_fuel(big_endian::value, 9);
    assert(t.drop_last().drop_last().drop_last().drop_last().drop_last().drop_last().drop_last().drop_last()
        =~= Seq::<u8>::empty());
}

/// A request starts with the magic of requests and the number of its operation,
/// says how long its key, its extras and its body are, carries its CAS, and then
/// brings extras, key and value in this order.
pub proof fn lemma_request_layout(opcode: Opcode, extras: Seq<u8>, key: Seq<u8>, value: Seq<u8>, cas: u64)
    requires
        extras.len() <= u8::MAX,
        key.len() <= u16::MAX,
        extras.len() + key.len() + value.len() <= u32::MAX,
    ensures
        ({
            let packet = binary::request_wire(opcode, extras, key, value, cas);
            &&& packet.len() == 24 + extras.len() + key.len() + value.len()
            &&& packet[0] == 0x80
            &&& packet[1] == number_of(opcode)
            &&& 256 * packet[2] + packet[3] == key.len()
            &&& packet[4] == extras.len()
            &&& packet[5] == 0
            &&& packet[6] == 0 && packet[7] == 0
            &&& 0x100_0000 * packet[8] + 0x1_0000 * packet[9] + 0x100 * packet[10] + packet[11] == extras.len()
                + key.len() + value.len()
            &&& packet[12] == 0 && packet[13] == 0 && packet[14] == 0 && packet[15] == 0
            &&& 0x1_0000_0000 * (0x100_0000 * packet[16] + 0x1_0000 * packet[17] + 0x100 * packet[18] + packet[19]) + (
            0x100_0000 * packet[20] + 0x1_0000 * packet[21] + 0x100 * packet[22] + packet[23]) == cas
            &&& packet.skip(24) == extras + key + value
        }),
{
    let header = binary::request_header(opcode, extras.len(), key.len(), value.len(), cas);
    let packet = binary::request_wire(opcode, extras, key, value, cas);
    lemma_header_layout(header, extras + key + value);
    assert(packet =~= header.wire_spec() + (extras + key + value));
    assert(packet.skip(24) =~= extras + key + value);
}

/// The second byte of every request is the number of its operation, whatever its
/// key and value.
pub proof fn lemma_second_byte_is_the_operation(
    opcode: Opcode,
    extras: Seq<u8>,
    key: Seq<u8>,
    value: Seq<u8>,
    cas: u64,
)
    ensures
        binary::request_wire(opcode, extras, key, value, cas).len() >= 24,
        binary::request_wire(opcode, extras, key, value, cas)[0] == 0x80,
        binary::request_wire(opcode, extras, key, value, cas)[1] == number_of(opcode),
        binary::bare_wire(opcode)[1] == number_of(opcode),
        binary::key_wire(opcode, key)[1] == number_of(opcode),
{
    lemma_header_layout(
        binary::request_header(opcode, extras.len(), key.len(), value.len(), cas),
        extras + key + value,
    );
    lemma_header_layout(binary::request_header(opcode, 0, 0, 0, 0), Seq::empty());
    lemma_header_layout(binary::request_header(opcode, 0, key.len(), 0, 0), key);
}

/// A request without key and value is its header alone, one with a key alone is
/// its header and the key.
pub proof fn lemma_short_requests(opcode: Opcode, key: Seq<u8>)
    ensures
        binary::bare_wire(opcode).len() == 24,
        binary::key_wire(opcode, key).len() == 24 + key.len(),
        binary::key_wire(opcode, key).skip(24) == key,
        key.len() <= u16::MAX ==> 256 * binary::key_wire(opcode, key)[2] + binary::key_wire(opcode, key)[3] == key.len(),
        binary::key_wire(opcode, key)[4] == 0,
{
    lemma_header_layout(binary::request_header(opcode, 0, 0, 0, 0), Seq::empty());
    lemma_header_layout(binary::request_header(opcode, 0, key.len(), 0, 0), key);
    assert(binary::key_wire(opcode, key).skip(24) =~= key);
}

/// A store request carries the value's flags and the expiration before the key,
/// the value after it, and the CAS to compare or zero.
pub proof fn lemma_store_request<V: ToMemcacheValue>(
    opcode: Opcode,
    key: Seq<u8>,
    value: V,
    expiration: u32,
    cas: Option<u64>,
)
    requires
        key.len() <= 250,
        value.bytes_spec().len() <= 0xffff_0000,
    ensures
        ({
            let packet = binary::store_wire(opcode, key, value, expiration, cas);
            let expected = match cas {
                Some(cas) => cas,
                None => 0,
            };
            &&& packet.len() == 32 + key.len() + value.bytes_spec().len()
            &&& packet[0] == 0x80
            &&& packet[1] == number_of(opcode)
            &&& packet[4] == 8
            &&& 0x1_0000_0000 * (0x100_0000 * packet[16] + 0x1_0000 * packet[17] + 0x100 * packet[18] + packet[19]) + (
            0x100_0000 * packet[20] + 0x1_0000 * packet[21] + 0x100 * packet[22] + packet[23]) == expected
            &&& 0x100_0000 * packet[24] + 0x1_0000 * packet[25] + 0x100 * packet[26] + packet[27] == value.flags_spec()
            &&& 0x100_0000 * packet[28] + 0x1_0000 * packet[29] + 0x100 * packet[30] + packet[31] == expiration
            &&& packet.subrange(32, (32 + key.len()) as int) == key
            &&& packet.skip((32 + key.len()) as int) == value.bytes_spec()
        }),
{
    let extras = (StoreExtras { flags: value.flags_spec(), expiration }).wire_spec();
    let number = match cas {
        Some(cas) => cas,
        None => 0,
    };
    let packet = binary::store_wire(opcode, key, value, expiration, cas);
    lemma_four(value.flags_spec() as nat);
    lemma_four(expiration as nat);
    assert(extras.len() == 8);
    lemma_request_layout(opcode, extras, key, value.bytes_spec(), number);
    let body = extras + key + value.bytes_spec();
    assert(packet.skip(24) == body);
    assert forall|i: int| 0 <= i < 8 implies #[trigger] packet[24 + i] == extras[i] by {
        assert(packet.skip(24)[i] == body[i]);
    }
    assert(packet[24int + 0] == extras[0] && packet[24int + 1] == extras[1] && packet[24int + 2] == extras[2] && packet[24int + 3]
        == extras[3]);
    assert(packet[24int + 4] == extras[4] && packet[24int + 5] == extras[5] && packet[24int + 6] == extras[6] && packet[24int + 7]
        == extras[7]);
    assert(packet.subrange(32, (32 + key.len()) as int) =~= body.subrange(8, (8 + key.len()) as int));
    assert(body.subrange(8, (8 + key.len()) as int) =~= key);
    assert(packet.skip((32 + key.len()) as int) =~= body.skip((8 + key.len()) as int));
    assert(body.skip((8 + key.len()) as int) =~= value.bytes_spec());
}

/// A counter request carries the amount, then a value to start from of zero and an
/// expiration of zero, before the key.
pub proof fn lemma_counter_request(opcode: Opcode, key: Seq<u8>, amount: u64)
    requires
        key.len() <= 250,
    ensures
        ({
            let packet = binary::counter_wire(opcode, key, amount);
            &&& packet.len() == 44 + key.len()
            &&& packet[1] == number_of(opcode)
            &&& packet[4] == 20
            &&& 0x1_0000_0000 * (0x100_0000 * packet[24] + 0x1_0000 * packet[25] + 0x100 * packet[26] + packet[27]) + (
            0x100_0000 * packet[28] + 0x1_0000 * packet[29] + 0x100 * packet[30] + packet[31]) == amount
            &&& forall|i: int| 32 <= i < 44 ==> #[trigger] packet[i] == 0
            &&& packet.skip(44) == key
        }),
{
    let extras = (CounterExtras { amount, initial_value: 0, expiration: 0 }).wire_spec();
    let packet = binary::counter_wire(opcode, key, amount);
    lemma_eight(amount as nat);
    lemma_eight(0);
    lemma_four(0);
    assert(extras.len() == 20);
    lemma_request_layout(opcode, extras, key, Seq::empty(), 0);
    let body = extras + key + Seq::<u8>::empty();
    assert(packet.skip(24) == body);
    assert forall|i: int| 0 <= i < 20 implies #[trigger] packet[24 + i] == extras[i] by {
        assert(packet.skip(24)[i] == body[i]);
    }
    assert(packet[24int + 0] == extras[0] && packet[24int + 1] == extras[1] && packet[24int + 2] == extras[2] && packet[24int + 3]
        == extras[3]);
    assert(packet[24int + 4] == extras[4] && packet[24int + 5] == extras[5] && packet[24int + 6] == extras[6] && packet[24int + 7]
        == extras[7]);
    assert forall|i: int| 32 <= i < 44 implies #[trigger] packet[i] == 0 by {
        assert(packet[24 + (i - 24)] == extras[i - 24]);
        let zeros = big_endian::digits(0, 8) + big_endian::digits(0, 4);
        assert(extras[i - 24] == zeros[i - 32]);
    }
    assert(packet.skip(44) =~= body.skip(20));
    assert(body.skip(20) =~= key);
}

/// Credentials are sent as name and password, each after a zero byte.
pub proof fn lemma_credentials(username: Seq<u8>, password: Seq<u8>)
    ensures
        ({
            let sent = binary::plain_credentials(username, password);
            &&& sent.len() == username.len() + password.len() + 2
            &&& sent[0] == 0
            &&& sent.subrange(1, (1 + username.len()) as int) == username
            &&& sent[(1 + username.len()) as int] == 0
            &&& sent.skip((2 + username.len()) as int) == password
        }),
{
    let sent = binary::plain_credentials(username, password);
    assert(sent.subrange(1, (1 + username.len()) as int) =~= username);
    assert(sent.skip((2 + username.len()) as int) =~= password);
}

/// A read of many sends one quiet read for each key, in order.
pub proof fn lemma_quiet_reads(keys: Seq<String>, key: String)
    ensures
        binary::quiet_gets_wire(Seq::empty()).len() == 0,
        binary::quiet_gets_wire(keys.push(key)) == binary::quiet_gets_wire(keys) + binary::key_wire(
            Opcode::GetKQ,
            vstd::utf8::encode_utf8(key@),
        ),
{
    assert(keys.push(key).drop_last() =~= keys);
}

/// A reply is a header with the magic of replies. Anything else is told by its
/// first byte, and a header that is cut off ends the input.
pub proof fn lemma_reply_header(received: Seq<u8>)
    ensures
        match binary_packet::header_read(received).0 {
            Ok(header) => received.len() >= 24 && received[0] == 0x81 && laid_out(received, header)
                && binary_packet::header_read(received).1 == received.skip(24),
            Err(e) => if received.len() > 0 && received[0] != 0x81 {
                e == MemcacheErrorView::ServerError(ServerErrorView::BadMagic(received[0]))
            } else {
                e is IOError && received.len() < 24
            },
        },
{
    if received.len() >= 24 {
        lemma_header_is_read_where_it_stands(received.take(24));
    }
}

/// The body of a reply is cut by the lengths of its header, extras first, then the
/// key, then the value, and what follows is left.
pub proof fn lemma_reply_body(header: PacketHeader, extras: Seq<u8>, key: Seq<u8>, value: Seq<u8>, rest: Seq<u8>)
    requires
        header.extras_length == extras.len(),
        header.key_length == key.len(),
        header.total_body_length == extras.len() + key.len() + value.len(),
    ensures
        binary_packet::body_read(header, extras + key + value + rest).1 == rest,
        match binary_packet::body_read(header, extras + key + value + rest).0 {
            Ok(response) => response.header == header && response.extras == extras && response.key == key
                && response.value == value,
            Err(_) => false,
        },
{
    let all = extras + key + value + rest;
    assert(all.take(extras.len() as int) =~= extras);
    assert(all.subrange(extras.len() as int, (extras.len() + key.len()) as int) =~= key);
    assert(all.subrange(
        (extras.len() + key.len()) as int,
        (extras.len() + key.len() + value.len()) as int,
    ) =~= value);
    assert(all.skip((extras.len() + key.len() + value.len()) as int) =~= rest);
}

/// A reply whose body is cut off ends the input, and one whose lengths contradict
/// each other is a bad response.
pub proof fn lemma_broken_reply_body(header: PacketHeader, received: Seq<u8>)
    ensures
        match binary_packet::body_read(header, received).0 {
            Ok(_) => header.total_body_length >= header.extras_length + header.key_length && received.len()
                >= header.total_body_length,
            Err(e) => if header.total_body_length < header.extras_length + header.key_length && received.len()
                >= header.extras_length + header.key_length {
                e matches MemcacheErrorView::ServerError(fault) && fault is BadResponse
            } else {
                e is IOError && (received.len() < header.total_body_length || received.len() < header.extras_length
                    + header.key_length)
            },
        },
{
}

/// What a status other than success says.
pub proof fn lemma_statuses(status: u16)
    ensures
        error::status_error(0x01) == CommandErrorView::KeyNotFound,
        error::status_error(0x02) == CommandErrorView::KeyExists,
        error::status_error(0x03) == CommandErrorView::ValueTooLarge,
        error::status_error(0x04) == CommandErrorView::InvalidArguments,
        error::status_error(0x20) == CommandErrorView::AuthenticationRequired,
        status != 0x01 && status != 0x02 && status != 0x03 && status != 0x04 && status != 0x20 ==> error::status_error(
            status,
        ) == CommandErrorView::Unknown(status),
        binary_packet::status_fault(status) == MemcacheErrorView::CommandError(error::status_error(status)),
        binary_packet::key_not_found() == MemcacheErrorView::CommandError(CommandErrorView::KeyNotFound),
        binary_packet::key_exists() == MemcacheErrorView::CommandError(CommandErrorView::KeyExists),
{
}

/// A reply is a success exactly where its status is zero. Otherwise the status
/// decides: a missing key is no failure to a delete, a read or a touch, and a
/// missing or changed key is none to a compare-and-swap.
pub proof fn lemma_status_decides(received: Seq<u8>)
    ensures
        match binary_packet::response_read(received).0 {
            Err(e) => {
                &&& binary_packet::success_read(received).0 == Err::<ResponseView, MemcacheErrorView>(e)
                &&& binary_packet::failure_read(received) == Some(e)
                &&& binary_packet::cas_read(received) == Err::<bool, MemcacheErrorView>(e)
                &&& binary_packet::found_read(received) == Err::<bool, MemcacheErrorView>(e)
                &&& binary_packet::counter_read(received) == Err::<u64, MemcacheErrorView>(e)
                &&& binary_packet::version_fault(received) == Some(e)
            },
            Ok(response) => {
                let status = response.header.vbucket_id_or_status;
                &&& status == 0 ==> {
                    &&& binary_packet::success_read(received).0 == Ok::<ResponseView, MemcacheErrorView>(response)
                    &&& binary_packet::failure_read(received) is None
                    &&& binary_packet::cas_read(received) == Ok::<bool, MemcacheErrorView>(true)
                    &&& binary_packet::found_read(received) == Ok::<bool, MemcacheErrorView>(true)
                    &&& binary_packet::version_fault(received) == value::text_fault(response.value)
                    &&& match binary_packet::counter_read(received) {
                        Ok(n) => response.value.len() >= 8 && n == big_endian::value(response.value.take(8)),
                        Err(e) => response.value.len() < 8 && e is IOError,
                    }
                }
                &&& status == 1 ==> binary_packet::found_read(received) == Ok::<bool, MemcacheErrorView>(false)
                &&& status == 1 || status == 2 ==> binary_packet::cas_read(received) == Ok::<bool, MemcacheErrorView>(
                    false,
                )
                &&& status != 0 ==> {
                    let fault = MemcacheErrorView::CommandError(error::status_error(status));
                    &&& binary_packet::success_read(received).0 == Err::<ResponseView, MemcacheErrorView>(fault)
                    &&& binary_packet::failure_read(received) == Some(fault)
                    &&& binary_packet::counter_read(received) == Err::<u64, MemcacheErrorView>(fault)
                    &&& binary_packet::version_fault(received) == Some(fault)
                    &&& status != 1 ==> binary_packet::found_read(received) == Err::<bool, MemcacheErrorView>(fault)
                    &&& status != 1 && status != 2 ==> binary_packet::cas_read(received) == Err::<
                        bool,
                        MemcacheErrorView,
                    >(fault)
                }
            },
        },
        binary_packet::success_read(received).1 == binary_packet::response_read(received).1,
{
    if let Ok(response) = binary_packet::response_read(received).0 {
        if response.value.len() >= 8 {
            lemma_read_eight(response.value, 0);
            assert(response.value.subrange(0, 8) =~= response.value.take(8));
        }
    }
}

/// A reply is read as its header says, then as its body: what stands after it is
/// left for the next one.
pub proof fn lemma_reply_is_header_and_body(received: Seq<u8>)
    ensures
        match binary_packet::header_read(received) {
            (Ok(header), rest) => binary_packet::response_read(received) == binary_packet::body_read(header, rest),
            (Err(e), rest) => binary_packet::response_read(received) == (
                Err::<ResponseView, MemcacheErrorView>(e),
                rest,
            ),
        },
{
}

/// The item of a reply is its value, with the flags in its first four extras and
/// the CAS of its header.
pub proof fn lemma_item_of_a_reply(response: ResponseView)
    ensures
        match binary_packet::item_read(response) {
            Ok((bytes, flags, cas)) => response.extras.len() >= 4 && bytes == response.value && 0x100_0000
                * response.extras[0] + 0x1_0000 * response.extras[1] + 0x100 * response.extras[2] + response.extras[3]
                == flags && cas == response.header.cas,
            Err(e) => response.extras.len() < 4 && e is IOError,
        },
{
    if response.extras.len() >= 4 {
        lemma_read_four(response.extras, 0);
        assert(response.extras.subrange(0, 4) =~= response.extras.take(4));
    }
}

/// A read finds the item of a successful reply, nothing where the key is missing,
/// and fails with any other status.
pub proof fn lemma_get_reads_the_item<V: FromMemcacheValueExt>(received: Seq<u8>)
    ensures
        match binary_packet::response_read(received).0 {
            Err(e) => binary_packet::get_fault::<V>(received) == Some(e),
            Ok(response) => {
                let status = response.header.vbucket_id_or_status;
                &&& status == 0 ==> (match binary_packet::item_read(response) {
                    Ok((bytes, flags, cas)) => binary_packet::get_fault::<V>(received) == V::value_fault_ext(
                        bytes,
                        flags,
                        Some(cas),
                    ),
                    Err(e) => binary_packet::get_fault::<V>(received) == Some(e),
                })
                &&& status == 1 ==> binary_packet::get_fault::<V>(received) is None
                &&& status != 0 && status != 1 ==> binary_packet::get_fault::<V>(received) == Some(
                    MemcacheErrorView::CommandError(error::status_error(status)),
                )
            },
        },
        forall|response: ResponseView, value: V| #[trigger]
            binary_packet::is_item(response, value) <==> (binary_packet::item_read(response) is Ok && V::stands_for_ext(
                response.value,
                binary_packet::item_read(response)->Ok_0.1,
                Some(response.header.cas),
                value,
            )),
{
}

/// A read of many goes on until the reply to the closing no-op, and keeps each
/// item under the key that came with it.
pub proof fn lemma_gets_read_until_the_noop<V: FromMemcacheValueExt>(
    received: Seq<u8>,
    so_far: binary_packet::Items,
    left: nat,
)
    requires
        binary_packet::success_read(received).0 is Ok,
    ensures
        ({
            let (read, rest) = binary_packet::success_read(received);
            let response = read->Ok_0;
            &&& response.header.opcode == 0x0a ==> binary_packet::gets_read::<V>(received, so_far, left) == (
                Ok::<binary_packet::Items, MemcacheErrorView>(so_far),
                rest,
            )
            &&& response.header.opcode != 0x0a && left > 0 && binary_packet::item_read(response) is Ok
                && value::text_fault(response.key) is None && V::value_fault_ext(
                response.value,
                binary_packet::item_read(response)->Ok_0.1,
                Some(response.header.cas),
            ) is None ==> binary_packet::gets_read::<V>(received, so_far, left) == binary_packet::gets_read::<V>(
                rest,
                pairs::put(
                    so_far,
                    vstd::utf8::decode_utf8(response.key),
                    (response.value, binary_packet::item_read(response)->Ok_0.1, response.header.cas),
                ),
                (left - 1) as nat,
            )
        }),
{
}

/// The view of a response shows its fields as they are.
pub proof fn lemma_responses_are_seen_as_they_are(response: Response)
    ensures
        response@.header == response.header,
        response@.key == response.key@,
        response@.extras == response.extras@,
        response@.value == response.value@,
        reader::short_read() is IOError,
{
}

/// The reply to a single packet is a header as above, except that another magic is
/// told as a fault of the client. It is a success where its status is zero.
pub proof fn lemma_packet_reply_header(received: Seq<u8>)
    ensures
        match binary_packet::header_read(received).0 {
            Ok(header) => {
                &&& packet::header_read(received) == (Ok::<PacketHeader, MemcacheErrorView>(header), received.skip(24))
                &&& header.vbucket_id_or_status == 0 ==> packet::status_read(received) == Ok::<
                    PacketHeader,
                    MemcacheErrorView,
                >(header)
                &&& header.vbucket_id_or_status != 0 ==> packet::status_read(received) == Err::<
                    PacketHeader,
                    MemcacheErrorView,
                >(MemcacheErrorView::CommandError(error::status_error(header.vbucket_id_or_status)))
            },
            Err(e) => {
                &&& packet::header_read(received).0 is Err
                &&& packet::status_read(received) == packet::header_read(received).0
                &&& received.len() > 0 && received[0] != 0x81 ==> packet::header_read(received).0 == Err::<
                    PacketHeader,
                    MemcacheErrorView,
                >(error::client_error("Bad magic number in response header"@))
                &&& received.len() == 0 || received[0] == 0x81 ==> packet::header_read(received).0 == Err::<
                    PacketHeader,
                    MemcacheErrorView,
                >(e)
            },
        },
{
    lemma_reply_header(received);
}

/// The reply to a version packet is the text of its body, and that to a delete tells
/// whether the key was there.
pub proof fn lemma_packet_replies(received: Seq<u8>)
    requires
        binary_packet::header_read(received).0 is Ok,
    ensures
        ({
            let header = binary_packet::header_read(received).0->Ok_0;
            let body = received.skip(24);
            let length = header.total_body_length as int;
            let status = header.vbucket_id_or_status;
            let fault = MemcacheErrorView::CommandError(error::status_error(status));
            &&& status == 0 ==> packet::found_read(received) == Ok::<bool, MemcacheErrorView>(true)
            &&& status == 1 ==> packet::found_read(received) == Ok::<bool, MemcacheErrorView>(false)
            &&& status != 0 && status != 1 ==> packet::found_read(received) == Err::<bool, MemcacheErrorView>(fault)
            &&& status != 0 ==> packet::version_read(received).0 == Err::<Seq<u8>, MemcacheErrorView>(fault)
            &&& status == 0 && body.len() >= length && vstd::utf8::valid_utf8(body.take(length))
                ==> packet::version_read(received) == (
                Ok::<Seq<u8>, MemcacheErrorView>(body.take(length)),
                body.skip(length),
            )
            &&& status == 0 && body.len() < length ==> (packet::version_read(received).0 matches Err(e) && e is IOError)
            &&& status == 1 ==> packet::get_read(received) == (
                Ok::<Option<(Seq<u8>, u32)>, MemcacheErrorView>(None),
                body,
            )
            &&& status != 0 && status != 1 ==> packet::get_read(received).0 == Err::<
                Option<(Seq<u8>, u32)>,
                MemcacheErrorView,
            >(fault)
            &&& status == 0 && length >= 4 && body.len() >= length ==> (packet::get_read(received) matches (
                Ok(Some((found, flags))),
                rest,
            ) && found == body.subrange(4, length) && rest == body.skip(length) && 0x100_0000 * body[0] + 0x1_0000
                * body[1] + 0x100 * body[2] + body[3] == flags)
            &&& status == 0 && (length < 4 || body.len() < length) ==> packet::get_read(received).0 is Err
        }),
{
    lemma_packet_reply_header(received);
    let body = received.skip(24);
    if body.len() >= 4 {
        lemma_read_four(body, 0);
        assert(body.subrange(0, 4) =~= body.take(4));
    }
}

/// A read of many fails with the first reply that fails, that holds no item, whose
/// key is no text, whose value cannot be read, or that is one too many.
pub proof fn lemma_gets_fail_with_the_first_failure<V: FromMemcacheValueExt>(
    received: Seq<u8>,
    so_far: binary_packet::Items,
    left: nat,
)
    ensures
        match binary_packet::success_read(received) {
            (Err(e), rest) => binary_packet::gets_read::<V>(received, so_far, left) == (
                Err::<binary_packet::Items, MemcacheErrorView>(e),
                rest,
            ),
            (Ok(response), rest) => response.header.opcode != 0x0a ==> (match binary_packet::item_read(response) {
                Err(e) => binary_packet::gets_read::<V>(received, so_far, left) == (
                    Err::<binary_packet::Items, MemcacheErrorView>(e),
                    rest,
                ),
                Ok((bytes, flags, cas)) => match value::text_fault(response.key) {
                    Some(e) => binary_packet::gets_read::<V>(received, so_far, left) == (
                        Err::<binary_packet::Items, MemcacheErrorView>(e),
                        rest,
                    ),
                    None => match V::value_fault_ext(bytes, flags, Some(cas)) {
                        Some(e) => binary_packet::gets_read::<V>(received, so_far, left) == (
                            Err::<binary_packet::Items, MemcacheErrorView>(e),
                            rest,
                        ),
                        None => binary_packet::gets_read::<V>(received, so_far, 0).0 is Err,
                    },
                },
            }),
        },
{
}

/// Items are handed out under their keys, in order, as values that stand for their
/// bytes, flags and CAS.
pub proof fn lemma_items_are_handed_out<V: FromMemcacheValueExt>(
    list: Seq<(String, V)>,
    items: binary_packet::Items,
    i: int,
)
    requires
        binary_packet::holds_items(list, items),
        0 <= i < list.len(),
    ensures
        list.len() == items.len(),
        list[i].0@ == items[i].0,
        V::stands_for_ext(items[i].1.0, items[i].1.1, Some(items[i].1.2), list[i].1),
{
}

/// Statistics come one to a reply, the key with its value, up to a reply that has
/// neither.
pub proof fn lemma_statistics_up_to_an_empty_reply(received: Seq<u8>, so_far: Seq<(Seq<char>, Seq<char>)>)
    ensures
        match binary_packet::success_read(received) {
            (Err(e), rest) => binary_packet::stats_read(received, so_far) == (
                Err::<Seq<(Seq<char>, Seq<char>)>, MemcacheErrorView>(e),
                rest,
            ),
            (Ok(response), rest) => if value::text_fault(response.key) is Some || value::text_fault(response.value) is Some {
                binary_packet::stats_read(received, so_far).0 is Err
            } else if response.key.len() == 0 && response.value.len() == 0 {
                binary_packet::stats_read(received, so_far) == (
                    Ok::<Seq<(Seq<char>, Seq<char>)>, MemcacheErrorView>(so_far),
                    rest,
                )
            } else {
                rest.len() < received.len() ==> binary_packet::stats_read(received, so_far)
                    == binary_packet::stats_read(
                    rest,
                    pairs::put(
                        so_far,
                        vstd::utf8::decode_utf8(response.key),
                        vstd::utf8::decode_utf8(response.value),
                    ),
                )
            },
        },
{
}

} // verus!
