//! The requests of the binary protocol as they go on the wire.

use vstd::prelude::*;
use vstd::string::*;

use crate::big_endian;
use crate::bytes;
use crate::io::IoError;
use crate::value::ToMemcacheValue;

use super::binary_packet::{CounterExtras, Magic, Opcode, PacketHeader, StoreExtras};

verus! {

/// The header of a request. A length that does not fit its field is cut to the
/// field's low bits.
pub open spec fn request_header(opcode: Opcode, extras: nat, key: nat, value: nat, cas: u64) -> PacketHeader {
    PacketHeader {
        magic: Magic::Request.code_spec(),
        opcode: opcode.code_spec(),
        key_length: key as u16,
        extras_length: extras as u8,
        total_body_length: (extras + key + value) as u32,
        cas,
        ..PacketHeader::blank()
    }
}

/// A request: the header, the extras, the key and the value.
pub open spec fn request_wire(
    opcode: Opcode,
    extras: Seq<u8>,
    key: Seq<u8>,
    value: Seq<u8>,
    cas: u64,
) -> Seq<u8> {
    request_header(opcode, extras.len(), key.len(), value.len(), cas).wire_spec() + extras + key + value
}

/// Append a request.
fn write_request(
    wire: &mut Vec<u8>,
    opcode: Opcode,
    extras: &Vec<u8>,
    key: &[u8],
    value: &Vec<u8>,
    cas: u64,
)
    requires
        extras@.len() <= u8::MAX,
    ensures
        final(wire)@ == old(wire)@ + request_wire(opcode, extras@, key@, value@, cas),
{
    let body: u128 = extras.len() as u128 + key.len() as u128 + value.len() as u128;
    let header = PacketHeader {
        magic: Magic::Request.code(),
        opcode: opcode.code(),
        key_length: #[verifier::truncate] (key.len() as u16),
        extras_length: extras.len() as u8,
        total_body_length: #[verifier::truncate] (body as u32),
        cas,
        ..PacketHeader::default()
    };
    header.write(wire);
    bytes::append(wire, extras.as_slice());
    bytes::append(wire, key);
    bytes::append(wire, value.as_slice());
    assert(wire@ =~= old(wire)@ + request_wire(opcode, extras@, key@, value@, cas));
}

fn request(opcode: Opcode, extras: &Vec<u8>, key: &[u8], value: &Vec<u8>, cas: u64) -> (r: Vec<u8>)
    requires
        extras@.len() <= u8::MAX,
    ensures
        r@ == request_wire(opcode, extras@, key@, value@, cas),
{
    let mut wire: Vec<u8> = Vec::new();
    write_request(&mut wire, opcode, extras, key, value, cas);
    assert(wire@ =~= request_wire(opcode, extras@, key@, value@, cas));
    wire
}

/// A request that is a header alone.
pub open spec fn bare_wire(opcode: Opcode) -> Seq<u8> {
    request_wire(opcode, Seq::empty(), Seq::empty(), Seq::empty(), 0)
}

fn bare_request(opcode: Opcode) -> (r: Vec<u8>)
    ensures
        r@ == bare_wire(opcode),
{
    let none: Vec<u8> = Vec::new();
    request(opcode, &none, none.as_slice(), &none, 0)
}

/// A request that holds a key.
pub open spec fn key_wire(opcode: Opcode, key: Seq<u8>) -> Seq<u8> {
    request_wire(opcode, Seq::empty(), key, Seq::empty(), 0)
}

fn key_request(opcode: Opcode, key: &str) -> (r: Vec<u8>)
    ensures
        r@ == key_wire(opcode, bytes::utf8(key)),
{
    let none: Vec<u8> = Vec::new();
    request(opcode, &none, key.as_bytes(), &none, 0)
}

/// The credentials as they are sent: the parts are set off by zero bytes.
pub open spec fn plain_credentials(username: Seq<u8>, password: Seq<u8>) -> Seq<u8> {
    seq![0u8] + username + seq![0u8] + password
}

/// The request that authenticates by name and password.
pub fn auth_request(username: &str, password: &str) -> (r: Vec<u8>)
    ensures
        r@ == request_wire(
            Opcode::StartAuth,
            Seq::empty(),
            bytes::utf8("PLAIN"),
            plain_credentials(bytes::utf8(username), bytes::utf8(password)),
            0,
        ),
{
    let none: Vec<u8> = Vec::new();
    let mut credentials: Vec<u8> = Vec::new();
    credentials.push(0u8);
    bytes::append(&mut credentials, username.as_bytes());
    credentials.push(0u8);
    bytes::append(&mut credentials, password.as_bytes());
    assert(credentials@ =~= plain_credentials(bytes::utf8(username), bytes::utf8(password)));
    request(Opcode::StartAuth, &none, "PLAIN".as_bytes(), &credentials, 0)
}

/// The request for the version.
pub fn version_request() -> (r: Vec<u8>)
    ensures
        r@ == bare_wire(Opcode::Version),
{
    bare_request(Opcode::Version)
}

/// The request that flushes everything now.
pub fn flush_request() -> (r: Vec<u8>)
    ensures
        r@ == bare_wire(Opcode::Flush),
{
    bare_request(Opcode::Flush)
}

fn number_extras(n: u32) -> (r: Vec<u8>)
    ensures
        r@ == big_endian::digits(n as nat, 4),
        r@.len() == 4,
{
    let mut extras: Vec<u8> = Vec::new();
    big_endian::write_u32(&mut extras, n);
    proof {
        big_endian::lemma_spans();
        big_endian::lemma_roundtrip(n as nat, 4);
    }
    assert(extras@ =~= big_endian::digits(n as nat, 4));
    extras
}

/// The request that flushes everything after `delay` seconds.
pub fn flush_with_delay_request(delay: u32) -> (r: Vec<u8>)
    ensures
        r@ == request_wire(
            Opcode::Flush,
            big_endian::digits(delay as nat, 4),
            Seq::empty(),
            Seq::empty(),
            0,
        ),
{
    let none: Vec<u8> = Vec::new();
    let extras = number_extras(delay);
    request(Opcode::Flush, &extras, none.as_slice(), &none, 0)
}

/// The request for the item of one key.
pub fn get_request(key: &str) -> (r: Vec<u8>)
    ensures
        r@ == key_wire(Opcode::Get, bytes::utf8(key)),
{
    key_request(Opcode::Get, key)
}

/// The quiet requests for the items of many keys.
pub open spec fn quiet_gets_wire(keys: Seq<String>) -> Seq<u8>
    decreases keys.len(),
{
    if keys.len() == 0 {
        Seq::empty()
    } else {
        quiet_gets_wire(keys.drop_last()) + key_wire(Opcode::GetKQ, vstd::utf8::encode_utf8(keys.last()@))
    }
}

/// The request for the items of many keys: a quiet one for each key, which a
/// missing item leaves unanswered, and a no-op, whose answer ends the items.
pub fn gets_request(keys: &Vec<String>) -> (r: Vec<u8>)
    ensures
        r@ == quiet_gets_wire(keys@) + bare_wire(Opcode::Noop),
{
    let none: Vec<u8> = Vec::new();
    let mut wire: Vec<u8> = Vec::new();
    let mut i: usize = 0;
    assert(keys@.take(0) =~= Seq::<String>::empty());
    while i < keys.len()
        invariant
            i <= keys@.len(),
            none@ == Seq::<u8>::empty(),
            wire@ == quiet_gets_wire(keys@.take(i as int)),
        decreases keys@.len() - i,
    {
        assert(keys@.take(i + 1).drop_last() =~= keys@.take(i as int));
        write_request(&mut wire, Opcode::GetKQ, &none, keys[i].as_str().as_bytes(), &none, 0);
        i += 1;
    }
    assert(keys@.take(i as int) =~= keys@);
    write_request(&mut wire, Opcode::Noop, &none, none.as_slice(), &none, 0);
    wire
}

/// A store request.
pub open spec fn store_wire<V: ToMemcacheValue>(
    opcode: Opcode,
    key: Seq<u8>,
    value: V,
    expiration: u32,
    cas: Option<u64>,
) -> Seq<u8> {
    request_wire(
        opcode,
        (StoreExtras { flags: value.flags_spec(), expiration }).wire_spec(),
        key,
        value.bytes_spec(),
        match cas {
            Some(cas) => cas,
            None => 0,
        },
    )
}

fn value_bytes<V: ToMemcacheValue>(value: &V) -> (r: Result<Vec<u8>, IoError>)
    ensures
        match r {
            Ok(block) => value.write_fault() is None && block@ == value.bytes_spec(),
            Err(e) => value.write_fault() == Some(e@),
        },
{
    let mut block: Vec<u8> = Vec::new();
    match value.write_to(&mut block) {
        Ok(_) => {
            assert(block@ =~= value.bytes_spec());
            Ok(block)
        },
        Err(e) => Err(e),
    }
}

/// The request that stores a value, for the opcodes that set, add or replace.
pub fn store_request<V: ToMemcacheValue>(
    opcode: Opcode,
    key: &str,
    value: &V,
    expiration: u32,
    cas: Option<u64>,
) -> (r: Result<Vec<u8>, IoError>)
    ensures
        match r {
            Ok(wire) => value.write_fault() is None && wire@ == store_wire(opcode, bytes::utf8(key), *value, expiration, cas),
            Err(e) => value.write_fault() == Some(e@),
        },
{
    let mut extras: Vec<u8> = Vec::new();
    let given = StoreExtras { flags: value.get_flags(), expiration };
    given.write(&mut extras);
    proof {
        assert(extras@ =~= given.wire_spec());
        big_endian::lemma_spans();
        big_endian::lemma_roundtrip(given.flags as nat, 4);
        big_endian::lemma_roundtrip(given.expiration as nat, 4);
    }
    let block = match value_bytes(value) {
        Ok(block) => block,
        Err(e) => {
            return Err(e);
        },
    };
    let cas = match cas {
        Some(cas) => cas,
        None => 0,
    };
    Ok(request(opcode, &extras, key.as_bytes(), &block, cas))
}

/// The request that appends to a value.
pub fn append_request<V: ToMemcacheValue>(key: &str, value: &V) -> (r: Result<Vec<u8>, IoError>)
    ensures
        match r {
            Ok(wire) => value.write_fault() is None && wire@ == request_wire(Opcode::Append, Seq::empty(), bytes::utf8(key), value.bytes_spec(), 0),
            Err(e) => value.write_fault() == Some(e@),
        },
{
    let none: Vec<u8> = Vec::new();
    let block = match value_bytes(value) {
        Ok(block) => block,
        Err(e) => {
            return Err(e);
        },
    };
    Ok(request(Opcode::Append, &none, key.as_bytes(), &block, 0))
}

/// The request that prepends to a value.
pub fn prepend_request<V: ToMemcacheValue>(key: &str, value: &V) -> (r: Result<Vec<u8>, IoError>)
    ensures
        match r {
            Ok(wire) => value.write_fault() is None && wire@ == request_wire(Opcode::Prepend, Seq::empty(), bytes::utf8(key), value.bytes_spec(), 0),
            Err(e) => value.write_fault() == Some(e@),
        },
{
    let none: Vec<u8> = Vec::new();
    let block = match value_bytes(value) {
        Ok(block) => block,
        Err(e) => {
            return Err(e);
        },
    };
    Ok(request(Opcode::Prepend, &none, key.as_bytes(), &block, 0))
}

/// The request that deletes a key.
pub fn delete_request(key: &str) -> (r: Vec<u8>)
    ensures
        r@ == key_wire(Opcode::Delete, bytes::utf8(key)),
{
    key_request(Opcode::Delete, key)
}

/// A counter request. A missing counter starts at zero and does not expire.
pub open spec fn counter_wire(opcode: Opcode, key: Seq<u8>, amount: u64) -> Seq<u8> {
    request_wire(
        opcode,
        (CounterExtras { amount, initial_value: 0, expiration: 0 }).wire_spec(),
        key,
        Seq::empty(),
        0,
    )
}

fn counter_request(opcode: Opcode, key: &str, amount: u64) -> (r: Vec<u8>)
    ensures
        r@ == counter_wire(opcode, bytes::utf8(key), amount),
{
    let none: Vec<u8> = Vec::new();
    let mut extras: Vec<u8> = Vec::new();
    let given = CounterExtras { amount, initial_value: 0, expiration: 0 };
    given.write(&mut extras);
    proof {
        assert(extras@ =~= given.wire_spec());
        big_endian::lemma_spans();
        big_endian::lemma_roundtrip(given.amount as nat, 8);
        big_endian::lemma_roundtrip(given.initial_value as nat, 8);
        big_endian::lemma_roundtrip(given.expiration as nat, 4);
    }
    request(opcode, &extras, key.as_bytes(), &none, 0)
}

/// The request that increments a counter.
pub fn increment_request(key: &str, amount: u64) -> (r: Vec<u8>)
    ensures
        r@ == counter_wire(Opcode::Increment, bytes::utf8(key), amount),
{
    counter_request(Opcode::Increment, key, amount)
}

/// The request that decrements a counter.
pub fn decrement_request(key: &str, amount: u64) -> (r: Vec<u8>)
    ensures
        r@ == counter_wire(Opcode::Decrement, bytes::utf8(key), amount),
{
    counter_request(Opcode::Decrement, key, amount)
}

/// The request that gives a key a new expiration time.
pub fn touch_request(key: &str, expiration: u32) -> (r: Vec<u8>)
    ensures
        r@ == request_wire(
            Opcode::Touch,
            big_endian::digits(expiration as nat, 4),
            bytes::utf8(key),
            Seq::empty(),
            0,
        ),
{
    let none: Vec<u8> = Vec::new();
    let extras = number_extras(expiration);
    request(Opcode::Touch, &extras, key.as_bytes(), &none, 0)
}

/// The request for the statistics.
pub fn stats_request() -> (r: Vec<u8>)
    ensures
        r@ == bare_wire(Opcode::Stat),
{
    bare_request(Opcode::Stat)
}

} // verus!
