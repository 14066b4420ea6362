//! What the requests of both protocols promise: which operation they name and which
//! key, value and number they carry, call by call.

use vstd::prelude::*;
use vstd::string::*;

use super::ascii;
use super::ascii::{Options, StoreCommand};
use super::binary;
use super::binary_packet::{Magic, Opcode};
use super::frames;
use super::{Protocol, StoreVerb};
use crate::big_endian;
use crate::bytes;
use crate::client;
use crate::client::{Client, KeyHash};
use crate::decimal;
use crate::error::{ClientErrorView, MemcacheError, MemcacheErrorView};
use crate::notation;
use crate::value::ToMemcacheValue;

verus! {

/// Every operation and every magic is given its number of the protocol.
pub proof fn lemma_codes(opcode: Opcode, magic: Magic, r: u8)
    ensures
        call_ensures(Opcode::code, (opcode,), r) ==> r == frames::number_of(opcode),
        call_ensures(Magic::code, (magic,), r) ==> r == (match magic {
            Magic::Request => 0x80u8,
            Magic::Response => 0x81u8,
        }),
{
}

/// A key goes to the server that its hash ends on, counted round the servers.
pub proof fn lemma_key_goes_where_its_hash_ends<H: KeyHash>(client: Client<H>, key: &str, server: usize)
    requires
        client.servers@.len() > 0,
        call_ensures(Client::<H>::get_connection, (&client, key), server),
    ensures
        server < client.servers@.len(),
        exists|hash: u64, rounds: int|
            #![trigger call_ensures(H::hash, (&client.hash_function, key), hash), rounds * client.servers@.len()]
            call_ensures(H::hash, (&client.hash_function, key), hash) && (hash as usize) as int == rounds
                * client.servers@.len() + server,
{
    let n = client.servers@.len();
    let hash = choose|hash: u64| #[trigger]
        call_ensures(H::hash, (&client.hash_function, key), hash) && server == client::index_of(hash, n)
            && client::ends_on(hash, n, server as int);
    let rounds = choose|rounds: int| (hash as usize) as int == #[trigger] (rounds * n) + server;
    assert((hash as usize) as int == rounds * client.servers@.len() + server);
}

/// The requests without a key name their operation and nothing else.
pub proof fn lemma_requests_without_a_key(protocol: Protocol, version: Vec<u8>, flush: Vec<u8>, stats: Vec<u8>)
    requires
        call_ensures(Protocol::version_request, (&protocol,), version),
        call_ensures(Protocol::flush_request, (&protocol,), flush),
        call_ensures(Protocol::stats_request, (&protocol,), stats),
    ensures
        match protocol {
            Protocol::Ascii => version@ == bytes::utf8("version\r\n") && flush@ == bytes::utf8("flush_all\r\n") && stats@
                == bytes::utf8("stats\r\n"),
            Protocol::Binary => {
                &&& version@.len() == 24 && version@[0] == 0x80 && version@[1] == 0x0b
                &&& flush@.len() == 24 && flush@[0] == 0x80 && flush@[1] == 0x08
                &&& stats@.len() == 24 && stats@[0] == 0x80 && stats@[1] == 0x10
            },
        },
{
    frames::lemma_short_requests(Opcode::Version, Seq::empty());
    frames::lemma_short_requests(Opcode::Flush, Seq::empty());
    frames::lemma_short_requests(Opcode::Stat, Seq::empty());
    frames::lemma_request_layout(Opcode::Version, Seq::empty(), Seq::empty(), Seq::empty(), 0);
    frames::lemma_request_layout(Opcode::Flush, Seq::empty(), Seq::empty(), Seq::empty(), 0);
    frames::lemma_request_layout(Opcode::Stat, Seq::empty(), Seq::empty(), Seq::empty(), 0);
}

/// A delayed flush carries its delay in seconds.
pub proof fn lemma_delayed_flush(protocol: Protocol, delay: u32, wire: Vec<u8>)
    requires
        call_ensures(Protocol::flush_with_delay_request, (&protocol, delay), wire),
    ensures
        match protocol {
            Protocol::Ascii => wire@ == bytes::utf8("flush_all ") + decimal::decimal(delay as nat) + seq![13u8, 10u8],
            Protocol::Binary => wire@.len() == 28 && wire@[1] == 0x08 && wire@[4] == 4 && wire@.skip(24)
                == big_endian::digits(delay as nat, 4),
        },
{
    notation::lemma_network_bytes(delay as nat);
    let digits = big_endian::digits(delay as nat, 4);
    frames::lemma_request_layout(Opcode::Flush, digits, Seq::empty(), Seq::empty(), 0);
    assert(digits + Seq::<u8>::empty() + Seq::<u8>::empty() =~= digits);
}

/// Whether a key is too long for a request, and the request fails with just that.
pub open spec fn is_refused(key: Seq<u8>, r: Result<Vec<u8>, MemcacheError>) -> bool {
    key.len() > 250 && (r matches Err(e) && e@ == MemcacheErrorView::ClientError(ClientErrorView::KeyTooLong))
}

/// A read or a delete names its operation and its key, and is refused only for a key
/// that is too long.
pub proof fn lemma_requests_with_a_key(
    protocol: Protocol,
    key: &str,
    get: Result<Vec<u8>, MemcacheError>,
    delete: Result<Vec<u8>, MemcacheError>,
)
    requires
        call_ensures(Protocol::get_request, (&protocol, key), get),
        call_ensures(Protocol::delete_request, (&protocol, key), delete),
    ensures
        ({
            let name = vstd::utf8::encode_utf8(key@);
            &&& match get {
                Err(_) => is_refused(name, get),
                Ok(wire) => name.len() <= 250 && (match protocol {
                    Protocol::Ascii => wire@ == bytes::utf8("gets ") + name + seq![13u8, 10u8],
                    Protocol::Binary => wire@.len() == 24 + name.len() && wire@[0] == 0x80 && wire@[1] == 0x00
                        && wire@.skip(24) == name,
                }),
            }
            &&& match delete {
                Err(_) => is_refused(name, delete),
                Ok(wire) => name.len() <= 250 && (match protocol {
                    Protocol::Ascii => wire@ == bytes::utf8("delete ") + name + seq![13u8, 10u8],
                    Protocol::Binary => wire@.len() == 24 + name.len() && wire@[0] == 0x80 && wire@[1] == 0x04
                        && wire@.skip(24) == name,
                }),
            }
        }),
{
    let name = vstd::utf8::encode_utf8(key@);
    frames::lemma_short_requests(Opcode::Get, name);
    frames::lemma_short_requests(Opcode::Delete, name);
    frames::lemma_second_byte_is_the_operation(Opcode::Get, Seq::empty(), name, Seq::empty(), 0);
    frames::lemma_second_byte_is_the_operation(Opcode::Delete, Seq::empty(), name, Seq::empty(), 0);
}

/// A counter request names its direction and its key and carries its amount. It is
/// refused only for a key that is too long.
pub proof fn lemma_counter_requests(
    protocol: Protocol,
    key: &str,
    amount: u64,
    increment: Result<Vec<u8>, MemcacheError>,
    decrement: Result<Vec<u8>, MemcacheError>,
)
    requires
        call_ensures(Protocol::increment_request, (&protocol, key, amount), increment),
        call_ensures(Protocol::decrement_request, (&protocol, key, amount), decrement),
    ensures
        ({
            let name = vstd::utf8::encode_utf8(key@);
            &&& match increment {
                Err(_) => is_refused(name, increment),
                Ok(wire) => name.len() <= 250 && (match protocol {
                    Protocol::Ascii => wire@ == ascii::keyed_wire(bytes::utf8("incr "), name, amount as nat),
                    Protocol::Binary => wire@[1] == 0x05 && wire@ == binary::counter_wire(Opcode::Increment, name, amount),
                }),
            }
            &&& match decrement {
                Err(_) => is_refused(name, decrement),
                Ok(wire) => name.len() <= 250 && (match protocol {
                    Protocol::Ascii => wire@ == ascii::keyed_wire(bytes::utf8("decr "), name, amount as nat),
                    Protocol::Binary => wire@[1] == 0x06 && wire@ == binary::counter_wire(Opcode::Decrement, name, amount),
                }),
            }
        }),
{
    let name = vstd::utf8::encode_utf8(key@);
    if name.len() <= 250 {
        assert(binary::counter_wire(Opcode::Increment, name, amount)[1] == 0x05) by {
            frames::lemma_counter_request(Opcode::Increment, name, amount);
        }
        assert(binary::counter_wire(Opcode::Decrement, name, amount)[1] == 0x06) by {
            frames::lemma_counter_request(Opcode::Decrement, name, amount);
        }
    }
}

/// A touch names its key and carries its expiration. It is refused only for a key that
/// is too long.
pub proof fn lemma_touch_requests(
    protocol: Protocol,
    key: &str,
    expiration: u32,
    touch: Result<Vec<u8>, MemcacheError>,
)
    requires
        call_ensures(Protocol::touch_request, (&protocol, key, expiration), touch),
    ensures
        ({
            let name = vstd::utf8::encode_utf8(key@);
            match touch {
                Err(_) => is_refused(name, touch),
                Ok(wire) => name.len() <= 250 && (match protocol {
                    Protocol::Ascii => wire@ == ascii::keyed_wire(bytes::utf8("touch "), name, expiration as nat),
                    Protocol::Binary => wire@[1] == 0x1c && wire@[4] == 4 && wire@.skip(24) == big_endian::digits(
                        expiration as nat,
                        4,
                    ) + name,
                }),
            }
        }),
{
    let name = vstd::utf8::encode_utf8(key@);
    if name.len() <= 250 {
        let digits = big_endian::digits(expiration as nat, 4);
        let sent = binary::request_wire(Opcode::Touch, digits, name, Seq::empty(), 0);
        assert(sent[1] == 0x1c && sent[4] == 4 && sent.skip(24) == digits + name) by {
            notation::lemma_network_bytes(expiration as nat);
            frames::lemma_request_layout(Opcode::Touch, digits, name, Seq::empty(), 0);
            assert(digits + name + Seq::<u8>::empty() =~= digits + name);
        }
    }
}

/// A number behind a key stands in decimal after a blank, before the line end.
pub proof fn lemma_numbers_behind_keys(command: Seq<u8>, key: Seq<u8>, n: nat)
    ensures
        ascii::keyed_wire(command, key, n) == command + key + seq![32u8] + decimal::decimal(n) + seq![13u8, 10u8],
{
    assert(bytes::utf8(" ") == seq![32u8]) by {
        reveal_strlit(" ");
        bytes::lemma_ascii_literal(" ");
        assert(bytes::utf8(" ") =~= seq![32u8]);
    }
}

/// A store names its kind and its key and carries the value, its flags and its
/// expiration, and no CAS. A compare-and-swap carries its CAS.
pub proof fn lemma_store_requests<V: ToMemcacheValue>(
    protocol: Protocol,
    verb: StoreVerb,
    key: &str,
    value: &V,
    expiration: u32,
    cas: u64,
    stored: Result<Vec<u8>, MemcacheError>,
    swapped: Result<Vec<u8>, MemcacheError>,
)
    requires
        call_ensures(Protocol::store_request::<V>, (&protocol, verb, key, value, expiration), stored),
        call_ensures(Protocol::cas_request::<V>, (&protocol, key, value, expiration, cas), swapped),
    ensures
        ({
            let name = vstd::utf8::encode_utf8(key@);
            let plain = Options { noreply: false, exptime: expiration, flags: 0, cas: None };
            let fenced = Options { noreply: false, exptime: expiration, flags: 0, cas: Some(cas) };
            &&& stored is Ok <==> name.len() <= 250 && value.write_fault() is None
            &&& swapped is Ok <==> name.len() <= 250 && value.write_fault() is None
            &&& stored matches Ok(wire) ==> (match protocol {
                Protocol::Ascii => wire@ == super::store_text(
                    match verb {
                        StoreVerb::Store => StoreCommand::Store,
                        StoreVerb::Add => StoreCommand::Add,
                        StoreVerb::Replace => StoreCommand::Replace,
                    },
                    name,
                    *value,
                    plain,
                ),
                Protocol::Binary => wire@ == binary::store_wire(
                    match verb {
                        StoreVerb::Store => Opcode::Store,
                        StoreVerb::Add => Opcode::Add,
                        StoreVerb::Replace => Opcode::Replace,
                    },
                    name,
                    *value,
                    expiration,
                    None,
                ),
            })
            &&& swapped matches Ok(wire) ==> (match protocol {
                Protocol::Ascii => wire@ == super::store_text(StoreCommand::Cas, name, *value, fenced),
                Protocol::Binary => wire@ == binary::store_wire(Opcode::Store, name, *value, expiration, Some(cas)),
            })
        }),
{
}

/// An append and a prepend name their side and their key and carry the value as it is.
pub proof fn lemma_joining_requests<V: ToMemcacheValue>(
    protocol: Protocol,
    key: &str,
    value: &V,
    append: Result<Vec<u8>, MemcacheError>,
    prepend: Result<Vec<u8>, MemcacheError>,
)
    requires
        call_ensures(Protocol::append_request::<V>, (&protocol, key, value), append),
        call_ensures(Protocol::prepend_request::<V>, (&protocol, key, value), prepend),
        value.bytes_spec().len() <= 0xffff_0000,
    ensures
        ({
            let name = vstd::utf8::encode_utf8(key@);
            let plain = Options { noreply: false, exptime: 0, flags: 0, cas: None };
            &&& append is Ok <==> name.len() <= 250 && value.write_fault() is None
            &&& prepend is Ok <==> name.len() <= 250 && value.write_fault() is None
            &&& append matches Ok(wire) ==> (match protocol {
                Protocol::Ascii => wire@ == super::store_text(StoreCommand::Append, name, *value, plain),
                Protocol::Binary => wire@[1] == 0x0e && wire@[4] == 0 && wire@.skip(24) == name + value.bytes_spec(),
            })
            &&& prepend matches Ok(wire) ==> (match protocol {
                Protocol::Ascii => wire@ == super::store_text(StoreCommand::Prepend, name, *value, plain),
                Protocol::Binary => wire@[1] == 0x0f && wire@[4] == 0 && wire@.skip(24) == name + value.bytes_spec(),
            })
        }),
{
    let name = vstd::utf8::encode_utf8(key@);
    if name.len() <= 250 {
        frames::lemma_request_layout(Opcode::Append, Seq::empty(), name, value.bytes_spec(), 0);
        frames::lemma_request_layout(Opcode::Prepend, Seq::empty(), name, value.bytes_spec(), 0);
        assert(Seq::<u8>::empty() + name + value.bytes_spec() =~= name + value.bytes_spec());
    }
}

/// A read of many names all its keys, in text on one line, in binary as quiet reads
/// that a no-op closes. It is refused where a key is too long.
pub proof fn lemma_requests_for_many(protocol: Protocol, keys: &Vec<String>, r: Result<Vec<u8>, MemcacheError>)
    requires
        call_ensures(Protocol::gets_request, (&protocol, keys), r),
    ensures
        r is Ok <==> forall|i: int|
            0 <= i < keys@.len() ==> vstd::utf8::encode_utf8(#[trigger] keys@[i]@).len() <= 250,
        r matches Ok(wire) ==> (match protocol {
            Protocol::Ascii => wire@ == bytes::utf8("gets ") + ascii::joined(keys@) + seq![13u8, 10u8],
            Protocol::Binary => wire@ == binary::quiet_gets_wire(keys@) + binary::bare_wire(Opcode::Noop),
        }),
{
    client::lemma_keys_fit_together(keys@);
}

/// Credentials go in text as the value of a key named `auth`, name and password with
/// a blank between, and in binary as a plain authentication.
pub proof fn lemma_authentication(protocol: Protocol, username: &str, password: &str, wire: Vec<u8>)
    requires
        call_ensures(Protocol::auth_request, (&protocol, username, password), wire),
    ensures
        ({
            let user = vstd::utf8::encode_utf8(username@);
            let secret = vstd::utf8::encode_utf8(password@);
            let plain = Options { noreply: false, exptime: 0, flags: 0, cas: None };
            match protocol {
                Protocol::Ascii => wire@ == ascii::store_line(
                    StoreCommand::Store,
                    bytes::utf8("auth"),
                    0,
                    (user + seq![32u8] + secret).len(),
                    plain,
                ) + (user + seq![32u8] + secret) + seq![13u8, 10u8],
                Protocol::Binary => wire@ == binary::request_wire(
                    Opcode::StartAuth,
                    Seq::empty(),
                    bytes::utf8("PLAIN"),
                    seq![0u8] + user + seq![0u8] + secret,
                    0,
                ) && wire@[1] == 0x21,
            }
        }),
{
    assert(bytes::utf8(" ") == seq![32u8]) by {
        reveal_strlit(" ");
        bytes::lemma_ascii_literal(" ");
        assert(bytes::utf8(" ") =~= seq![32u8]);
    }
    let user = vstd::utf8::encode_utf8(username@);
    let secret = vstd::utf8::encode_utf8(password@);
    frames::lemma_second_byte_is_the_operation(
        Opcode::StartAuth,
        Seq::empty(),
        bytes::utf8("PLAIN"),
        seq![0u8] + user + seq![0u8] + secret,
        0,
    );
}

} // verus!
