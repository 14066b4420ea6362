//! The classic wire protocols.

use vstd::prelude::*;
use vstd::string::*;

use crate::big_endian;
use crate::bytes;
use crate::client;
use crate::client::check_key_len;
use crate::decimal;
use crate::error::{MemcacheError, MemcacheErrorView};
use crate::io::IoError;
use crate::pairs;
use crate::reader::Reader;
use crate::value::{FromMemcacheValueExt, ToMemcacheValue};

pub mod arrival;
pub mod ascii;
pub mod binary;
pub mod binary_packet;
pub mod frames;
pub mod lines;
pub mod promises;
pub mod replies;
pub mod roundtrip;

use self::ascii::{Options, StoreCommand};
use self::binary_packet::{Items, Opcode, ResponseView};

verus! {

/// The protocol that a connection speaks. For each operation it encodes the
/// request and reads the response.
#[derive(Debug, Clone, Copy, PartialEq, Eq, Structural)]
pub enum Protocol {
    Ascii,
    Binary,
}

/// A way to store a value.
#[derive(Debug, Clone, Copy, PartialEq, Eq, Structural)]
pub enum StoreVerb {
    Store,
    Add,
    Replace,
}

impl StoreVerb {
    pub open spec fn command_spec(self) -> StoreCommand {
        match self {
            StoreVerb::Store => StoreCommand::Store,
            StoreVerb::Add => StoreCommand::Add,
            StoreVerb::Replace => StoreCommand::Replace,
        }
    }

    fn command(self) -> (r: StoreCommand)
        ensures
            r == self.command_spec(),
    {
        match self {
            StoreVerb::Store => StoreCommand::Store,
            StoreVerb::Add => StoreCommand::Add,
            StoreVerb::Replace => StoreCommand::Replace,
        }
    }

    pub open spec fn opcode_spec(self) -> Opcode {
        match self {
            StoreVerb::Store => Opcode::Store,
            StoreVerb::Add => Opcode::Add,
            StoreVerb::Replace => Opcode::Replace,
        }
    }

    fn opcode(self) -> (r: Opcode)
        ensures
            r == self.opcode_spec(),
    {
        match self {
            StoreVerb::Store => Opcode::Store,
            StoreVerb::Add => Opcode::Add,
            StoreVerb::Replace => Opcode::Replace,
        }
    }
}

/// The request of one store in the text protocol.
pub open spec fn store_text<V: ToMemcacheValue>(
    command: StoreCommand,
    key: Seq<u8>,
    value: V,
    options: Options,
) -> Seq<u8> {
    ascii::store_line(command, key, value.flags_spec(), value.bytes_spec().len(), options) + value.bytes_spec()
        + bytes::crlf()
}

/// A request, or the failure to write its value.
fn written(request: Result<Vec<u8>, IoError>) -> (r: Result<Vec<u8>, MemcacheError>)
    ensures
        match r {
            Ok(wire) => request matches Ok(given) && wire == given,
            Err(e) => request matches Err(fault) && e@ == MemcacheErrorView::IOError(fault@),
        },
{
    match request {
        Ok(wire) => Ok(wire),
        Err(e) => Err(MemcacheError::IOError(e)),
    }
}

impl Protocol {
    /// The request for the version.
    pub fn version_request(&self) -> (r: Vec<u8>)
        ensures
            r@ == (match *self {
                Protocol::Ascii => bytes::utf8("version\r\n"),
                Protocol::Binary => binary::bare_wire(Opcode::Version),
            }),
    {
        match self {
            Protocol::Ascii => ascii::version_request(),
            Protocol::Binary => binary::version_request(),
        }
    }

    /// The request that flushes everything now.
    pub fn flush_request(&self) -> (r: Vec<u8>)
        ensures
            r@ == (match *self {
                Protocol::Ascii => bytes::utf8("flush_all\r\n"),
                Protocol::Binary => binary::bare_wire(Opcode::Flush),
            }),
    {
        match self {
            Protocol::Ascii => ascii::flush_request(),
            Protocol::Binary => binary::flush_request(),
        }
    }

    /// The request that flushes everything after `delay` seconds.
    pub fn flush_with_delay_request(&self, delay: u32) -> (r: Vec<u8>)
        ensures
            r@ == (match *self {
                Protocol::Ascii => bytes::utf8("flush_all ") + decimal::decimal(delay as nat) + bytes::crlf(),
                Protocol::Binary => binary::request_wire(Opcode::Flush, big_endian::digits(delay as nat, 4), Seq::empty(), Seq::empty(), 0),
            }),
    {
        match self {
            Protocol::Ascii => ascii::flush_with_delay_request(delay),
            Protocol::Binary => binary::flush_with_delay_request(delay),
        }
    }

    /// The request for the statistics.
    pub fn stats_request(&self) -> (r: Vec<u8>)
        ensures
            r@ == (match *self {
                Protocol::Ascii => bytes::utf8("stats\r\n"),
                Protocol::Binary => binary::bare_wire(Opcode::Stat),
            }),
    {
        match self {
            Protocol::Ascii => ascii::stats_request(),
            Protocol::Binary => binary::stats_request(),
        }
    }

    /// The request that authenticates by name and password.
    pub fn auth_request(&self, username: &str, password: &str) -> (r: Vec<u8>)
        ensures
            r@ == (match *self {
                Protocol::Ascii => ascii::store_line(
                        StoreCommand::Store,
                        bytes::utf8("auth"),
                        0,
                        (bytes::utf8(username) + ascii::space() + bytes::utf8(password)).len(),
                        Options::plain(),
                    ) + (bytes::utf8(username) + ascii::space() + bytes::utf8(password)) + bytes::crlf(),
                Protocol::Binary => binary::request_wire(
                    Opcode::StartAuth,
                    Seq::empty(),
                    bytes::utf8("PLAIN"),
                    binary::plain_credentials(bytes::utf8(username), bytes::utf8(password)),
                    0,
                ),
            }),
    {
        match self {
            Protocol::Ascii => ascii::auth_request(username, password),
            Protocol::Binary => binary::auth_request(username, password),
        }
    }

    /// The request for the item of a key.
    pub fn get_request(&self, key: &str) -> (r: Result<Vec<u8>, MemcacheError>)
        ensures
            match r {
                Ok(wire) => client::key_fits(bytes::utf8(key)) && wire@ == (match *self {
                    Protocol::Ascii => bytes::utf8("gets ") + bytes::utf8(key) + bytes::crlf(),
                    Protocol::Binary => binary::key_wire(Opcode::Get, bytes::utf8(key)),
                }),
                Err(e) => !client::key_fits(bytes::utf8(key)) && e@ == client::key_too_long(),
            },
    {
        match check_key_len(key) {
            Ok(_) => {},
            Err(e) => {
                return Err(e);
            },
        }
        match self {
            Protocol::Ascii => Ok(ascii::get_request(key)),
            Protocol::Binary => Ok(binary::get_request(key)),
        }
    }

    /// The request that increments a counter.
    pub fn increment_request(&self, key: &str, amount: u64) -> (r: Result<Vec<u8>, MemcacheError>)
        ensures
            match r {
                Ok(wire) => client::key_fits(bytes::utf8(key)) && wire@ == (match *self {
                    Protocol::Ascii => ascii::keyed_wire(bytes::utf8("incr "), bytes::utf8(key), amount as nat),
                    Protocol::Binary => binary::counter_wire(Opcode::Increment, bytes::utf8(key), amount),
                }),
                Err(e) => !client::key_fits(bytes::utf8(key)) && e@ == client::key_too_long(),
            },
    {
        match check_key_len(key) {
            Ok(_) => {},
            Err(e) => {
                return Err(e);
            },
        }
        match self {
            Protocol::Ascii => ascii::increment_request(key, amount),
            Protocol::Binary => Ok(binary::increment_request(key, amount)),
        }
    }

    /// The request that decrements a counter.
    pub fn decrement_request(&self, key: &str, amount: u64) -> (r: Result<Vec<u8>, MemcacheError>)
        ensures
            match r {
                Ok(wire) => client::key_fits(bytes::utf8(key)) && wire@ == (match *self {
                    Protocol::Ascii => ascii::keyed_wire(bytes::utf8("decr "), bytes::utf8(key), amount as nat),
                    Protocol::Binary => binary::counter_wire(Opcode::Decrement, bytes::utf8(key), amount),
                }),
                Err(e) => !client::key_fits(bytes::utf8(key)) && e@ == client::key_too_long(),
            },
    {
        match check_key_len(key) {
            Ok(_) => {},
            Err(e) => {
                return Err(e);
            },
        }
        match self {
            Protocol::Ascii => ascii::decrement_request(key, amount),
            Protocol::Binary => Ok(binary::decrement_request(key, amount)),
        }
    }

    /// The request that gives a key a new expiration time.
    pub fn touch_request(&self, key: &str, expiration: u32) -> (r: Result<Vec<u8>, MemcacheError>)
        ensures
            match r {
                Ok(wire) => client::key_fits(bytes::utf8(key)) && wire@ == (match *self {
                    Protocol::Ascii => ascii::keyed_wire(bytes::utf8("touch "), bytes::utf8(key), expiration as nat),
                    Protocol::Binary => binary::request_wire(Opcode::Touch, big_endian::digits(expiration as nat, 4), bytes::utf8(key), Seq::empty(), 0),
                }),
                Err(e) => !client::key_fits(bytes::utf8(key)) && e@ == client::key_too_long(),
            },
    {
        match check_key_len(key) {
            Ok(_) => {},
            Err(e) => {
                return Err(e);
            },
        }
        match self {
            Protocol::Ascii => ascii::touch_request(key, expiration),
            Protocol::Binary => Ok(binary::touch_request(key, expiration)),
        }
    }

    /// The request that deletes a key.
    pub fn delete_request(&self, key: &str) -> (r: Result<Vec<u8>, MemcacheError>)
        ensures
            match r {
                Ok(wire) => client::key_fits(bytes::utf8(key)) && wire@ == (match *self {
                    Protocol::Ascii => bytes::utf8("delete ") + bytes::utf8(key) + bytes::crlf(),
                    Protocol::Binary => binary::key_wire(Opcode::Delete, bytes::utf8(key)),
                }),
                Err(e) => !client::key_fits(bytes::utf8(key)) && e@ == client::key_too_long(),
            },
    {
        match check_key_len(key) {
            Ok(_) => {},
            Err(e) => {
                return Err(e);
            },
        }
        match self {
            Protocol::Ascii => ascii::delete_request(key),
            Protocol::Binary => Ok(binary::delete_request(key)),
        }
    }

    /// The request that stores a value.
    pub fn store_request<V: ToMemcacheValue>(&self, verb: StoreVerb, key: &str, value: &V, expiration: u32) -> (r: Result<Vec<u8>, MemcacheError>)
        ensures
            match r {
                Ok(wire) => ascii::store_fault(bytes::utf8(key), *value) is None && wire@ == (match *self {
                    Protocol::Ascii => store_text(
                        verb.command_spec(),
                        bytes::utf8(key),
                        *value,
                        (Options { exptime: expiration, ..Options::plain() }),
                    ),
                    Protocol::Binary => binary::store_wire(verb.opcode_spec(), bytes::utf8(key), *value, expiration, None),
                }),
                Err(e) => ascii::store_fault(bytes::utf8(key), *value) == Some(e@),
            },
    {
        match check_key_len(key) {
            Ok(_) => {},
            Err(e) => {
                return Err(e);
            },
        }
        match self {
            Protocol::Ascii => ascii::store_request(
                verb.command(),
                key,
                value,
                &Options { exptime: expiration, ..Options::default() },
            ),
            Protocol::Binary => written(binary::store_request(verb.opcode(), key, value, expiration, None)),
        }
    }

    /// The request that swaps a value in, if the item still has the CAS token.
    pub fn cas_request<V: ToMemcacheValue>(&self, key: &str, value: &V, expiration: u32, cas_id: u64) -> (r: Result<Vec<u8>, MemcacheError>)
        ensures
            match r {
                Ok(wire) => ascii::store_fault(bytes::utf8(key), *value) is None && wire@ == (match *self {
                    Protocol::Ascii => store_text(
                        StoreCommand::Cas,
                        bytes::utf8(key),
                        *value,
                        (Options { exptime: expiration, cas: Some(cas_id), ..Options::plain() }),
                    ),
                    Protocol::Binary => binary::store_wire(Opcode::Store, bytes::utf8(key), *value, expiration, Some(cas_id)),
                }),
                Err(e) => ascii::store_fault(bytes::utf8(key), *value) == Some(e@),
            },
    {
        match check_key_len(key) {
            Ok(_) => {},
            Err(e) => {
                return Err(e);
            },
        }
        match self {
            Protocol::Ascii => ascii::store_request(
                StoreCommand::Cas,
                key,
                value,
                &Options { exptime: expiration, cas: Some(cas_id), ..Options::default() },
            ),
            Protocol::Binary => written(binary::store_request(Opcode::Store, key, value, expiration, Some(cas_id))),
        }
    }

    /// The request that appends to a value.
    pub fn append_request<V: ToMemcacheValue>(&self, key: &str, value: &V) -> (r: Result<Vec<u8>, MemcacheError>)
        ensures
            match r {
                Ok(wire) => ascii::store_fault(bytes::utf8(key), *value) is None && wire@ == (match *self {
                    Protocol::Ascii => store_text(StoreCommand::Append, bytes::utf8(key), *value, Options::plain()),
                    Protocol::Binary => binary::request_wire(Opcode::Append, Seq::empty(), bytes::utf8(key), value.bytes_spec(), 0),
                }),
                Err(e) => ascii::store_fault(bytes::utf8(key), *value) == Some(e@),
            },
    {
        match check_key_len(key) {
            Ok(_) => {},
            Err(e) => {
                return Err(e);
            },
        }
        match self {
            Protocol::Ascii => ascii::store_request(StoreCommand::Append, key, value, &Options::default()),
            Protocol::Binary => written(binary::append_request(key, value)),
        }
    }

    /// The request that prepends to a value.
    pub fn prepend_request<V: ToMemcacheValue>(&self, key: &str, value: &V) -> (r: Result<Vec<u8>, MemcacheError>)
        ensures
            match r {
                Ok(wire) => ascii::store_fault(bytes::utf8(key), *value) is None && wire@ == (match *self {
                    Protocol::Ascii => store_text(StoreCommand::Prepend, bytes::utf8(key), *value, Options::plain()),
                    Protocol::Binary => binary::request_wire(Opcode::Prepend, Seq::empty(), bytes::utf8(key), value.bytes_spec(), 0),
                }),
                Err(e) => ascii::store_fault(bytes::utf8(key), *value) == Some(e@),
            },
    {
        match check_key_len(key) {
            Ok(_) => {},
            Err(e) => {
                return Err(e);
            },
        }
        match self {
            Protocol::Ascii => ascii::store_request(StoreCommand::Prepend, key, value, &Options::default()),
            Protocol::Binary => written(binary::prepend_request(key, value)),
        }
    }

    /// The request for the items of many keys.
    pub fn gets_request(&self, keys: &Vec<String>) -> (r: Result<Vec<u8>, MemcacheError>)
        ensures
            match r {
                Ok(wire) => client::all_fit(keys@) && wire@ == (match *self {
                    Protocol::Ascii => bytes::utf8("gets ") + ascii::joined(keys@) + bytes::crlf(),
                    Protocol::Binary => binary::quiet_gets_wire(keys@) + binary::bare_wire(Opcode::Noop),
                }),
                Err(e) => !client::all_fit(keys@) && e@ == client::key_too_long(),
            },
    {
        match ascii::gets_request(keys) {
            Err(e) => Err(e),
            Ok(text) => match self {
                Protocol::Ascii => Ok(text),
                Protocol::Binary => Ok(binary::gets_request(keys)),
            },
        }
    }

    /// Read the response to an authentication.
    pub fn parse_auth(&self, reader: &mut Reader) -> (r: Result<(), MemcacheError>)
        requires
            old(reader).well_formed(),
        ensures
            final(reader).well_formed(),
            final(reader)@ == (match *self {
                Protocol::Ascii => ascii::store_read(old(reader)@).1,
                Protocol::Binary => binary_packet::response_read(old(reader)@).1,
            }),
            match *self {
                Protocol::Ascii => match r {
                    Ok(_) => ascii::store_read(old(reader)@).0 is Ok,
                    Err(e) => ascii::store_read(old(reader)@).0 == Err::<bool, MemcacheErrorView>(e@),
                },
                Protocol::Binary => match r {
                    Ok(_) => binary_packet::failure_read(old(reader)@) is None,
                    Err(e) => binary_packet::failure_read(old(reader)@) == Some(e@),
                },
            },
    {
        match self {
            Protocol::Ascii => match ascii::parse_store_response(reader) {
                Ok(_) => Ok(()),
                Err(e) => Err(e),
            },
            Protocol::Binary => match binary_packet::parse_start_auth_response(reader) {
                Ok(_) => Ok(()),
                Err(e) => Err(e),
            },
        }
    }

    /// Read the response to a version request.
    pub fn parse_version(&self, reader: &mut Reader) -> (r: Result<String, MemcacheError>)
        requires
            old(reader).well_formed(),
        ensures
            final(reader).well_formed(),
            final(reader)@ == (match *self {
                Protocol::Ascii => ascii::answer_read(old(reader)@).1,
                Protocol::Binary => binary_packet::response_read(old(reader)@).1,
            }),
            match *self {
                Protocol::Ascii => match r {
                    Ok(given) => ascii::version_read(old(reader)@) == Ok::<Seq<u8>, MemcacheErrorView>(vstd::utf8::encode_utf8(given@)),
                    Err(e) => ascii::version_read(old(reader)@) == Err::<Seq<u8>, MemcacheErrorView>(e@),
                },
                Protocol::Binary => match r {
                    Ok(version) => binary_packet::version_fault(old(reader)@) is None && vstd::utf8::encode_utf8(version@)
                        == binary_packet::success_read(old(reader)@).0->Ok_0.value,
                    Err(e) => binary_packet::version_fault(old(reader)@) == Some(e@),
                },
            },
    {
        match self {
            Protocol::Ascii => ascii::parse_version_response(reader),
            Protocol::Binary => binary_packet::parse_version_response(reader),
        }
    }

    /// Read the response to a flush.
    pub fn parse_flush(&self, reader: &mut Reader) -> (r: Result<(), MemcacheError>)
        requires
            old(reader).well_formed(),
        ensures
            final(reader).well_formed(),
            final(reader)@ == (match *self {
                Protocol::Ascii => ascii::answer_read(old(reader)@).1,
                Protocol::Binary => binary_packet::response_read(old(reader)@).1,
            }),
            match *self {
                Protocol::Ascii => match r {
                    Ok(_) => ascii::ok_fault(old(reader)@) is None,
                    Err(e) => ascii::ok_fault(old(reader)@) == Some(e@),
                },
                Protocol::Binary => match r {
                    Ok(_) => binary_packet::failure_read(old(reader)@) is None,
                    Err(e) => binary_packet::failure_read(old(reader)@) == Some(e@),
                },
            },
    {
        match self {
            Protocol::Ascii => ascii::parse_ok_response(reader),
            Protocol::Binary => binary_packet::parse_status_response(reader),
        }
    }

    /// Read the response to a get of one key: nothing where there is no item.
    pub fn parse_get<V: FromMemcacheValueExt>(&self, reader: &mut Reader, key: &str) -> (r: Result<Option<V>, MemcacheError>)
        requires
            old(reader).well_formed(),
        ensures
            final(reader).well_formed(),
            final(reader)@ == (match *self {
                Protocol::Ascii => ascii::get_read::<V>(old(reader)@, key@).1,
                Protocol::Binary => binary_packet::response_read(old(reader)@).1,
            }),
            match *self {
                Protocol::Ascii => match r {
                    Ok(Some(value)) => ascii::get_read::<V>(old(reader)@, key@).0 matches Ok(Some(item)) && ascii::is_item(
                        item,
                        key@,
                        value,
                    ),
                    Ok(None) => ascii::get_read::<V>(old(reader)@, key@).0 == Ok::<Option<ascii::Item>, MemcacheErrorView>(None),
                    Err(e) => ascii::get_read::<V>(old(reader)@, key@).0 == Err::<Option<ascii::Item>, MemcacheErrorView>(e@),
                },
                Protocol::Binary => match r {
                    Ok(Some(value)) => binary_packet::get_fault::<V>(old(reader)@) is None && binary_packet::success_read(old(reader)@).0 is Ok
                        && binary_packet::is_item(binary_packet::success_read(old(reader)@).0->Ok_0, value),
                    Ok(None) => binary_packet::success_read(old(reader)@).0 == Err::<ResponseView, MemcacheErrorView>(
                        binary_packet::key_not_found(),
                    ),
                    Err(e) => binary_packet::get_fault::<V>(old(reader)@) == Some(e@),
                },
            },
    {
        match self {
            Protocol::Ascii => ascii::parse_get_response(reader, key),
            Protocol::Binary => binary_packet::parse_get_response(reader),
        }
    }

    /// Read the response to a multi-get of `count` keys.
    pub fn parse_gets<V: FromMemcacheValueExt>(&self, reader: &mut Reader, count: usize) -> (r: Result<Vec<(String, V)>, MemcacheError>)
        requires
            old(reader).well_formed(),
        ensures
            final(reader).well_formed(),
            final(reader)@ == (match *self {
                Protocol::Ascii => ascii::gets_read::<V>(old(reader)@, Seq::empty(), count as nat).1,
                Protocol::Binary => binary_packet::gets_read::<V>(old(reader)@, Seq::empty(), count as nat).1,
            }),
            match *self {
                Protocol::Ascii => match r {
                    Ok(list) => ascii::gets_read::<V>(old(reader)@, Seq::empty(), count as nat).0 matches Ok(items) && binary_packet::holds_items(list@, items),
                    Err(e) => ascii::gets_read::<V>(old(reader)@, Seq::empty(), count as nat).0 == Err::<Items, MemcacheErrorView>(e@),
                },
                Protocol::Binary => match r {
                    Ok(list) => binary_packet::gets_read::<V>(old(reader)@, Seq::empty(), count as nat).0 matches Ok(items) && binary_packet::holds_items(list@, items),
                    Err(e) => binary_packet::gets_read::<V>(old(reader)@, Seq::empty(), count as nat).0 == Err::<Items, MemcacheErrorView>(e@),
                },
            },
    {
        match self {
            Protocol::Ascii => ascii::parse_gets_response(reader, count),
            Protocol::Binary => binary_packet::parse_gets_response(reader, count),
        }
    }

    /// Read the response to a store. In the text protocol a value that was not
    /// stored is no error.
    pub fn parse_store(&self, reader: &mut Reader) -> (r: Result<(), MemcacheError>)
        requires
            old(reader).well_formed(),
        ensures
            final(reader).well_formed(),
            final(reader)@ == (match *self {
                Protocol::Ascii => ascii::store_read(old(reader)@).1,
                Protocol::Binary => binary_packet::response_read(old(reader)@).1,
            }),
            match *self {
                Protocol::Ascii => match r {
                    Ok(_) => ascii::store_read(old(reader)@).0 is Ok,
                    Err(e) => ascii::store_read(old(reader)@).0 == Err::<bool, MemcacheErrorView>(e@),
                },
                Protocol::Binary => match r {
                    Ok(_) => binary_packet::failure_read(old(reader)@) is None,
                    Err(e) => binary_packet::failure_read(old(reader)@) == Some(e@),
                },
            },
    {
        match self {
            Protocol::Ascii => match ascii::parse_store_response(reader) {
                Ok(_) => Ok(()),
                Err(e) => Err(e),
            },
            Protocol::Binary => binary_packet::parse_status_response(reader),
        }
    }

    /// Read the response to a prepend. In the binary protocol its status is
    /// passed over.
    pub fn parse_prepend(&self, reader: &mut Reader) -> (r: Result<(), MemcacheError>)
        requires
            old(reader).well_formed(),
        ensures
            final(reader).well_formed(),
            final(reader)@ == (match *self {
                Protocol::Ascii => ascii::store_read(old(reader)@).1,
                Protocol::Binary => binary_packet::response_read(old(reader)@).1,
            }),
            match *self {
                Protocol::Ascii => match r {
                    Ok(_) => ascii::store_read(old(reader)@).0 is Ok,
                    Err(e) => ascii::store_read(old(reader)@).0 == Err::<bool, MemcacheErrorView>(e@),
                },
                Protocol::Binary => match r {
                    Ok(_) => binary_packet::response_read(old(reader)@).0 is Ok,
                    Err(e) => binary_packet::response_read(old(reader)@).0 == Err::<ResponseView, MemcacheErrorView>(e@),
                },
            },
    {
        match self {
            Protocol::Ascii => match ascii::parse_store_response(reader) {
                Ok(_) => Ok(()),
                Err(e) => Err(e),
            },
            Protocol::Binary => match binary_packet::parse_response(reader) {
                Ok(_) => Ok(()),
                Err(e) => Err(e),
            },
        }
    }

    /// Read the response to a compare-and-swap: whether the value was swapped.
    pub fn parse_cas(&self, reader: &mut Reader) -> (r: Result<bool, MemcacheError>)
        requires
            old(reader).well_formed(),
        ensures
            final(reader).well_formed(),
            final(reader)@ == (match *self {
                Protocol::Ascii => ascii::store_read(old(reader)@).1,
                Protocol::Binary => binary_packet::response_read(old(reader)@).1,
            }),
            match *self {
                Protocol::Ascii => match r {
                    Ok(given) => ascii::cas_read(old(reader)@) == Ok::<bool, MemcacheErrorView>(given),
                    Err(e) => ascii::cas_read(old(reader)@) == Err::<bool, MemcacheErrorView>(e@),
                },
                Protocol::Binary => match r {
                    Ok(given) => binary_packet::cas_read(old(reader)@) == Ok::<bool, MemcacheErrorView>(given),
                    Err(e) => binary_packet::cas_read(old(reader)@) == Err::<bool, MemcacheErrorView>(e@),
                },
            },
    {
        match self {
            Protocol::Ascii => ascii::parse_cas_response(reader),
            Protocol::Binary => binary_packet::parse_cas_response(reader),
        }
    }

    /// Read the response to a delete: whether the key was there.
    pub fn parse_delete(&self, reader: &mut Reader) -> (r: Result<bool, MemcacheError>)
        requires
            old(reader).well_formed(),
        ensures
            final(reader).well_formed(),
            final(reader)@ == (match *self {
                Protocol::Ascii => ascii::done_read(old(reader)@, bytes::utf8("DELETED\r\n")).1,
                Protocol::Binary => binary_packet::response_read(old(reader)@).1,
            }),
            match *self {
                Protocol::Ascii => match r {
                    Ok(given) => ascii::done_read(old(reader)@, bytes::utf8("DELETED\r\n")).0 == Ok::<bool, MemcacheErrorView>(given),
                    Err(e) => ascii::done_read(old(reader)@, bytes::utf8("DELETED\r\n")).0 == Err::<bool, MemcacheErrorView>(e@),
                },
                Protocol::Binary => match r {
                    Ok(given) => binary_packet::found_read(old(reader)@) == Ok::<bool, MemcacheErrorView>(given),
                    Err(e) => binary_packet::found_read(old(reader)@) == Err::<bool, MemcacheErrorView>(e@),
                },
            },
    {
        match self {
            Protocol::Ascii => ascii::parse_delete_response(reader),
            Protocol::Binary => binary_packet::parse_delete_response(reader),
        }
    }

    /// Read the response to a touch: whether the key was there.
    pub fn parse_touch(&self, reader: &mut Reader) -> (r: Result<bool, MemcacheError>)
        requires
            old(reader).well_formed(),
        ensures
            final(reader).well_formed(),
            final(reader)@ == (match *self {
                Protocol::Ascii => ascii::done_read(old(reader)@, bytes::utf8("TOUCHED\r\n")).1,
                Protocol::Binary => binary_packet::response_read(old(reader)@).1,
            }),
            match *self {
                Protocol::Ascii => match r {
                    Ok(given) => ascii::done_read(old(reader)@, bytes::utf8("TOUCHED\r\n")).0 == Ok::<bool, MemcacheErrorView>(given),
                    Err(e) => ascii::done_read(old(reader)@, bytes::utf8("TOUCHED\r\n")).0 == Err::<bool, MemcacheErrorView>(e@),
                },
                Protocol::Binary => match r {
                    Ok(given) => binary_packet::found_read(old(reader)@) == Ok::<bool, MemcacheErrorView>(given),
                    Err(e) => binary_packet::found_read(old(reader)@) == Err::<bool, MemcacheErrorView>(e@),
                },
            },
    {
        match self {
            Protocol::Ascii => ascii::parse_touch_response(reader),
            Protocol::Binary => binary_packet::parse_touch_response(reader),
        }
    }

    /// Read the response to a counter operation: the counter's value.
    pub fn parse_counter(&self, reader: &mut Reader) -> (r: Result<u64, MemcacheError>)
        requires
            old(reader).well_formed(),
        ensures
            final(reader).well_formed(),
            final(reader)@ == (match *self {
                Protocol::Ascii => ascii::answer_read(old(reader)@).1,
                Protocol::Binary => binary_packet::response_read(old(reader)@).1,
            }),
            match *self {
                Protocol::Ascii => match r {
                    Ok(given) => ascii::counter_read(old(reader)@) == Ok::<u64, MemcacheErrorView>(given),
                    Err(e) => ascii::counter_read(old(reader)@) == Err::<u64, MemcacheErrorView>(e@),
                },
                Protocol::Binary => match r {
                    Ok(given) => binary_packet::counter_read(old(reader)@) == Ok::<u64, MemcacheErrorView>(given),
                    Err(e) => binary_packet::counter_read(old(reader)@) == Err::<u64, MemcacheErrorView>(e@),
                },
            },
    {
        match self {
            Protocol::Ascii => ascii::parse_u64_response(reader),
            Protocol::Binary => binary_packet::parse_counter_response(reader),
        }
    }

    /// Read the response to a statistics request.
    pub fn parse_stats(&self, reader: &mut Reader) -> (r: Result<Vec<(String, String)>, MemcacheError>)
        requires
            old(reader).well_formed(),
        ensures
            final(reader).well_formed(),
            final(reader)@ == (match *self {
                Protocol::Ascii => ascii::stats_read(old(reader)@, Seq::empty()).1,
                Protocol::Binary => binary_packet::stats_read(old(reader)@, Seq::empty()).1,
            }),
            match *self {
                Protocol::Ascii => match r {
                    Ok(given) => ascii::stats_read(old(reader)@, Seq::empty()).0 == Ok::<Seq<(Seq<char>, Seq<char>)>, MemcacheErrorView>(pairs::text_pairs(given@)),
                    Err(e) => ascii::stats_read(old(reader)@, Seq::empty()).0 == Err::<Seq<(Seq<char>, Seq<char>)>, MemcacheErrorView>(e@),
                },
                Protocol::Binary => match r {
                    Ok(given) => binary_packet::stats_read(old(reader)@, Seq::empty()).0 == Ok::<Seq<(Seq<char>, Seq<char>)>, MemcacheErrorView>(pairs::text_pairs(given@)),
                    Err(e) => binary_packet::stats_read(old(reader)@, Seq::empty()).0 == Err::<Seq<(Seq<char>, Seq<char>)>, MemcacheErrorView>(e@),
                },
            },
    {
        match self {
            Protocol::Ascii => ascii::parse_stats_response(reader),
            Protocol::Binary => binary_packet::parse_stats_response(reader),
        }
    }
}

} // verus!
