//! Plain packets of the binary protocol: a response is its header and one
//! body, and a bad magic is the client's error.

use vstd::prelude::*;
use vstd::string::*;

use crate::big_endian;
use crate::error;
use crate::error::{CommandError, MemcacheError, MemcacheErrorView, ServerError, ServerErrorView};
use crate::protocol::binary_packet;
use crate::protocol::binary_packet::PacketHeader;
use crate::reader;
use crate::reader::Reader;
use crate::value;
use crate::value::{read_text, FromMemcacheValue};

verus! {

/// What a packet asks for.
#[derive(Debug, Clone, Copy, PartialEq, Eq, Structural)]
pub enum Opcode {
    Get,
    Store,
    Add,
    Repalce,
    Delete,
    Flush,
    Version,
}

impl Opcode {
    pub open spec fn code_spec(self) -> u8 {
        match self {
            Opcode::Get => 0x00,
            Opcode::Store => 0x01,
            Opcode::Add => 0x02,
            Opcode::Repalce => 0x03,
            Opcode::Delete => 0x04,
            Opcode::Flush => 0x08,
            Opcode::Version => 0x0b,
        }
    }

    /// The opcode on the wire.
    pub fn code(self) -> (r: u8)
        ensures
            r == self.code_spec(),
    {
        match self {
            Opcode::Get => 0x00,
            Opcode::Store => 0x01,
            Opcode::Add => 0x02,
            Opcode::Repalce => 0x03,
            Opcode::Delete => 0x04,
            Opcode::Flush => 0x08,
            Opcode::Version => 0x0b,
        }
    }
}

/// The statuses of a response.
#[derive(Debug, Clone, Copy, PartialEq, Eq, Structural)]
pub enum ResponseStatus {
    NoError,
    KeyNotFound,
    KeyExits,
    ValueTooLarge,
    InvalidArguments,
}

impl ResponseStatus {
    pub open spec fn code_spec(self) -> u16 {
        match self {
            ResponseStatus::NoError => 0x0000,
            ResponseStatus::KeyNotFound => 0x0001,
            ResponseStatus::KeyExits => 0x0002,
            ResponseStatus::ValueTooLarge => 0x0003,
            ResponseStatus::InvalidArguments => 0x0004,
        }
    }

    /// The status on the wire.
    pub fn code(self) -> (r: u16)
        ensures
            r == self.code_spec(),
    {
        match self {
            ResponseStatus::NoError => 0x0000,
            ResponseStatus::KeyNotFound => 0x0001,
            ResponseStatus::KeyExits => 0x0002,
            ResponseStatus::ValueTooLarge => 0x0003,
            ResponseStatus::InvalidArguments => 0x0004,
        }
    }
}

/// What reading the header of a response gives, and what is left to read.
pub open spec fn header_read(bytes: Seq<u8>) -> (Result<PacketHeader, MemcacheErrorView>, Seq<u8>) {
    match binary_packet::header_read(bytes) {
        (Err(MemcacheErrorView::ServerError(ServerErrorView::BadMagic(_))), rest) => (
            Err(error::client_error("Bad magic number in response header"@)),
            rest,
        ),
        (outcome, rest) => (outcome, rest),
    }
}

/// Read the header of a response.
pub fn read_header(reader: &mut Reader) -> (r: Result<PacketHeader, MemcacheError>)
    requires
        old(reader).well_formed(),
    ensures
        final(reader).well_formed(),
        final(reader)@ == header_read(old(reader)@).1,
        match r {
            Ok(header) => header_read(old(reader)@).0 == Ok::<PacketHeader, MemcacheErrorView>(header),
            Err(e) => header_read(old(reader)@).0 == Err::<PacketHeader, MemcacheErrorView>(e@),
        },
{
    match PacketHeader::read(reader) {
        Err(MemcacheError::ServerError(ServerError::BadMagic(_))) => Err(
            MemcacheError::client("Bad magic number in response header"),
        ),
        Err(e) => Err(e),
        Ok(header) => Ok(header),
    }
}

/// What the header of a response says that must be a success.
pub open spec fn status_read(bytes: Seq<u8>) -> Result<PacketHeader, MemcacheErrorView> {
    match header_read(bytes).0 {
        Err(e) => Err(e),
        Ok(header) => if header.vbucket_id_or_status == ResponseStatus::NoError.code_spec() {
            Ok(header)
        } else {
            Err(binary_packet::status_fault(header.vbucket_id_or_status))
        },
    }
}

fn read_success(reader: &mut Reader) -> (r: Result<PacketHeader, MemcacheError>)
    requires
        old(reader).well_formed(),
    ensures
        final(reader).well_formed(),
        final(reader)@ == header_read(old(reader)@).1,
        match r {
            Ok(header) => status_read(old(reader)@) == Ok::<PacketHeader, MemcacheErrorView>(header),
            Err(e) => status_read(old(reader)@) == Err::<PacketHeader, MemcacheErrorView>(e@),
        },
{
    let header = match read_header(reader) {
        Ok(header) => header,
        Err(e) => {
            return Err(e);
        },
    };
    let status = header.vbucket_id_or_status;
    if status != ResponseStatus::NoError.code() {
        return Err(MemcacheError::CommandError(CommandError::from_status(status)));
    }
    Ok(header)
}

/// Read a response that is a header alone.
pub fn parse_header_only_response(reader: &mut Reader) -> (r: Result<(), MemcacheError>)
    requires
        old(reader).well_formed(),
    ensures
        final(reader).well_formed(),
        final(reader)@ == header_read(old(reader)@).1,
        match r {
            Ok(_) => status_read(old(reader)@) is Ok,
            Err(e) => status_read(old(reader)@) == Err::<PacketHeader, MemcacheErrorView>(e@),
        },
{
    match read_success(reader) {
        Ok(_) => Ok(()),
        Err(e) => Err(e),
    }
}

/// What the response to a version request says: the bytes of the version, and
/// what is left to read.
pub open spec fn version_read(bytes: Seq<u8>) -> (Result<Seq<u8>, MemcacheErrorView>, Seq<u8>) {
    let rest = header_read(bytes).1;
    match status_read(bytes) {
        Err(e) => (Err(e), rest),
        Ok(header) => {
            let length = header.total_body_length as int;
            if rest.len() < length {
                (Err(reader::short_read()), Seq::empty())
            } else {
                match value::text_fault(rest.take(length)) {
                    Some(e) => (Err(e), rest.skip(length)),
                    None => (Ok(rest.take(length)), rest.skip(length)),
                }
            }
        },
    }
}

/// Read the response to a version request.
pub fn parse_version_response(reader: &mut Reader) -> (r: Result<String, MemcacheError>)
    requires
        old(reader).well_formed(),
    ensures
        final(reader).well_formed(),
        final(reader)@ == version_read(old(reader)@).1,
        match r {
            Ok(version) => version_read(old(reader)@).0 == Ok::<Seq<u8>, MemcacheErrorView>(
                vstd::utf8::encode_utf8(version@),
            ),
            Err(e) => version_read(old(reader)@).0 == Err::<Seq<u8>, MemcacheErrorView>(e@),
        },
{
    let header = match read_success(reader) {
        Ok(header) => header,
        Err(e) => {
            return Err(e);
        },
    };
    match reader.read_exact(header.total_body_length as usize) {
        Ok(body) => read_text(body),
        Err(e) => Err(e),
    }
}

/// What the response to a get says: the bytes and the flags of the value, or
/// nothing where the key was not found; and what is left to read.
pub open spec fn get_read(bytes: Seq<u8>) -> (Result<Option<(Seq<u8>, u32)>, MemcacheErrorView>, Seq<u8>) {
    let rest = header_read(bytes).1;
    match status_read(bytes) {
        Err(e) => if e == binary_packet::key_not_found() {
            (Ok(None), rest)
        } else {
            (Err(e), rest)
        },
        Ok(header) => {
            let length = header.total_body_length as int;
            if rest.len() < 4 {
                (Err(reader::short_read()), Seq::empty())
            } else if length < 4 {
                (Err(binary_packet::bad_lengths()), rest.skip(4))
            } else if rest.len() < length {
                (Err(reader::short_read()), Seq::empty())
            } else {
                (
                    Ok(Some((rest.subrange(4, length), big_endian::value(rest.take(4)) as u32))),
                    rest.skip(length),
                )
            }
        },
    }
}

/// Read the response to a get. A body too short for the flags that a value
/// comes with is a bad response.
pub fn parse_get_response<V: FromMemcacheValue>(reader: &mut Reader) -> (r: Result<Option<V>, MemcacheError>)
    requires
        old(reader).well_formed(),
    ensures
        final(reader).well_formed(),
        final(reader)@ == get_read(old(reader)@).1,
        match get_read(old(reader)@).0 {
            Err(expected) => r matches Err(e) && e@ == expected,
            Ok(None) => r matches Ok(None),
            Ok(Some((body, flags))) => match r {
                Ok(None) => false,
                Ok(Some(given)) => V::value_fault(body, flags) is None && V::stands_for(body, flags, given),
                Err(e) => V::value_fault(body, flags) == Some(e@),
            },
        },
{
    let header = match read_success(reader) {
        Ok(header) => header,
        Err(MemcacheError::CommandError(CommandError::KeyNotFound)) => {
            return Ok(None);
        },
        Err(e) => {
            return Err(e);
        },
    };
    let ghost rest = reader@;
    let extras = match reader.read_exact(4) {
        Ok(extras) => extras,
        Err(e) => {
            return Err(e);
        },
    };
    let flags = big_endian::read_u32(extras.as_slice());
    assert(extras@.take(4) =~= rest.take(4));
    if header.total_body_length < 4 {
        return Err(MemcacheError::bad_response("total body length shorter than extras and key"));
    }
    match reader.read_exact((header.total_body_length - 4) as usize) {
        Ok(body) => {
            assert(body@ =~= rest.subrange(4, header.total_body_length as int));
            assert(reader@ =~= rest.skip(header.total_body_length as int));
            match V::from_memcache_value(body, flags) {
                Ok(value) => Ok(Some(value)),
                Err(e) => Err(e),
            }
        },
        Err(e) => Err(e),
    }
}

/// What the response to a delete says: whether the key was there.
pub open spec fn found_read(bytes: Seq<u8>) -> Result<bool, MemcacheErrorView> {
    match status_read(bytes) {
        Ok(_) => Ok(true),
        Err(e) => if e == binary_packet::key_not_found() {
            Ok(false)
        } else {
            Err(e)
        },
    }
}

/// Read the response to a delete.
pub fn parse_delete_response(reader: &mut Reader) -> (r: Result<bool, MemcacheError>)
    requires
        old(reader).well_formed(),
    ensures
        final(reader).well_formed(),
        final(reader)@ == header_read(old(reader)@).1,
        match r {
            Ok(found) => found_read(old(reader)@) == Ok::<bool, MemcacheErrorView>(found),
            Err(e) => found_read(old(reader)@) == Err::<bool, MemcacheErrorView>(e@),
        },
{
    match read_success(reader) {
        Ok(_) => Ok(true),
        Err(MemcacheError::CommandError(CommandError::KeyNotFound)) => Ok(false),
        Err(e) => Err(e),
    }
}

} // verus!
