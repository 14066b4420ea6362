//! Packets of the binary protocol.

use vstd::prelude::*;
use vstd::string::*;

use crate::big_endian;
use crate::bytes;
use crate::error;
use crate::error::{CommandError, CommandErrorView, MemcacheError, MemcacheErrorView, ServerError, ServerErrorView};
use crate::pairs;
use crate::reader;
use crate::reader::Reader;
use crate::value;
use crate::value::{read_text, FromMemcacheValueExt};

verus! {

const OK_STATUS: u16 = 0;

/// What a packet asks for.
#[derive(Debug, Clone, Copy, PartialEq, Eq, Structural)]
pub enum Opcode {
    Get,
    Store,
    Add,
    Replace,
    Delete,
    Increment,
    Decrement,
    Flush,
    Stat,
    Noop,
    Version,
    GetKQ,
    Append,
    Prepend,
    Touch,
    StartAuth,
}

impl Opcode {
    pub open spec fn code_spec(self) -> u8 {
        match self {
            Opcode::Get => 0x00,
            Opcode::Store => 0x01,
            Opcode::Add => 0x02,
            Opcode::Replace => 0x03,
            Opcode::Delete => 0x04,
            Opcode::Increment => 0x05,
            Opcode::Decrement => 0x06,
            Opcode::Flush => 0x08,
            Opcode::Stat => 0x10,
            Opcode::Noop => 0x0a,
            Opcode::Version => 0x0b,
            Opcode::GetKQ => 0x0d,
            Opcode::Append => 0x0e,
            Opcode::Prepend => 0x0f,
            Opcode::Touch => 0x1c,
            Opcode::StartAuth => 0x21,
        }
    }

    /// The opcode on the wire.
    pub fn code(self) -> (r: u8)
        ensures
            r == self.code_spec(),
    {
        match self {
            Opcode::Get => 0x00,
            Opcode::Store => 0x01,
            Opcode::Add => 0x02,
            Opcode::Replace => 0x03,
            Opcode::Delete => 0x04,
            Opcode::Increment => 0x05,
            Opcode::Decrement => 0x06,
            Opcode::Flush => 0x08,
            Opcode::Stat => 0x10,
            Opcode::Noop => 0x0a,
            Opcode::Version => 0x0b,
            Opcode::GetKQ => 0x0d,
            Opcode::Append => 0x0e,
            Opcode::Prepend => 0x0f,
            Opcode::Touch => 0x1c,
            Opcode::StartAuth => 0x21,
        }
    }
}

/// The first byte of a packet.
#[derive(Debug, Clone, Copy, PartialEq, Eq, Structural)]
pub enum Magic {
    Request,
    Response,
}

impl Magic {
    pub open spec fn code_spec(self) -> u8 {
        match self {
            Magic::Request => 0x80,
            Magic::Response => 0x81,
        }
    }

    /// The magic on the wire.
    pub fn code(self) -> (r: u8)
        ensures
            r == self.code_spec(),
    {
        match self {
            Magic::Request => 0x80,
            Magic::Response => 0x81,
        }
    }
}

/// The header of a packet.
#[derive(Debug, Clone, Copy, PartialEq, Eq, Structural)]
pub struct PacketHeader {
    pub magic: u8,
    pub opcode: u8,
    pub key_length: u16,
    pub extras_length: u8,
    pub data_type: u8,
    pub vbucket_id_or_status: u16,
    pub total_body_length: u32,
    pub opaque: u32,
    pub cas: u64,
}

/// What goes with a store.
#[derive(Debug, Clone, Copy, PartialEq, Eq, Structural)]
pub struct StoreExtras {
    pub flags: u32,
    pub expiration: u32,
}

impl StoreExtras {
    pub open spec fn wire_spec(self) -> Seq<u8> {
        big_endian::digits(self.flags as nat, 4) + big_endian::digits(self.expiration as nat, 4)
    }

    /// Append the extras as they go on the wire.
    pub fn write(self, writer: &mut Vec<u8>)
        ensures
            final(writer)@ == old(writer)@ + self.wire_spec(),
    {
        big_endian::write_u32(writer, self.flags);
        big_endian::write_u32(writer, self.expiration);
        assert(writer@ =~= old(writer)@ + self.wire_spec());
    }
}

/// What goes with a counter operation.
#[derive(Debug, Clone, Copy, PartialEq, Eq, Structural)]
pub struct CounterExtras {
    pub amount: u64,
    pub initial_value: u64,
    pub expiration: u32,
}

impl CounterExtras {
    pub open spec fn wire_spec(self) -> Seq<u8> {
        big_endian::digits(self.amount as nat, 8) + big_endian::digits(self.initial_value as nat, 8)
            + big_endian::digits(self.expiration as nat, 4)
    }

    /// Append the extras as they go on the wire.
    pub fn write(self, writer: &mut Vec<u8>)
        ensures
            final(writer)@ == old(writer)@ + self.wire_spec(),
    {
        big_endian::write_u64(writer, self.amount);
        big_endian::write_u64(writer, self.initial_value);
        big_endian::write_u32(writer, self.expiration);
        assert(writer@ =~= old(writer)@ + self.wire_spec());
    }
}

impl PacketHeader {
    /// A header in which everything is zero.
    pub open spec fn blank() -> PacketHeader {
        PacketHeader {
            magic: 0,
            opcode: 0,
            key_length: 0,
            extras_length: 0,
            data_type: 0,
            vbucket_id_or_status: 0,
            total_body_length: 0,
            opaque: 0,
            cas: 0,
        }
    }

    /// The 24 bytes of a header.
    pub open spec fn wire_spec(self) -> Seq<u8> {
        seq![self.magic, self.opcode] + big_endian::digits(self.key_length as nat, 2) + seq![
            self.extras_length,
            self.data_type,
        ] + big_endian::digits(self.vbucket_id_or_status as nat, 2) + big_endian::digits(
            self.total_body_length as nat,
            4,
        ) + big_endian::digits(self.opaque as nat, 4) + big_endian::digits(self.cas as nat, 8)
    }

    /// The header that 24 bytes stand for.
    pub open spec fn parsed(bytes: Seq<u8>) -> PacketHeader {
        PacketHeader {
            magic: bytes[0],
            opcode: bytes[1],
            key_length: big_endian::value(bytes.subrange(2, 4)) as u16,
            extras_length: bytes[4],
            data_type: bytes[5],
            vbucket_id_or_status: big_endian::value(bytes.subrange(6, 8)) as u16,
            total_body_length: big_endian::value(bytes.subrange(8, 12)) as u32,
            opaque: big_endian::value(bytes.subrange(12, 16)) as u32,
            cas: big_endian::value(bytes.subrange(16, 24)) as u64,
        }
    }

    /// Append the header as it goes on the wire.
    pub fn write(self, writer: &mut Vec<u8>)
        ensures
            final(writer)@ == old(writer)@ + self.wire_spec(),
    {
        writer.push(self.magic);
        writer.push(self.opcode);
        big_endian::write_u16(writer, self.key_length);
        writer.push(self.extras_length);
        writer.push(self.data_type);
        big_endian::write_u16(writer, self.vbucket_id_or_status);
        big_endian::write_u32(writer, self.total_body_length);
        big_endian::write_u32(writer, self.opaque);
        big_endian::write_u64(writer, self.cas);
        assert(writer@ =~= old(writer)@ + self.wire_spec());
    }

    /// Read the header of a response.
    pub fn read(reader: &mut Reader) -> (r: Result<PacketHeader, MemcacheError>)
        requires
            old(reader).well_formed(),
        ensures
            final(reader).well_formed(),
            final(reader)@ == header_read(old(reader)@).1,
            match r {
                Ok(header) => header_read(old(reader)@).0 == Ok::<PacketHeader, MemcacheErrorView>(header),
                Err(e) => header_read(old(reader)@).0 == Err::<PacketHeader, MemcacheErrorView>(e@),
            },
    {
        let ghost given = reader@;
        let magic = match reader.read_u8() {
            Ok(magic) => magic,
            Err(e) => {
                assert(reader@ =~= Seq::<u8>::empty());
                return Err(e);
            },
        };
        if magic != Magic::Response.code() {
            return Err(MemcacheError::ServerError(ServerError::BadMagic(magic)));
        }
        let rest = match reader.read_exact(23) {
            Ok(rest) => rest,
            Err(e) => {
                assert(reader@ =~= Seq::<u8>::empty());
                return Err(e);
            },
        };
        let header = PacketHeader {
            magic,
            opcode: rest[0],
            key_length: big_endian::read_u16(vstd::slice::slice_subrange(rest.as_slice(), 1, 3)),
            extras_length: rest[3],
            data_type: rest[4],
            vbucket_id_or_status: big_endian::read_u16(vstd::slice::slice_subrange(rest.as_slice(), 5, 7)),
            total_body_length: big_endian::read_u32(vstd::slice::slice_subrange(rest.as_slice(), 7, 11)),
            opaque: big_endian::read_u32(vstd::slice::slice_subrange(rest.as_slice(), 11, 15)),
            cas: big_endian::read_u64(vstd::slice::slice_subrange(rest.as_slice(), 15, 23)),
        };
        proof {
            assert(reader@ =~= given.skip(24));
            assert(rest@.subrange(1, 3).take(2) =~= given.subrange(2, 4));
            assert(rest@.subrange(5, 7).take(2) =~= given.subrange(6, 8));
            assert(rest@.subrange(7, 11).take(4) =~= given.subrange(8, 12));
            assert(rest@.subrange(11, 15).take(4) =~= given.subrange(12, 16));
            assert(rest@.subrange(15, 23).take(8) =~= given.subrange(16, 24));
            assert(given.take(24).subrange(2, 4) =~= given.subrange(2, 4));
            assert(given.take(24).subrange(6, 8) =~= given.subrange(6, 8));
            assert(given.take(24).subrange(8, 12) =~= given.subrange(8, 12));
            assert(given.take(24).subrange(12, 16) =~= given.subrange(12, 16));
            assert(given.take(24).subrange(16, 24) =~= given.subrange(16, 24));
        }
        Ok(header)
    }
}

impl Default for PacketHeader {
    fn default() -> (r: PacketHeader)
        ensures
            r == PacketHeader::blank(),
    {
        PacketHeader {
            magic: 0,
            opcode: 0,
            key_length: 0,
            extras_length: 0,
            data_type: 0,
            vbucket_id_or_status: 0,
            total_body_length: 0,
            opaque: 0,
            cas: 0,
        }
    }
}

/// What reading the header of a response gives, and what is left to read.
pub open spec fn header_read(bytes: Seq<u8>) -> (Result<PacketHeader, MemcacheErrorView>, Seq<u8>) {
    if bytes.len() == 0 {
        (Err(reader::short_read()), Seq::empty())
    } else if bytes[0] != 0x81 {
        (Err(MemcacheErrorView::ServerError(ServerErrorView::BadMagic(bytes[0]))), bytes.skip(1))
    } else if bytes.len() < 24 {
        (Err(reader::short_read()), Seq::empty())
    } else {
        (Ok(PacketHeader::parsed(bytes.take(24))), bytes.skip(24))
    }
}

/// The header of a response reads back as it was written, and what follows it
/// is left to read.
pub proof fn lemma_header_roundtrip(header: PacketHeader, rest: Seq<u8>)
    requires
        header.magic == 0x81,
    ensures
        header.wire_spec().len() == 24,
        header_read(header.wire_spec() + rest) == (Ok::<PacketHeader, MemcacheErrorView>(header), rest),
{
    big_endian::lemma_spans();
    big_endian::lemma_roundtrip(header.key_length as nat, 2);
    big_endian::lemma_roundtrip(header.vbucket_id_or_status as nat, 2);
    big_endian::lemma_roundtrip(header.total_body_length as nat, 4);
    big_endian::lemma_roundtrip(header.opaque as nat, 4);
    big_endian::lemma_roundtrip(header.cas as nat, 8);
    let wire = header.wire_spec();
    let all = wire + rest;
    assert(all.take(24) =~= wire);
    assert(all.skip(24) =~= rest);
    assert(wire.subrange(2, 4) =~= big_endian::digits(header.key_length as nat, 2));
    assert(wire.subrange(6, 8) =~= big_endian::digits(header.vbucket_id_or_status as nat, 2));
    assert(wire.subrange(8, 12) =~= big_endian::digits(header.total_body_length as nat, 4));
    assert(wire.subrange(12, 16) =~= big_endian::digits(header.opaque as nat, 4));
    assert(wire.subrange(16, 24) =~= big_endian::digits(header.cas as nat, 8));
    assert(all[0] == header.magic);
}

/// A response packet.
#[derive(Debug)]
pub struct Response {
    pub header: PacketHeader,
    pub key: Vec<u8>,
    pub extras: Vec<u8>,
    pub value: Vec<u8>,
}

/// What a [`Response`] holds.
pub struct ResponseView {
    pub header: PacketHeader,
    pub key: Seq<u8>,
    pub extras: Seq<u8>,
    pub value: Seq<u8>,
}

impl View for Response {
    type V = ResponseView;

    open spec fn view(&self) -> ResponseView {
        ResponseView { header: self.header, key: self.key@, extras: self.extras@, value: self.value@ }
    }
}

/// The error that a status stands for.
pub open spec fn status_fault(status: u16) -> MemcacheErrorView {
    MemcacheErrorView::CommandError(error::status_error(status))
}

impl Response {
    /// The response itself, or the error that its status stands for.
    pub fn err(self) -> (r: Result<Response, MemcacheError>)
        ensures
            match r {
                Ok(response) => self.header.vbucket_id_or_status == 0 && response == self,
                Err(e) => self.header.vbucket_id_or_status != 0 && e@ == status_fault(
                    self.header.vbucket_id_or_status,
                ),
            },
    {
        let status = self.header.vbucket_id_or_status;
        if status == OK_STATUS {
            Ok(self)
        } else {
            Err(MemcacheError::CommandError(CommandError::from_status(status)))
        }
    }
}

/// The error of a packet whose parts do not add up.
pub open spec fn bad_lengths() -> MemcacheErrorView {
    error::bad_response("total body length shorter than extras and key"@)
}

/// What reading a response gives, whatever its status, and what is left to
/// read.
pub open spec fn response_read(bytes: Seq<u8>) -> (Result<ResponseView, MemcacheErrorView>, Seq<u8>) {
    match header_read(bytes) {
        (Err(e), rest) => (Err(e), rest),
        (Ok(header), rest) => body_read(header, rest),
    }
}

/// What reading the body of a response gives: the extras, the key, the value.
pub open spec fn body_read(header: PacketHeader, bytes: Seq<u8>) -> (
    Result<ResponseView, MemcacheErrorView>,
    Seq<u8>,
) {
    let extras = header.extras_length as int;
    let key = header.key_length as int;
    let total = header.total_body_length as int;
    if bytes.len() < extras + key {
        (Err(reader::short_read()), Seq::empty())
    } else if total < extras + key {
        (Err(bad_lengths()), bytes.skip(extras + key))
    } else if bytes.len() < total {
        (Err(reader::short_read()), Seq::empty())
    } else {
        (
            Ok(
                ResponseView {
                    header,
                    extras: bytes.take(extras),
                    key: bytes.subrange(extras, extras + key),
                    value: bytes.subrange(extras + key, total),
                },
            ),
            bytes.skip(total),
        )
    }
}

/// Read a response, whatever its status.
pub fn parse_response(reader: &mut Reader) -> (r: Result<Response, MemcacheError>)
    requires
        old(reader).well_formed(),
    ensures
        final(reader).well_formed(),
        final(reader)@ == response_read(old(reader)@).1,
        match r {
            Ok(response) => response_read(old(reader)@).0 == Ok::<ResponseView, MemcacheErrorView>(response@),
            Err(e) => response_read(old(reader)@).0 == Err::<ResponseView, MemcacheErrorView>(e@),
        },
{
    let header = match PacketHeader::read(reader) {
        Ok(header) => header,
        Err(e) => {
            return Err(e);
        },
    };
    let ghost body = reader@;
    let extras = match reader.read_exact(header.extras_length as usize) {
        Ok(extras) => extras,
        Err(e) => {
            assert(reader@ =~= Seq::<u8>::empty());
            return Err(e);
        },
    };
    let key = match reader.read_exact(header.key_length as usize) {
        Ok(key) => key,
        Err(e) => {
            assert(reader@ =~= Seq::<u8>::empty());
            return Err(e);
        },
    };
    let ghost e = header.extras_length as int;
    let ghost k = header.key_length as int;
    assert(reader@ =~= body.skip(e + k));
    assert(key@ =~= body.subrange(e, e + k));
    let taken: u32 = header.key_length as u32 + header.extras_length as u32;
    if header.total_body_length < taken {
        return Err(MemcacheError::bad_response("total body length shorter than extras and key"));
    }
    let value = match reader.read_exact((header.total_body_length - taken) as usize) {
        Ok(value) => value,
        Err(e) => {
            assert(reader@ =~= Seq::<u8>::empty());
            return Err(e);
        },
    };
    assert(reader@ =~= body.skip(header.total_body_length as int));
    assert(value@ =~= body.subrange(e + k, header.total_body_length as int));
    Ok(Response { header, key, extras, value })
}

/// The packet of a response with this header.
pub open spec fn packet(response: ResponseView) -> Seq<u8> {
    response.header.wire_spec() + response.extras + response.key + response.value
}

/// A response packet reads back as it was written, and what follows it is left
/// to read.
pub proof fn lemma_response_roundtrip(response: ResponseView, rest: Seq<u8>)
    requires
        response.header.magic == 0x81,
        response.header.extras_length == response.extras.len(),
        response.header.key_length == response.key.len(),
        response.header.total_body_length == response.extras.len() + response.key.len() + response.value.len(),
    ensures
        response_read(packet(response) + rest) == (Ok::<ResponseView, MemcacheErrorView>(response), rest),
{
    let body = response.extras + response.key + response.value + rest;
    lemma_header_roundtrip(response.header, body);
    assert(packet(response) + rest =~= response.header.wire_spec() + body);
    let e = response.extras.len() as int;
    let k = response.key.len() as int;
    let total = response.header.total_body_length as int;
    assert(body.take(e) =~= response.extras);
    assert(body.subrange(e, e + k) =~= response.key);
    assert(body.subrange(e + k, total) =~= response.value);
    assert(body.skip(total) =~= rest);
}

/// What reading a response of success gives.
pub open spec fn success_read(bytes: Seq<u8>) -> (Result<ResponseView, MemcacheErrorView>, Seq<u8>) {
    match response_read(bytes) {
        (Err(e), rest) => (Err(e), rest),
        (Ok(response), rest) => if response.header.vbucket_id_or_status == 0 {
            (Ok(response), rest)
        } else {
            (Err(status_fault(response.header.vbucket_id_or_status)), rest)
        },
    }
}

fn parse_success(reader: &mut Reader) -> (r: Result<Response, MemcacheError>)
    requires
        old(reader).well_formed(),
    ensures
        final(reader).well_formed(),
        final(reader)@ == success_read(old(reader)@).1,
        match r {
            Ok(response) => success_read(old(reader)@).0 == Ok::<ResponseView, MemcacheErrorView>(response@),
            Err(e) => success_read(old(reader)@).0 == Err::<ResponseView, MemcacheErrorView>(e@),
        },
{
    match parse_response(reader) {
        Ok(response) => response.err(),
        Err(e) => Err(e),
    }
}

pub open spec fn key_not_found() -> MemcacheErrorView {
    MemcacheErrorView::CommandError(CommandErrorView::KeyNotFound)
}

pub open spec fn key_exists() -> MemcacheErrorView {
    MemcacheErrorView::CommandError(CommandErrorView::KeyExists)
}

/// What a compare-and-swap response says: whether the value was swapped.
pub open spec fn cas_read(bytes: Seq<u8>) -> Result<bool, MemcacheErrorView> {
    match success_read(bytes).0 {
        Ok(_) => Ok(true),
        Err(e) => if e == key_not_found() || e == key_exists() {
            Ok(false)
        } else {
            Err(e)
        },
    }
}

/// Read the response to a compare-and-swap.
pub fn parse_cas_response(reader: &mut Reader) -> (r: Result<bool, MemcacheError>)
    requires
        old(reader).well_formed(),
    ensures
        final(reader).well_formed(),
        final(reader)@ == response_read(old(reader)@).1,
        match r {
            Ok(swapped) => cas_read(old(reader)@) == Ok::<bool, MemcacheErrorView>(swapped),
            Err(e) => cas_read(old(reader)@) == Err::<bool, MemcacheErrorView>(e@),
        },
{
    match parse_success(reader) {
        Ok(_) => Ok(true),
        Err(MemcacheError::CommandError(CommandError::KeyNotFound)) => Ok(false),
        Err(MemcacheError::CommandError(CommandError::KeyExists)) => Ok(false),
        Err(e) => Err(e),
    }
}

/// What a response says whose status may be that the key was not found.
pub open spec fn found_read(bytes: Seq<u8>) -> Result<bool, MemcacheErrorView> {
    match success_read(bytes).0 {
        Ok(_) => Ok(true),
        Err(e) => if e == key_not_found() {
            Ok(false)
        } else {
            Err(e)
        },
    }
}

/// Read the response to a delete: whether the key was there.
pub fn parse_delete_response(reader: &mut Reader) -> (r: Result<bool, MemcacheError>)
    requires
        old(reader).well_formed(),
    ensures
        final(reader).well_formed(),
        final(reader)@ == response_read(old(reader)@).1,
        match r {
            Ok(found) => found_read(old(reader)@) == Ok::<bool, MemcacheErrorView>(found),
            Err(e) => found_read(old(reader)@) == Err::<bool, MemcacheErrorView>(e@),
        },
{
    match parse_success(reader) {
        Ok(_) => Ok(true),
        Err(MemcacheError::CommandError(CommandError::KeyNotFound)) => Ok(false),
        Err(e) => Err(e),
    }
}

/// Read the response to a touch: whether the key was there.
pub fn parse_touch_response(reader: &mut Reader) -> (r: Result<bool, MemcacheError>)
    requires
        old(reader).well_formed(),
    ensures
        final(reader).well_formed(),
        final(reader)@ == response_read(old(reader)@).1,
        match r {
            Ok(found) => found_read(old(reader)@) == Ok::<bool, MemcacheErrorView>(found),
            Err(e) => found_read(old(reader)@) == Err::<bool, MemcacheErrorView>(e@),
        },
{
    parse_delete_response(reader)
}

/// Why a response is no success, if it is none.
pub open spec fn failure_read(bytes: Seq<u8>) -> Option<MemcacheErrorView> {
    match success_read(bytes).0 {
        Ok(_) => None,
        Err(e) => Some(e),
    }
}

/// Read the response to a request that is answered by its status alone.
pub fn parse_status_response(reader: &mut Reader) -> (r: Result<(), MemcacheError>)
    requires
        old(reader).well_formed(),
    ensures
        final(reader).well_formed(),
        final(reader)@ == response_read(old(reader)@).1,
        match r {
            Ok(_) => failure_read(old(reader)@) is None,
            Err(e) => failure_read(old(reader)@) == Some(e@),
        },
{
    match parse_success(reader) {
        Ok(_) => Ok(()),
        Err(e) => Err(e),
    }
}

/// Read the response to an authentication.
pub fn parse_start_auth_response(reader: &mut Reader) -> (r: Result<bool, MemcacheError>)
    requires
        old(reader).well_formed(),
    ensures
        final(reader).well_formed(),
        final(reader)@ == response_read(old(reader)@).1,
        match r {
            Ok(accepted) => accepted && failure_read(old(reader)@) is None,
            Err(e) => failure_read(old(reader)@) == Some(e@),
        },
{
    match parse_success(reader) {
        Ok(_) => Ok(true),
        Err(e) => Err(e),
    }
}

/// Why a version response names no version, if it names none.
pub open spec fn version_fault(bytes: Seq<u8>) -> Option<MemcacheErrorView> {
    match success_read(bytes).0 {
        Ok(response) => value::text_fault(response.value),
        Err(e) => Some(e),
    }
}

/// Read the response to a version request.
pub fn parse_version_response(reader: &mut Reader) -> (r: Result<String, MemcacheError>)
    requires
        old(reader).well_formed(),
    ensures
        final(reader).well_formed(),
        final(reader)@ == response_read(old(reader)@).1,
        match r {
            Ok(version) => version_fault(old(reader)@) is None && vstd::utf8::encode_utf8(version@) == success_read(
                old(reader)@,
            ).0->Ok_0.value,
            Err(e) => version_fault(old(reader)@) == Some(e@),
        },
{
    match parse_success(reader) {
        Ok(response) => read_text(response.value),
        Err(e) => Err(e),
    }
}

/// What a counter response says: the counter's value.
pub open spec fn counter_read(bytes: Seq<u8>) -> Result<u64, MemcacheErrorView> {
    match success_read(bytes).0 {
        Err(e) => Err(e),
        Ok(response) => if response.value.len() < 8 {
            Err(reader::short_read())
        } else {
            Ok(big_endian::value(response.value.take(8)) as u64)
        },
    }
}

/// Read the response to a counter operation.
pub fn parse_counter_response(reader: &mut Reader) -> (r: Result<u64, MemcacheError>)
    requires
        old(reader).well_formed(),
    ensures
        final(reader).well_formed(),
        final(reader)@ == response_read(old(reader)@).1,
        match r {
            Ok(n) => counter_read(old(reader)@) == Ok::<u64, MemcacheErrorView>(n),
            Err(e) => counter_read(old(reader)@) == Err::<u64, MemcacheErrorView>(e@),
        },
{
    match parse_success(reader) {
        Err(e) => Err(e),
        Ok(response) => {
            if response.value.len() < 8 {
                Err(reader::short_read_error())
            } else {
                Ok(big_endian::read_u64(response.value.as_slice()))
            }
        },
    }
}

/// What a response that carries an item holds: its bytes, flags and CAS.
pub open spec fn item_read(response: ResponseView) -> Result<(Seq<u8>, u32, u64), MemcacheErrorView> {
    if response.extras.len() < 4 {
        Err(reader::short_read())
    } else {
        Ok((response.value, big_endian::value(response.extras.take(4)) as u32, response.header.cas))
    }
}

/// Why a response that carries an item does not hold such a value, if it does
/// not.
pub open spec fn item_fault<V: FromMemcacheValueExt>(response: ResponseView) -> Option<MemcacheErrorView> {
    match item_read(response) {
        Err(e) => Some(e),
        Ok((bytes, flags, cas)) => V::value_fault_ext(bytes, flags, Some(cas)),
    }
}

/// Whether a value is what a response that carries an item holds.
pub open spec fn is_item<V: FromMemcacheValueExt>(response: ResponseView, value: V) -> bool {
    match item_read(response) {
        Err(_) => false,
        Ok((bytes, flags, cas)) => V::stands_for_ext(bytes, flags, Some(cas), value),
    }
}

fn take_item<V: FromMemcacheValueExt>(header: PacketHeader, extras: Vec<u8>, value: Vec<u8>) -> (r: Result<
    V,
    MemcacheError,
>)
    ensures
        ({
            let response = ResponseView { header, key: Seq::empty(), extras: extras@, value: value@ };
            match r {
                Ok(v) => item_fault::<V>(response) is None && is_item(response, v),
                Err(e) => item_fault::<V>(response) == Some(e@),
            }
        }),
{
    if extras.len() < 4 {
        return Err(reader::short_read_error());
    }
    let flags = big_endian::read_u32(extras.as_slice());
    <V as FromMemcacheValueExt>::from_memcache_value(value, flags, Some(header.cas))
}

/// Why a get response is no answer, if it is none.
pub open spec fn get_fault<V: FromMemcacheValueExt>(bytes: Seq<u8>) -> Option<MemcacheErrorView> {
    match success_read(bytes).0 {
        Ok(response) => item_fault::<V>(response),
        Err(e) => if e == key_not_found() {
            None
        } else {
            Some(e)
        },
    }
}

/// Read the response to a get: nothing where the key was not found.
pub fn parse_get_response<V: FromMemcacheValueExt>(reader: &mut Reader) -> (r: Result<Option<V>, MemcacheError>)
    requires
        old(reader).well_formed(),
    ensures
        final(reader).well_formed(),
        final(reader)@ == response_read(old(reader)@).1,
        match r {
            Ok(Some(value)) => get_fault::<V>(old(reader)@) is None && success_read(old(reader)@).0 is Ok && is_item(
                success_read(old(reader)@).0->Ok_0,
                value,
            ),
            Ok(None) => success_read(old(reader)@).0 == Err::<ResponseView, MemcacheErrorView>(key_not_found()),
            Err(e) => get_fault::<V>(old(reader)@) == Some(e@),
        },
{
    match parse_success(reader) {
        Ok(response) => match take_item::<V>(response.header, response.extras, response.value) {
            Ok(value) => Ok(Some(value)),
            Err(e) => Err(e),
        },
        Err(MemcacheError::CommandError(CommandError::KeyNotFound)) => Ok(None),
        Err(e) => Err(e),
    }
}

/// The items of a multi-get, each name once, with their bytes, flags and CAS.
pub type Items = Seq<(Seq<char>, (Seq<u8>, u32, u64))>;

/// What the responses of a multi-get say: items up to the no-op that ends them.
pub open spec fn gets_read<V: FromMemcacheValueExt>(bytes: Seq<u8>, so_far: Items, left: nat) -> (
    Result<Items, MemcacheErrorView>,
    Seq<u8>,
)
    decreases left,
{
    match success_read(bytes) {
        (Err(e), rest) => (Err(e), rest),
        (Ok(response), rest) => if response.header.opcode == Opcode::Noop.code_spec() {
            (Ok(so_far), rest)
        } else {
            match item_read(response) {
                Err(e) => (Err(e), rest),
                Ok(item) => match value::text_fault(response.key) {
                    Some(e) => (Err(e), rest),
                    None => match V::value_fault_ext(item.0, item.1, Some(item.2)) {
                        Some(e) => (Err(e), rest),
                        None => if left == 0 {
                            (Err(error::bad_response("Expected end of gets response"@)), rest)
                        } else {
                            gets_read::<V>(
                                rest,
                                pairs::put(so_far, vstd::utf8::decode_utf8(response.key), item),
                                (left - 1) as nat,
                            )
                        },
                    },
                },
            }
        },
    }
}

/// Whether a list of named values holds these items.
pub open spec fn holds_items<V: FromMemcacheValueExt>(list: Seq<(String, V)>, items: Items) -> bool {
    &&& list.len() == items.len()
    &&& forall|i: int|
        #![trigger list[i]]
        0 <= i < list.len() ==> list[i].0@ == items[i].0 && V::stands_for_ext(
            items[i].1.0,
            items[i].1.1,
            Some(items[i].1.2),
            list[i].1,
        )
}

pub proof fn lemma_holds_put<V: FromMemcacheValueExt>(
    before: Seq<(String, V)>,
    after: Seq<(String, V)>,
    items: Items,
    name: Seq<char>,
    value: V,
    item: (Seq<u8>, u32, u64),
)
    requires
        holds_items(before, items),
        pairs::keyed(after) == pairs::put(pairs::keyed(before), name, value),
        V::stands_for_ext(item.0, item.1, Some(item.2), value),
    ensures
        holds_items(after, pairs::put(items, name, item)),
{
    let keyed = pairs::keyed(before);
    pairs::lemma_position(keyed, name);
    let at = pairs::position(keyed, name);
    assert forall|i: int| 0 <= i < at implies #[trigger] items[i].0 != name by {
        assert(keyed[i].0 == before[i].0@);
    }
    if at < items.len() {
        assert(keyed[at as int].0 == before[at as int].0@);
    }
    pairs::lemma_position_is(items, name, at);
    let put = pairs::put(items, name, item);
    let put_keyed = pairs::put(keyed, name, value);
    assert(put_keyed.len() == after.len());
    assert(put.len() == put_keyed.len());
    assert forall|i: int| #![trigger after[i]] 0 <= i < after.len() implies after[i].0@ == put[i].0
        && V::stands_for_ext(put[i].1.0, put[i].1.1, Some(put[i].1.2), after[i].1) by {
        assert(pairs::keyed(after)[i] == (after[i].0@, after[i].1));
        if i == at {
            assert(put[i] == (name, item));
            assert(put_keyed[i] == (name, value));
        } else {
            assert(put[i] == items[i]);
            assert(put_keyed[i] == keyed[i]);
            assert(keyed[i] == (before[i].0@, before[i].1));
        }
    }
}

/// Read the responses to a multi-get of at most `max_responses` keys. A key
/// that is answered twice keeps the later value.
pub fn parse_gets_response<V: FromMemcacheValueExt>(reader: &mut Reader, max_responses: usize) -> (r: Result<
    Vec<(String, V)>,
    MemcacheError,
>)
    requires
        old(reader).well_formed(),
    ensures
        final(reader).well_formed(),
        final(reader)@ == gets_read::<V>(old(reader)@, Seq::empty(), max_responses as nat).1,
        match r {
            Ok(list) => gets_read::<V>(old(reader)@, Seq::empty(), max_responses as nat).0 is Ok && holds_items(
                list@,
                gets_read::<V>(old(reader)@, Seq::empty(), max_responses as nat).0->Ok_0,
            ),
            Err(e) => gets_read::<V>(old(reader)@, Seq::empty(), max_responses as nat).0 == Err::<
                Items,
                MemcacheErrorView,
            >(e@),
        },
{
    let ghost given = reader@;
    let ghost outcome = gets_read::<V>(given, Seq::empty(), max_responses as nat);
    let ghost mut items: Items = Seq::empty();
    let mut result: Vec<(String, V)> = Vec::new();
    let mut left: usize = max_responses;
    loop
        invariant
            reader.well_formed(),
            outcome == gets_read::<V>(old(reader)@, Seq::empty(), max_responses as nat),
            outcome == gets_read::<V>(reader@, items, left as nat),
            holds_items(result@, items),
        decreases left,
    {
        let response = match parse_success(reader) {
            Ok(response) => response,
            Err(e) => {
                return Err(e);
            },
        };
        if response.header.opcode == Opcode::Noop.code() {
            return Ok(result);
        }
        let ghost view = response@;
        let ghost item = item_read(view);
        let header = response.header;
        if response.extras.len() < 4 {
            return Err(reader::short_read_error());
        }
        let name = match read_text(response.key) {
            Ok(name) => name,
            Err(e) => {
                return Err(e);
            },
        };
        let value = match take_item::<V>(header, response.extras, response.value) {
            Ok(value) => value,
            Err(e) => {
                return Err(e);
            },
        };
        if left == 0 {
            return Err(MemcacheError::bad_response("Expected end of gets response"));
        }
        let ghost before = result@;
        let ghost text = name@;
        let ghost v = value;
        pairs::insert(&mut result, name, value);
        proof {
            vstd::utf8::encode_utf8_decode_utf8(text);
            lemma_holds_put(before, result@, items, text, v, item->Ok_0);
            items = pairs::put(items, text, item->Ok_0);
        }
        left = left - 1;
    }
}

/// What the responses to a statistics request say: named values up to an empty
/// pair.
pub open spec fn stats_read(bytes: Seq<u8>, so_far: Seq<(Seq<char>, Seq<char>)>) -> (
    Result<Seq<(Seq<char>, Seq<char>)>, MemcacheErrorView>,
    Seq<u8>,
)
    decreases bytes.len(),
{
    match success_read(bytes) {
        (Err(e), rest) => (Err(e), rest),
        (Ok(response), rest) => match value::text_fault(response.key) {
            Some(e) => (Err(e), rest),
            None => match value::text_fault(response.value) {
                Some(e) => (Err(e), rest),
                None => if response.key.len() == 0 && response.value.len() == 0 {
                    (Ok(so_far), rest)
                } else if rest.len() < bytes.len() {
                    stats_read(
                        rest,
                        pairs::put(
                            so_far,
                            vstd::utf8::decode_utf8(response.key),
                            vstd::utf8::decode_utf8(response.value),
                        ),
                    )
                } else {
                    (Ok(so_far), rest)
                },
            },
        },
    }
}

/// Read the responses to a statistics request.
pub fn parse_stats_response(reader: &mut Reader) -> (r: Result<Vec<(String, String)>, MemcacheError>)
    requires
        old(reader).well_formed(),
    ensures
        final(reader).well_formed(),
        final(reader)@ == stats_read(old(reader)@, Seq::empty()).1,
        match r {
            Ok(list) => stats_read(old(reader)@, Seq::empty()).0 == Ok::<
                Seq<(Seq<char>, Seq<char>)>,
                MemcacheErrorView,
            >(pairs::text_pairs(list@)),
            Err(e) => stats_read(old(reader)@, Seq::empty()).0 == Err::<
                Seq<(Seq<char>, Seq<char>)>,
                MemcacheErrorView,
            >(e@),
        },
{
    let ghost outcome = stats_read(reader@, Seq::empty());
    let mut result: Vec<(String, String)> = Vec::new();
    assert(pairs::text_pairs(result@) =~= Seq::<(Seq<char>, Seq<char>)>::empty());
    loop
        invariant
            reader.well_formed(),
            outcome == stats_read(old(reader)@, Seq::empty()),
            outcome == stats_read(reader@, pairs::text_pairs(result@)),
        decreases reader@.len(),
    {
        let response = match parse_success(reader) {
            Ok(response) => response,
            Err(e) => {
                return Err(e);
            },
        };
        let last = response.key.len() == 0 && response.value.len() == 0;
        let name = match read_text(response.key) {
            Ok(name) => name,
            Err(e) => {
                return Err(e);
            },
        };
        let text = match read_text(response.value) {
            Ok(text) => text,
            Err(e) => {
                return Err(e);
            },
        };
        if last {
            return Ok(result);
        }
        proof {
            vstd::utf8::encode_utf8_decode_utf8(name@);
            vstd::utf8::encode_utf8_decode_utf8(text@);
        }
        pairs::insert_text(&mut result, name, text);
    }
}

} // verus!
