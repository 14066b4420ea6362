//! The text protocol: the requests as they go on the wire, and the responses
//! as they are read from what has been received.

use vstd::prelude::*;
use vstd::string::*;

use crate::bytes;
use crate::client::check_key_len;
use crate::client;
use crate::decimal;
use crate::error;
use crate::error::{CommandError, MemcacheError, MemcacheErrorView, ParseError, ParseErrorView};
use crate::pairs;
use crate::reader;
use crate::reader::Reader;
use crate::text;
use crate::value;
use crate::value::{read_text, FromMemcacheValueExt, ToMemcacheValue};

use super::binary_packet;
use super::binary_packet::Items;

verus! {

/// The longest response line that is read, line end included.
pub const MAX_LINE_LENGTH: usize = 2048;

/// Options of a store.
#[derive(Debug, Clone, Copy, PartialEq, Eq, Structural)]
pub struct Options {
    pub noreply: bool,
    pub exptime: u32,
    pub flags: u32,
    pub cas: Option<u64>,
}

impl Options {
    pub open spec fn plain() -> Options {
        Options { noreply: false, exptime: 0, flags: 0, cas: None }
    }
}

impl Default for Options {
    fn default() -> (r: Options)
        ensures
            r == Options::plain(),
    {
        Options { noreply: false, exptime: 0, flags: 0, cas: None }
    }
}

/// The commands that store a value.
#[derive(Debug, Clone, Copy, PartialEq, Eq, Structural)]
pub enum StoreCommand {
    Cas,
    Store,
    Add,
    Replace,
    Append,
    Prepend,
}

impl StoreCommand {
    pub open spec fn code_spec(self) -> Seq<u8> {
        match self {
            StoreCommand::Store => bytes::utf8("set"),
            StoreCommand::Add => bytes::utf8("add"),
            StoreCommand::Replace => bytes::utf8("replace"),
            StoreCommand::Append => bytes::utf8("append"),
            StoreCommand::Prepend => bytes::utf8("prepend"),
            StoreCommand::Cas => bytes::utf8("cas"),
        }
    }

    /// The command as it goes on the wire.
    pub fn code(self) -> (r: &'static str)
        ensures
            bytes::utf8(r) == self.code_spec(),
    {
        match self {
            StoreCommand::Store => "set",
            StoreCommand::Add => "add",
            StoreCommand::Replace => "replace",
            StoreCommand::Append => "append",
            StoreCommand::Prepend => "prepend",
            StoreCommand::Cas => "cas",
        }
    }
}

fn push_text(buffer: &mut Vec<u8>, part: &str)
    ensures
        final(buffer)@ == old(buffer)@ + bytes::utf8(part),
{
    bytes::append(buffer, part.as_bytes());
}

fn push_number(buffer: &mut Vec<u8>, n: u64)
    ensures
        final(buffer)@ == old(buffer)@ + decimal::decimal(n as nat),
{
    let digits = decimal::format_unsigned(n as u128);
    bytes::append(buffer, digits.as_slice());
}

/// A space.
pub open spec fn space() -> Seq<u8> {
    bytes::utf8(" ")
}

/// The CAS token as it stands on a store line.
pub open spec fn cas_part(cas: Option<u64>) -> Seq<u8> {
    match cas {
        Some(cas) => space() + decimal::decimal(cas as nat),
        None => Seq::empty(),
    }
}

/// The line of a store.
pub open spec fn store_line(
    command: StoreCommand,
    key: Seq<u8>,
    flags: u32,
    length: nat,
    options: Options,
) -> Seq<u8> {
    command.code_spec() + space() + key + space() + decimal::decimal(flags as nat) + space() + decimal::decimal(
        options.exptime as nat,
    ) + space() + decimal::decimal(length) + cas_part(options.cas) + (if options.noreply {
        bytes::utf8(" noreply")
    } else {
        Seq::empty()
    }) + bytes::crlf()
}

fn build_store_line(command: StoreCommand, key: &str, flags: u32, length: usize, options: &Options) -> (r: Vec<u8>)
    ensures
        r@ == store_line(command, bytes::utf8(key), flags, length as nat, *options),
{
    let mut line: Vec<u8> = Vec::new();
    push_text(&mut line, command.code());
    assert(line@ =~= command.code_spec());
    push_text(&mut line, " ");
    push_text(&mut line, key);
    push_text(&mut line, " ");
    push_number(&mut line, flags as u64);
    push_text(&mut line, " ");
    push_number(&mut line, options.exptime as u64);
    push_text(&mut line, " ");
    push_number(&mut line, length as u64);
    let mut tail: Vec<u8> = Vec::new();
    if let Some(cas) = options.cas {
        push_text(&mut tail, " ");
        push_number(&mut tail, cas);
    }
    assert(tail@ =~= cas_part(options.cas));
    bytes::append(&mut line, tail.as_slice());
    let mut last: Vec<u8> = Vec::new();
    if options.noreply {
        push_text(&mut last, " noreply");
    }
    assert(last@ =~= (if options.noreply {
        bytes::utf8(" noreply")
    } else {
        Seq::empty()
    }));
    bytes::append(&mut line, last.as_slice());
    bytes::append_crlf(&mut line);
    line
}

/// The request of many stores: the line and the data block of each entry.
pub open spec fn stores_wire<V: ToMemcacheValue>(
    command: StoreCommand,
    entries: Seq<(String, V)>,
    options: Options,
) -> Seq<u8>
    decreases entries.len(),
{
    if entries.len() == 0 {
        Seq::empty()
    } else {
        let (key, value) = entries.last();
        stores_wire(command, entries.drop_last(), options) + store_line(
            command,
            vstd::utf8::encode_utf8(key@),
            value.flags_spec(),
            value.bytes_spec().len(),
            options,
        ) + value.bytes_spec() + bytes::crlf()
    }
}

/// Why one store is refused, if it is: its key is too long, or its value cannot
/// be written.
pub open spec fn store_fault<V: ToMemcacheValue>(key: Seq<u8>, value: V) -> Option<MemcacheErrorView> {
    if !client::key_fits(key) {
        Some(client::key_too_long())
    } else {
        match value.write_fault() {
            Some(e) => Some(MemcacheErrorView::IOError(e)),
            None => None,
        }
    }
}

/// The fault of the first store that is refused.
pub open spec fn entries_fault<V: ToMemcacheValue>(entries: Seq<(String, V)>) -> Option<MemcacheErrorView>
    decreases entries.len(),
{
    if entries.len() == 0 {
        None
    } else {
        match entries_fault(entries.drop_last()) {
            Some(e) => Some(e),
            None => store_fault(vstd::utf8::encode_utf8(entries.last().0@), entries.last().1),
        }
    }
}

proof fn lemma_entries_fault_stays<V: ToMemcacheValue>(entries: Seq<(String, V)>, k: int)
    requires
        0 <= k <= entries.len(),
        entries_fault(entries.take(k)) is Some,
    ensures
        entries_fault(entries) == entries_fault(entries.take(k)),
    decreases entries.len() - k,
{
    if k < entries.len() {
        assert(entries.take(k + 1).drop_last() =~= entries.take(k));
        lemma_entries_fault_stays(entries, k + 1);
    } else {
        assert(entries.take(k) =~= entries);
    }
}

/// Whether a CAS token is missing where the command needs one.
pub open spec fn lacks_cas(command: StoreCommand, options: Options) -> bool {
    command == StoreCommand::Cas && options.cas is None
}

/// The error of a command that needs a CAS token and has none.
pub open spec fn cas_missing() -> MemcacheErrorView {
    error::client_error("cas_id should be present when using cas command"@)
}

/// Why stores are refused, if they are.
pub open spec fn stores_fault<V: ToMemcacheValue>(
    command: StoreCommand,
    entries: Seq<(String, V)>,
    options: Options,
) -> Option<MemcacheErrorView> {
    if lacks_cas(command, options) {
        Some(cas_missing())
    } else {
        entries_fault(entries)
    }
}

/// Encode the request of many stores.
pub fn stores_request<V: ToMemcacheValue>(
    command: StoreCommand,
    entries: &Vec<(String, V)>,
    options: &Options,
) -> (r: Result<Vec<u8>, MemcacheError>)
    ensures
        match r {
            Ok(wire) => stores_fault(command, entries@, *options) is None && wire@ == stores_wire(
                command,
                entries@,
                *options,
            ),
            Err(e) => stores_fault(command, entries@, *options) == Some(e@),
        },
{
    if command == StoreCommand::Cas && options.cas.is_none() {
        return Err(MemcacheError::client("cas_id should be present when using cas command"));
    }
    let mut wire: Vec<u8> = Vec::new();
    let mut i: usize = 0;
    assert(entries@.take(0) =~= Seq::<(String, V)>::empty());
    while i < entries.len()
        invariant
            i <= entries@.len(),
            !lacks_cas(command, *options),
            wire@ == stores_wire(command, entries@.take(i as int), *options),
            entries_fault(entries@.take(i as int)) is None,
        decreases entries@.len() - i,
    {
        assert(entries@.take(i + 1).drop_last() =~= entries@.take(i as int));
        let key = entries[i].0.as_str();
        let item = &entries[i].1;
        match check_key_len(key) {
            Ok(_) => {},
            Err(e) => {
                proof {
                    lemma_entries_fault_stays(entries@, i + 1);
                }
                return Err(e);
            },
        }
        let line = build_store_line(command, key, item.get_flags(), item.get_length(), options);
        bytes::append(&mut wire, line.as_slice());
        match item.write_to(&mut wire) {
            Ok(_) => {},
            Err(e) => {
                proof {
                    lemma_entries_fault_stays(entries@, i + 1);
                }
                return Err(MemcacheError::IOError(e));
            },
        }
        bytes::append_crlf(&mut wire);
        i += 1;
    }
    assert(entries@.take(i as int) =~= entries@);
    Ok(wire)
}

/// Encode the request of one store.
pub fn store_request<V: ToMemcacheValue>(command: StoreCommand, key: &str, value: &V, options: &Options) -> (r: Result<
    Vec<u8>,
    MemcacheError,
>)
    ensures
        match r {
            Ok(wire) => !lacks_cas(command, *options) && store_fault(bytes::utf8(key), *value) is None
                && wire@ == store_line(
                command,
                bytes::utf8(key),
                value.flags_spec(),
                value.bytes_spec().len(),
                *options,
            ) + value.bytes_spec() + bytes::crlf(),
            Err(e) => if lacks_cas(command, *options) {
                e@ == cas_missing()
            } else {
                store_fault(bytes::utf8(key), *value) == Some(e@)
            },
        },
{
    if command == StoreCommand::Cas && options.cas.is_none() {
        return Err(MemcacheError::client("cas_id should be present when using cas command"));
    }
    match check_key_len(key) {
        Ok(_) => {},
        Err(e) => {
            return Err(e);
        },
    }
    let mut wire = build_store_line(command, key, value.get_flags(), value.get_length(), options);
    match value.write_to(&mut wire) {
        Ok(_) => {},
        Err(e) => {
            return Err(MemcacheError::IOError(e));
        },
    }
    bytes::append_crlf(&mut wire);
    Ok(wire)
}

/// How many bytes the first line takes up, its line end included.
pub open spec fn line_length(received: Seq<u8>) -> Option<int>
    decreases received.len(),
{
    if received.len() < 2 {
        None
    } else if received[0] == 13 && received[1] == 10 {
        Some(2)
    } else {
        match line_length(received.skip(1)) {
            Some(n) => Some(n + 1),
            None => None,
        }
    }
}

proof fn lemma_line_length(received: Seq<u8>)
    ensures
        line_length(received) matches Some(n) ==> 2 <= n <= received.len() && received[n - 2] == 13 && received[n - 1]
            == 10,
    decreases received.len(),
{
    if received.len() >= 2 && !(received[0] == 13 && received[1] == 10) {
        lemma_line_length(received.skip(1));
    }
}

pub proof fn lemma_line_length_is(received: Seq<u8>, k: int)
    requires
        0 <= k,
        forall|i: int| 0 <= i < k && i + 1 < received.len() ==> !(#[trigger] received[i] == 13 && received[i + 1] == 10),
        k + 1 < received.len() ==> received[k] == 13 && received[k + 1] == 10,
    ensures
        line_length(received) == (if k + 1 < received.len() {
            Some(k + 2)
        } else {
            None
        }),
    decreases received.len(),
{
    if received.len() >= 2 && k > 0 {
        let rest = received.skip(1);
        assert(!(received[0] == 13 && received[1] == 10));
        assert forall|i: int| 0 <= i < k - 1 && i + 1 < rest.len() implies !(#[trigger] rest[i] == 13 && rest[i + 1]
            == 10) by {
            assert(rest[i] == received[i + 1] && rest[i + 1] == received[i + 2]);
        }
        lemma_line_length_is(rest, k - 1);
    }
}

/// The error of reading a line whose end has not been received.
pub open spec fn no_line() -> MemcacheErrorView {
    error::client_error("Ascii protocol no line found"@)
}

/// What reading a line gives, and what is left to read. The line keeps its line
/// end. A line that is no text is left where it is.
pub open spec fn line_read(received: Seq<u8>) -> (Result<Seq<u8>, MemcacheErrorView>, Seq<u8>) {
    match line_length(received) {
        Some(n) => if n > MAX_LINE_LENGTH {
            (Err(error::client_error("Ascii protocol response too long"@)), received)
        } else {
            match value::text_fault(received.take(n)) {
                Some(e) => (Err(e), received),
                None => (Ok(received.take(n)), received.skip(n)),
            }
        },
        None => if received.len() >= MAX_LINE_LENGTH {
            (Err(error::client_error("Ascii protocol response too long"@)), received)
        } else {
            (Err(no_line()), received)
        },
    }
}

/// Read a line of at most [`MAX_LINE_LENGTH`] bytes.
pub fn read_line(reader: &mut Reader) -> (r: Result<String, MemcacheError>)
    requires
        old(reader).well_formed(),
    ensures
        final(reader).well_formed(),
        final(reader)@ == line_read(old(reader)@).1,
        match r {
            Ok(line) => line_read(old(reader)@).0 == Ok::<Seq<u8>, MemcacheErrorView>(
                vstd::utf8::encode_utf8(line@),
            ),
            Err(e) => line_read(old(reader)@).0 == Err::<Seq<u8>, MemcacheErrorView>(e@),
        },
{
    let ghost given = reader@;
    let left = reader.left();
    let start = reader.position;
    let mut k: usize = 0;
    while k < left && left - k >= 2 && !(reader.received[start + k] == 13 && reader.received[start + k + 1] == 10)
        invariant
            reader.well_formed(),
            given == reader@,
            reader == old(reader),
            start == reader.position,
            left == given.len(),
            start + left == reader.received.len(),
            k <= left,
            forall|i: int|
                0 <= i < k && i + 1 < given.len() ==> !(#[trigger] given[i] == 13 && given[i + 1] == 10),
        decreases left - k,
    {
        assert(given[k as int] == reader.received@[start + k]);
        assert(given[k + 1] == reader.received@[start + k + 1]);
        k += 1;
    }
    proof {
        if k + 1 < left {
            assert(given[k as int] == reader.received@[start + k]);
            assert(given[k + 1] == reader.received@[start + k + 1]);
        }
        lemma_line_length_is(given, k as int);
    }
    if left < 2 || k > left - 2 {
        return if left >= MAX_LINE_LENGTH {
            Err(MemcacheError::client("Ascii protocol response too long"))
        } else {
            Err(MemcacheError::client("Ascii protocol no line found"))
        };
    }
    if k > MAX_LINE_LENGTH - 2 {
        return Err(MemcacheError::client("Ascii protocol response too long"));
    }
    let line = bytes::slice(reader.received.as_slice(), start, start + k + 2);
    assert(line@ =~= given.take(k + 2));
    match read_text(line) {
        Ok(text) => {
            reader.position = start + k + 2;
            assert(reader@ =~= given.skip(k + 2));
            Ok(text)
        },
        Err(e) => Err(e),
    }
}

/// What reading a line gives that may stand for an error.
pub open spec fn answer_read(received: Seq<u8>) -> (Result<Seq<u8>, MemcacheErrorView>, Seq<u8>) {
    match line_read(received) {
        (Err(e), rest) => (Err(e), rest),
        (Ok(line), rest) => match error::line_error(line) {
            Some(e) => (Err(e), rest),
            None => (Ok(line), rest),
        },
    }
}

fn read_answer(reader: &mut Reader) -> (r: Result<String, MemcacheError>)
    requires
        old(reader).well_formed(),
    ensures
        final(reader).well_formed(),
        final(reader)@ == answer_read(old(reader)@).1,
        match r {
            Ok(line) => answer_read(old(reader)@).0 == Ok::<Seq<u8>, MemcacheErrorView>(
                vstd::utf8::encode_utf8(line@),
            ),
            Err(e) => answer_read(old(reader)@).0 == Err::<Seq<u8>, MemcacheErrorView>(e@),
        },
{
    match read_line(reader) {
        Err(e) => Err(e),
        Ok(line) => match MemcacheError::from_line(line.as_str()) {
            Some(e) => Err(e),
            None => Ok(line),
        },
    }
}

/// The error of a line that was not expected.
pub open spec fn unexpected(line: Seq<u8>) -> MemcacheErrorView {
    error::bad_response(vstd::utf8::decode_utf8(line))
}

fn unexpected_line(line: &str) -> (r: MemcacheError)
    ensures
        r@ == unexpected(vstd::utf8::encode_utf8(line@)),
{
    proof {
        vstd::utf8::encode_utf8_decode_utf8(line@);
    }
    MemcacheError::bad_response(line)
}

/// What the response to one store says: whether the value was stored.
pub open spec fn store_read(received: Seq<u8>) -> (Result<bool, MemcacheErrorView>, Seq<u8>) {
    match answer_read(received) {
        (Err(e), rest) => (Err(e), rest),
        (Ok(line), rest) => if line == bytes::utf8("STORED\r\n") {
            (Ok(true), rest)
        } else if line == bytes::utf8("NOT_STORED\r\n") {
            (Ok(false), rest)
        } else if line == bytes::utf8("EXISTS\r\n") {
            (Err(binary_packet::key_exists()), rest)
        } else {
            (Err(unexpected(line)), rest)
        },
    }
}

/// Read the response to one store: whether the value was stored.
pub fn parse_store_response(reader: &mut Reader) -> (r: Result<bool, MemcacheError>)
    requires
        old(reader).well_formed(),
    ensures
        final(reader).well_formed(),
        final(reader)@ == store_read(old(reader)@).1,
        match r {
            Ok(stored) => store_read(old(reader)@).0 == Ok::<bool, MemcacheErrorView>(stored),
            Err(e) => store_read(old(reader)@).0 == Err::<bool, MemcacheErrorView>(e@),
        },
{
    match read_answer(reader) {
        Err(e) => Err(e),
        Ok(line) => {
            let wire = line.as_str().as_bytes();
            if bytes::equal(wire, "STORED\r\n".as_bytes()) {
                Ok(true)
            } else if bytes::equal(wire, "NOT_STORED\r\n".as_bytes()) {
                Ok(false)
            } else if bytes::equal(wire, "EXISTS\r\n".as_bytes()) {
                Err(MemcacheError::CommandError(CommandError::KeyExists))
            } else {
                Err(unexpected_line(line.as_str()))
            }
        },
    }
}

/// What `count` store responses say: all of them are read, the first error
/// wins, else whether every value was stored.
pub open spec fn stores_read(
    received: Seq<u8>,
    count: nat,
    all_stored: bool,
    first: Option<MemcacheErrorView>,
) -> (Result<bool, MemcacheErrorView>, Seq<u8>)
    decreases count,
{
    if count == 0 {
        (
            match first {
                Some(e) => Err(e),
                None => Ok(all_stored),
            },
            received,
        )
    } else {
        match store_read(received) {
            (Ok(stored), rest) => stores_read(rest, (count - 1) as nat, all_stored && stored, first),
            (Err(e), rest) => stores_read(
                rest,
                (count - 1) as nat,
                all_stored,
                if first is Some {
                    first
                } else {
                    Some(e)
                },
            ),
        }
    }
}

pub open spec fn error_view(error: Option<MemcacheError>) -> Option<MemcacheErrorView> {
    match error {
        Some(error) => Some(error@),
        None => None,
    }
}

/// Read the responses to `count` stores. If there were errors, return the
/// first.
pub fn parse_stores_response(reader: &mut Reader, count: usize) -> (r: Result<bool, MemcacheError>)
    requires
        old(reader).well_formed(),
    ensures
        final(reader).well_formed(),
        final(reader)@ == stores_read(old(reader)@, count as nat, true, None).1,
        match r {
            Ok(stored) => stores_read(old(reader)@, count as nat, true, None).0 == Ok::<bool, MemcacheErrorView>(
                stored,
            ),
            Err(e) => stores_read(old(reader)@, count as nat, true, None).0 == Err::<bool, MemcacheErrorView>(e@),
        },
{
    let ghost outcome = stores_read(reader@, count as nat, true, None);
    let mut all_stored = true;
    let mut first: Option<MemcacheError> = None;
    let mut left: usize = count;
    while left > 0
        invariant
            reader.well_formed(),
            outcome == stores_read(reader@, left as nat, all_stored, error_view(first)),
        decreases left,
    {
        match parse_store_response(reader) {
            Ok(stored) => {
                all_stored = all_stored && stored;
            },
            Err(e) => {
                if first.is_none() {
                    first = Some(e);
                }
            },
        }
        left = left - 1;
    }
    match first {
        Some(e) => Err(e),
        None => Ok(all_stored),
    }
}

/// What the response to a compare-and-swap says: whether the value was swapped.
pub open spec fn cas_read(received: Seq<u8>) -> Result<bool, MemcacheErrorView> {
    match store_read(received).0 {
        Ok(stored) => Ok(stored),
        Err(e) => if e == binary_packet::key_exists() || e == binary_packet::key_not_found() {
            Ok(false)
        } else {
            Err(e)
        },
    }
}

/// Read the response to a compare-and-swap.
pub fn parse_cas_response(reader: &mut Reader) -> (r: Result<bool, MemcacheError>)
    requires
        old(reader).well_formed(),
    ensures
        final(reader).well_formed(),
        final(reader)@ == store_read(old(reader)@).1,
        match r {
            Ok(swapped) => cas_read(old(reader)@) == Ok::<bool, MemcacheErrorView>(swapped),
            Err(e) => cas_read(old(reader)@) == Err::<bool, MemcacheErrorView>(e@),
        },
{
    match parse_store_response(reader) {
        Ok(stored) => Ok(stored),
        Err(MemcacheError::CommandError(CommandError::KeyExists)) => Ok(false),
        Err(MemcacheError::CommandError(CommandError::KeyNotFound)) => Ok(false),
        Err(e) => Err(e),
    }
}

/// The request for the version.
pub fn version_request() -> (r: Vec<u8>)
    ensures
        r@ == bytes::utf8("version\r\n"),
{
    bytes::copy("version\r\n".as_bytes())
}

/// A line without its line end.
pub open spec fn without_end(line: Seq<u8>) -> Seq<u8> {
    line.take(line.len() - 2)
}

/// What the response to a version request says: the bytes of the version.
pub open spec fn version_read(received: Seq<u8>) -> Result<Seq<u8>, MemcacheErrorView> {
    match answer_read(received).0 {
        Err(e) => Err(e),
        Ok(line) => if bytes::has_prefix(line, bytes::utf8("VERSION")) {
            Ok(bytes::without_prefixes(without_end(line), bytes::utf8("VERSION ")))
        } else {
            Err(unexpected(line))
        },
    }
}

/// Cut the line end off a line that was read.
fn cut_end(line: &String, Ghost(received): Ghost<Seq<u8>>) -> (r: Vec<u8>)
    requires
        answer_read(received).0 == Ok::<Seq<u8>, MemcacheErrorView>(vstd::utf8::encode_utf8(line@)),
    ensures
        r@ == without_end(vstd::utf8::encode_utf8(line@)),
        vstd::utf8::valid_utf8(r@),
{
    let wire = line.as_str().as_bytes();
    proof {
        lemma_line_length(received);
        vstd::utf8::encode_utf8_valid_utf8(line@);
        bytes::lemma_ascii_cut(wire@, wire@.len() - 2);
    }
    let r = bytes::slice(wire, 0, wire.len() - 2);
    assert(r@ =~= without_end(wire@));
    r
}

/// Read the response to a version request.
pub fn parse_version_response(reader: &mut Reader) -> (r: Result<String, MemcacheError>)
    requires
        old(reader).well_formed(),
    ensures
        final(reader).well_formed(),
        final(reader)@ == answer_read(old(reader)@).1,
        match r {
            Ok(version) => version_read(old(reader)@) == Ok::<Seq<u8>, MemcacheErrorView>(
                vstd::utf8::encode_utf8(version@),
            ),
            Err(e) => version_read(old(reader)@) == Err::<Seq<u8>, MemcacheErrorView>(e@),
        },
{
    let ghost given = reader@;
    let line = match read_answer(reader) {
        Ok(line) => line,
        Err(e) => {
            return Err(e);
        },
    };
    if !bytes::starts_with(line.as_str().as_bytes(), "VERSION".as_bytes()) {
        return Err(unexpected_line(line.as_str()));
    }
    let body = cut_end(&line, Ghost(given));
    proof {
        vstd::utf8::encode_utf8_valid_utf8("VERSION "@);
        bytes::lemma_without_prefixes_valid(body@, bytes::utf8("VERSION "));
    }
    read_text(bytes::trim_prefixes(body.as_slice(), "VERSION ".as_bytes()))
}

/// Why a response is no `OK`, if it is none.
pub open spec fn ok_fault(received: Seq<u8>) -> Option<MemcacheErrorView> {
    match answer_read(received).0 {
        Err(e) => Some(e),
        Ok(line) => if line == bytes::utf8("OK\r\n") {
            None
        } else {
            Some(unexpected(line))
        },
    }
}

/// Read the response to a flush.
pub fn parse_ok_response(reader: &mut Reader) -> (r: Result<(), MemcacheError>)
    requires
        old(reader).well_formed(),
    ensures
        final(reader).well_formed(),
        final(reader)@ == answer_read(old(reader)@).1,
        match r {
            Ok(_) => ok_fault(old(reader)@) is None,
            Err(e) => ok_fault(old(reader)@) == Some(e@),
        },
{
    match read_answer(reader) {
        Err(e) => Err(e),
        Ok(line) => {
            if bytes::equal(line.as_str().as_bytes(), "OK\r\n".as_bytes()) {
                Ok(())
            } else {
                Err(unexpected_line(line.as_str()))
            }
        },
    }
}

/// The request that flushes everything now.
pub fn flush_request() -> (r: Vec<u8>)
    ensures
        r@ == bytes::utf8("flush_all\r\n"),
{
    bytes::copy("flush_all\r\n".as_bytes())
}

/// The request that flushes everything after `delay` seconds.
pub fn flush_with_delay_request(delay: u32) -> (r: Vec<u8>)
    ensures
        r@ == bytes::utf8("flush_all ") + decimal::decimal(delay as nat) + bytes::crlf(),
{
    let mut wire: Vec<u8> = bytes::copy("flush_all ".as_bytes());
    push_number(&mut wire, delay as u64);
    bytes::append_crlf(&mut wire);
    wire
}

/// Keys joined by spaces.
pub open spec fn joined(keys: Seq<String>) -> Seq<u8>
    decreases keys.len(),
{
    if keys.len() == 0 {
        Seq::empty()
    } else if keys.len() == 1 {
        vstd::utf8::encode_utf8(keys[0]@)
    } else {
        joined(keys.drop_last()) + space() + vstd::utf8::encode_utf8(keys.last()@)
    }
}

/// The request for the items of many keys, with their CAS tokens.
pub fn gets_request(keys: &Vec<String>) -> (r: Result<Vec<u8>, MemcacheError>)
    ensures
        match r {
            Ok(wire) => client::all_fit(keys@) && wire@ == bytes::utf8("gets ") + joined(keys@) + bytes::crlf(),
            Err(e) => !client::all_fit(keys@) && e@ == client::key_too_long(),
        },
{
    let mut list: Vec<u8> = Vec::new();
    let mut i: usize = 0;
    assert(keys@.take(0) =~= Seq::<String>::empty());
    while i < keys.len()
        invariant
            i <= keys@.len(),
            list@ == joined(keys@.take(i as int)),
            forall|k: int| 0 <= k < i ==> client::key_fits(vstd::utf8::encode_utf8(#[trigger] keys@[k]@)),
        decreases keys@.len() - i,
    {
        assert(keys@.take(i + 1).drop_last() =~= keys@.take(i as int));
        match check_key_len(keys[i].as_str()) {
            Ok(_) => {},
            Err(e) => {
                assert(!client::key_fits(vstd::utf8::encode_utf8(keys@[i as int]@)));
                return Err(e);
            },
        }
        if i > 0 {
            push_text(&mut list, " ");
        }
        push_text(&mut list, keys[i].as_str());
        assert(list@ =~= joined(keys@.take(i + 1)));
        i += 1;
    }
    assert(keys@.take(i as int) =~= keys@);
    let mut wire: Vec<u8> = bytes::copy("gets ".as_bytes());
    bytes::append(&mut wire, list.as_slice());
    bytes::append_crlf(&mut wire);
    Ok(wire)
}

/// The request for the item of one key, with its CAS token.
pub fn get_request(key: &str) -> (r: Vec<u8>)
    ensures
        r@ == bytes::utf8("gets ") + bytes::utf8(key) + bytes::crlf(),
{
    let mut wire: Vec<u8> = bytes::copy("gets ".as_bytes());
    push_text(&mut wire, key);
    bytes::append_crlf(&mut wire);
    wire
}

/// What a value line announces.
pub struct ValueLine {
    pub key: Seq<u8>,
    pub flags: u32,
    pub length: usize,
    pub cas: Option<u64>,
}

pub open spec fn int_fault(kind: decimal::IntErrorKind) -> MemcacheErrorView {
    MemcacheErrorView::ParseError(ParseErrorView::Int(kind))
}

/// What the fields of a value line announce: the word `VALUE`, the key, the
/// flags, the length and, where it was asked for, the CAS token.
pub open spec fn value_fields(fields: Seq<Seq<u8>>, has_cas: bool, line: Seq<u8>) -> Result<
    ValueLine,
    MemcacheErrorView,
> {
    if fields.len() < 3 {
        Err(unexpected(line))
    } else {
        match decimal::parse_unsigned(fields[2], u32::MAX as nat) {
            Err(kind) => Err(int_fault(kind)),
            Ok(flags) => if fields.len() < 4 {
                Err(unexpected(line))
            } else {
                match decimal::parse_unsigned(fields[3], usize::MAX as nat) {
                    Err(kind) => Err(int_fault(kind)),
                    Ok(length) => if !has_cas {
                        if fields.len() > 4 {
                            Err(unexpected(line))
                        } else {
                            Ok(ValueLine { key: fields[1], flags: flags as u32, length: length as usize, cas: None })
                        }
                    } else if fields.len() < 5 {
                        Err(unexpected(line))
                    } else {
                        match decimal::parse_unsigned(fields[4], u64::MAX as nat) {
                            Err(kind) => Err(int_fault(kind)),
                            Ok(cas) => if fields.len() > 5 {
                                Err(unexpected(line))
                            } else {
                                Ok(
                                    ValueLine {
                                        key: fields[1],
                                        flags: flags as u32,
                                        length: length as usize,
                                        cas: Some(cas as u64),
                                    },
                                )
                            },
                        }
                    },
                }
            },
        }
    }
}

/// What a line of a get response announces: nothing for the line that ends it.
pub open spec fn value_line(line: Seq<u8>, has_cas: bool) -> Result<Option<ValueLine>, MemcacheErrorView> {
    if line == bytes::utf8("END\r\n") {
        Ok(None)
    } else if !bytes::has_prefix(line, bytes::utf8("VALUE")) {
        Err(unexpected(line))
    } else {
        match value_fields(bytes::fields(without_end(line)), has_cas, line) {
            Ok(announced) => Ok(Some(announced)),
            Err(e) => Err(e),
        }
    }
}

/// A value line that was read.
struct Announced {
    key: String,
    flags: u32,
    length: usize,
    cas: Option<u64>,
}

impl Announced {
    spec fn is(self, line: ValueLine) -> bool {
        vstd::utf8::encode_utf8(self.key@) == line.key && self.flags == line.flags && self.length == line.length
            && self.cas == line.cas
    }
}

fn read_number(field: &Vec<u8>, max: u64) -> (r: Result<u64, MemcacheError>)
    requires
        max >= 9,
    ensures
        match r {
            Ok(n) => decimal::parse_unsigned(field@, max as nat) == Ok::<nat, decimal::IntErrorKind>(n as nat) && n
                <= max,
            Err(e) => decimal::parse_unsigned(field@, max as nat) matches Err(kind) && e@ == int_fault(kind),
        },
{
    match decimal::read_unsigned(field.as_slice(), max as u128) {
        Ok(n) => Ok(n as u64),
        Err(kind) => Err(MemcacheError::ParseError(ParseError::Int(kind))),
    }
}

fn parse_value_line(line: &String, has_cas: bool, Ghost(received): Ghost<Seq<u8>>) -> (r: Result<
    Option<Announced>,
    MemcacheError,
>)
    requires
        answer_read(received).0 == Ok::<Seq<u8>, MemcacheErrorView>(vstd::utf8::encode_utf8(line@)),
    ensures
        match r {
            Ok(Some(announced)) => value_line(vstd::utf8::encode_utf8(line@), has_cas) matches Ok(Some(expected))
                && announced.is(expected),
            Ok(None) => value_line(vstd::utf8::encode_utf8(line@), has_cas) == Ok::<
                Option<ValueLine>,
                MemcacheErrorView,
            >(None),
            Err(e) => value_line(vstd::utf8::encode_utf8(line@), has_cas) == Err::<
                Option<ValueLine>,
                MemcacheErrorView,
            >(e@),
        },
{
    let wire = line.as_str().as_bytes();
    if bytes::equal(wire, "END\r\n".as_bytes()) {
        return Ok(None);
    }
    if !bytes::starts_with(wire, "VALUE".as_bytes()) {
        return Err(unexpected_line(line.as_str()));
    }
    let body = cut_end(line, Ghost(received));
    let fields = bytes::split_fields(body.as_slice());
    proof {
        bytes::lemma_fields_valid(body@);
        assert(forall|i: int| 0 <= i < fields@.len() ==> #[trigger] fields@[i]@ == bytes::fields(body@)[i]);
    }
    if fields.len() < 3 {
        return Err(unexpected_line(line.as_str()));
    }
    let flags = match read_number(&fields[2], u32::MAX as u64) {
        Ok(n) => n as u32,
        Err(e) => {
            return Err(e);
        },
    };
    if fields.len() < 4 {
        return Err(unexpected_line(line.as_str()));
    }
    let length = match read_number(&fields[3], usize::MAX as u64) {
        Ok(n) => n as usize,
        Err(e) => {
            return Err(e);
        },
    };
    let mut cas: Option<u64> = None;
    if has_cas {
        if fields.len() < 5 {
            return Err(unexpected_line(line.as_str()));
        }
        match read_number(&fields[4], u64::MAX) {
            Ok(n) => cas = Some(n),
            Err(e) => {
                return Err(e);
            },
        }
        if fields.len() > 5 {
            return Err(unexpected_line(line.as_str()));
        }
    } else if fields.len() > 4 {
        return Err(unexpected_line(line.as_str()));
    }
    assert(vstd::utf8::valid_utf8(bytes::fields(body@)[1]));
    match read_text(bytes::copy(fields[1].as_slice())) {
        Ok(key) => Ok(Some(Announced { key, flags, length, cas })),
        Err(e) => Err(e),
    }
}

/// What a data block of `length` bytes holds, and what is left to read.
pub open spec fn block_read(received: Seq<u8>, length: int) -> (Result<Seq<u8>, MemcacheErrorView>, Seq<u8>) {
    if received.len() < length + 2 {
        (Err(reader::short_read()), Seq::empty())
    } else if received.subrange(length, length + 2) == bytes::crlf() {
        (Ok(received.take(length)), received.skip(length + 2))
    } else {
        (
            Err(
                match value::text_fault(received.take(length + 2)) {
                    Some(e) => e,
                    None => unexpected(received.take(length + 2)),
                },
            ),
            received.skip(length + 2),
        )
    }
}

fn read_block(reader: &mut Reader, length: usize) -> (r: Result<Vec<u8>, MemcacheError>)
    requires
        old(reader).well_formed(),
    ensures
        final(reader).well_formed(),
        final(reader)@ == block_read(old(reader)@, length as int).1,
        match r {
            Ok(block) => block_read(old(reader)@, length as int).0 == Ok::<Seq<u8>, MemcacheErrorView>(block@),
            Err(e) => block_read(old(reader)@, length as int).0 == Err::<Seq<u8>, MemcacheErrorView>(e@),
        },
{
    let ghost given = reader@;
    let left = reader.left();
    if left < 2 || length > left - 2 {
        reader.position = reader.received.len();
        assert(reader@ =~= Seq::<u8>::empty());
        return Err(reader::short_read_error());
    }
    match reader.read_exact(length + 2) {
        Err(e) => Err(e),
        Ok(block) => {
            proof {
                let tail = given.subrange(length as int, length + 2);
                assert(tail[0] == block@[length as int] && tail[1] == block@[length + 1]);
                assert(tail =~= bytes::crlf() <==> tail[0] == 13 && tail[1] == 10);
            }
            if block[length] == 13 && block[length + 1] == 10 {
                let body = bytes::slice(block.as_slice(), 0, length);
                assert(body@ =~= given.take(length as int));
                Ok(body)
            } else {
                match read_text(block) {
                    Err(e) => Err(e),
                    Ok(shown) => Err(unexpected_line(shown.as_str())),
                }
            }
        },
    }
}

/// One item of a get response: its name, bytes, flags and CAS token.
pub struct Item {
    pub key: Seq<char>,
    pub value: Seq<u8>,
    pub flags: u32,
    pub cas: Option<u64>,
}

/// What the next entry of a get response says: an item, or nothing at its end.
pub open spec fn entry_read<V: FromMemcacheValueExt>(received: Seq<u8>, has_cas: bool) -> (
    Result<Option<Item>, MemcacheErrorView>,
    Seq<u8>,
) {
    match answer_read(received) {
        (Err(e), rest) => (Err(e), rest),
        (Ok(line), rest) => match value_line(line, has_cas) {
            Err(e) => (Err(e), rest),
            Ok(None) => (Ok(None), rest),
            Ok(Some(announced)) => match block_read(rest, announced.length as int) {
                (Err(e), rest) => (Err(e), rest),
                (Ok(block), rest) => match V::value_fault_ext(block, announced.flags, announced.cas) {
                    Some(e) => (Err(e), rest),
                    None => (
                        Ok(
                            Some(
                                Item {
                                    key: vstd::utf8::decode_utf8(announced.key),
                                    value: block,
                                    flags: announced.flags,
                                    cas: announced.cas,
                                },
                            ),
                        ),
                        rest,
                    ),
                },
            },
        },
    }
}

/// Whether a named value is the item.
pub open spec fn is_item<V: FromMemcacheValueExt>(item: Item, key: Seq<char>, value: V) -> bool {
    key == item.key && V::stands_for_ext(item.value, item.flags, item.cas, value)
}

/// Read the next entry of a get response.
pub fn parse_get_entry<V: FromMemcacheValueExt>(reader: &mut Reader, has_cas: bool) -> (r: Result<
    Option<(String, V)>,
    MemcacheError,
>)
    requires
        old(reader).well_formed(),
    ensures
        final(reader).well_formed(),
        final(reader)@ == entry_read::<V>(old(reader)@, has_cas).1,
        match r {
            Ok(Some((key, value))) => entry_read::<V>(old(reader)@, has_cas).0 matches Ok(Some(item)) && is_item(
                item,
                key@,
                value,
            ),
            Ok(None) => entry_read::<V>(old(reader)@, has_cas).0 == Ok::<Option<Item>, MemcacheErrorView>(None),
            Err(e) => entry_read::<V>(old(reader)@, has_cas).0 == Err::<Option<Item>, MemcacheErrorView>(e@),
        },
{
    let ghost given = reader@;
    let line = match read_answer(reader) {
        Ok(line) => line,
        Err(e) => {
            return Err(e);
        },
    };
    let announced = match parse_value_line(&line, has_cas, Ghost(given)) {
        Ok(Some(announced)) => announced,
        Ok(None) => {
            return Ok(None);
        },
        Err(e) => {
            return Err(e);
        },
    };
    let block = match read_block(reader, announced.length) {
        Ok(block) => block,
        Err(e) => {
            return Err(e);
        },
    };
    proof {
        vstd::utf8::encode_utf8_decode_utf8(announced.key@);
    }
    match <V as FromMemcacheValueExt>::from_memcache_value(block, announced.flags, announced.cas) {
        Ok(value) => Ok(Some((announced.key, value))),
        Err(e) => Err(e),
    }
}

/// What the response to a get of `key` says: the item, or nothing where there
/// is none.
pub open spec fn get_read<V: FromMemcacheValueExt>(received: Seq<u8>, key: Seq<char>) -> (
    Result<Option<Item>, MemcacheErrorView>,
    Seq<u8>,
) {
    match entry_read::<V>(received, true) {
        (Err(e), rest) => (Err(e), rest),
        (Ok(None), rest) => (Ok(None), rest),
        (Ok(Some(item)), rest) => if item.key != key {
            (Err(error::bad_response("key doesn't match in the response"@)), rest)
        } else {
            match entry_read::<V>(rest, true) {
                (Err(e), rest) => (Err(e), rest),
                (Ok(None), rest) => (Ok(Some(item)), rest),
                (Ok(Some(_)), rest) => (Err(error::bad_response("Expected end of get response"@)), rest),
            }
        },
    }
}

/// Read the response to a get of one key.
pub fn parse_get_response<V: FromMemcacheValueExt>(reader: &mut Reader, key: &str) -> (r: Result<
    Option<V>,
    MemcacheError,
>)
    requires
        old(reader).well_formed(),
    ensures
        final(reader).well_formed(),
        final(reader)@ == get_read::<V>(old(reader)@, key@).1,
        match r {
            Ok(Some(value)) => get_read::<V>(old(reader)@, key@).0 matches Ok(Some(item)) && is_item(item, key@, value),
            Ok(None) => get_read::<V>(old(reader)@, key@).0 == Ok::<Option<Item>, MemcacheErrorView>(None),
            Err(e) => get_read::<V>(old(reader)@, key@).0 == Err::<Option<Item>, MemcacheErrorView>(e@),
        },
{
    let (found, value) = match parse_get_entry::<V>(reader, true) {
        Ok(Some(entry)) => entry,
        Ok(None) => {
            return Ok(None);
        },
        Err(e) => {
            return Err(e);
        },
    };
    if !found.eq(&key.to_string()) {
        return Err(MemcacheError::bad_response("key doesn't match in the response"));
    }
    match parse_get_entry::<V>(reader, true) {
        Ok(None) => Ok(Some(value)),
        Ok(Some(_)) => Err(MemcacheError::bad_response("Expected end of get response")),
        Err(e) => Err(e),
    }
}

/// What the response to a multi-get says: items up to its end.
pub open spec fn gets_read<V: FromMemcacheValueExt>(received: Seq<u8>, so_far: Items, left: nat) -> (
    Result<Items, MemcacheErrorView>,
    Seq<u8>,
)
    decreases left,
{
    match entry_read::<V>(received, true) {
        (Err(e), rest) => (Err(e), rest),
        (Ok(None), rest) => (Ok(so_far), rest),
        (Ok(Some(item)), rest) => if left == 0 {
            (Err(error::bad_response("Expected end of gets response"@)), rest)
        } else {
            gets_read::<V>(
                rest,
                pairs::put(so_far, item.key, (item.value, item.flags, item.cas->0)),
                (left - 1) as nat,
            )
        },
    }
}

proof fn lemma_entry_has_cas<V: FromMemcacheValueExt>(received: Seq<u8>)
    ensures
        entry_read::<V>(received, true).0 matches Ok(Some(item)) ==> item.cas is Some,
{
}

/// Read the response to a multi-get of `count` keys. There will be at most that
/// many items and the end of the response. A key that is answered twice keeps
/// the later value.
pub fn parse_gets_response<V: FromMemcacheValueExt>(reader: &mut Reader, count: usize) -> (r: Result<
    Vec<(String, V)>,
    MemcacheError,
>)
    requires
        old(reader).well_formed(),
    ensures
        final(reader).well_formed(),
        final(reader)@ == gets_read::<V>(old(reader)@, Seq::empty(), count as nat).1,
        match r {
            Ok(list) => gets_read::<V>(old(reader)@, Seq::empty(), count as nat).0 matches Ok(items)
                && binary_packet::holds_items(list@, items),
            Err(e) => gets_read::<V>(old(reader)@, Seq::empty(), count as nat).0 == Err::<Items, MemcacheErrorView>(
                e@,
            ),
        },
{
    let ghost outcome = gets_read::<V>(reader@, Seq::empty(), count as nat);
    let ghost mut items: Items = Seq::empty();
    let mut result: Vec<(String, V)> = Vec::new();
    let mut left: usize = count;
    loop
        invariant
            reader.well_formed(),
            outcome == gets_read::<V>(old(reader)@, Seq::empty(), count as nat),
            outcome == gets_read::<V>(reader@, items, left as nat),
            binary_packet::holds_items(result@, items),
        decreases left,
    {
        let ghost given = reader@;
        match parse_get_entry::<V>(reader, true) {
            Err(e) => {
                return Err(e);
            },
            Ok(None) => {
                return Ok(result);
            },
            Ok(Some((key, value))) => {
                if left == 0 {
                    return Err(MemcacheError::bad_response("Expected end of gets response"));
                }
                let ghost before = result@;
                let ghost name = key@;
                let ghost v = value;
                let ghost item = entry_read::<V>(given, true).0->Ok_0->0;
                let ghost plain = (item.value, item.flags, item.cas->0);
                pairs::insert(&mut result, key, value);
                proof {
                    lemma_entry_has_cas::<V>(given);
                    binary_packet::lemma_holds_put(before, result@, items, name, v, plain);
                    items = pairs::put(items, name, plain);
                }
                left = left - 1;
            },
        }
    }
}

/// The request of many deletes.
pub open spec fn deletes_wire(keys: Seq<String>) -> Seq<u8>
    decreases keys.len(),
{
    if keys.len() == 0 {
        Seq::empty()
    } else {
        deletes_wire(keys.drop_last()) + bytes::utf8("delete ") + vstd::utf8::encode_utf8(keys.last()@) + bytes::crlf()
    }
}

/// Encode the request of many deletes.
pub fn deletes_request(keys: &Vec<String>) -> (r: Result<Vec<u8>, MemcacheError>)
    ensures
        match r {
            Ok(wire) => client::all_fit(keys@) && wire@ == deletes_wire(keys@),
            Err(e) => !client::all_fit(keys@) && e@ == client::key_too_long(),
        },
{
    let mut wire: Vec<u8> = Vec::new();
    let mut i: usize = 0;
    assert(keys@.take(0) =~= Seq::<String>::empty());
    while i < keys.len()
        invariant
            i <= keys@.len(),
            wire@ == deletes_wire(keys@.take(i as int)),
            forall|k: int| 0 <= k < i ==> client::key_fits(vstd::utf8::encode_utf8(#[trigger] keys@[k]@)),
        decreases keys@.len() - i,
    {
        assert(keys@.take(i + 1).drop_last() =~= keys@.take(i as int));
        match check_key_len(keys[i].as_str()) {
            Ok(_) => {},
            Err(e) => {
                assert(!client::key_fits(vstd::utf8::encode_utf8(keys@[i as int]@)));
                return Err(e);
            },
        }
        push_text(&mut wire, "delete ");
        push_text(&mut wire, keys[i].as_str());
        bytes::append_crlf(&mut wire);
        i += 1;
    }
    assert(keys@.take(i as int) =~= keys@);
    Ok(wire)
}

/// The request of one delete.
pub fn delete_request(key: &str) -> (r: Result<Vec<u8>, MemcacheError>)
    ensures
        match r {
            Ok(wire) => client::key_fits(bytes::utf8(key)) && wire@ == bytes::utf8("delete ") + bytes::utf8(key)
                + bytes::crlf(),
            Err(e) => !client::key_fits(bytes::utf8(key)) && e@ == client::key_too_long(),
        },
{
    match check_key_len(key) {
        Ok(_) => {},
        Err(e) => {
            return Err(e);
        },
    }
    let mut wire: Vec<u8> = bytes::copy("delete ".as_bytes());
    push_text(&mut wire, key);
    bytes::append_crlf(&mut wire);
    Ok(wire)
}

/// What a response says that is one word or that the key was not found.
pub open spec fn done_read(received: Seq<u8>, word: Seq<u8>) -> (Result<bool, MemcacheErrorView>, Seq<u8>) {
    match answer_read(received) {
        (Ok(line), rest) => if line == word {
            (Ok(true), rest)
        } else {
            (Err(unexpected(line)), rest)
        },
        (Err(e), rest) => if e == binary_packet::key_not_found() {
            (Ok(false), rest)
        } else {
            (Err(e), rest)
        },
    }
}

fn parse_done(reader: &mut Reader, word: &str) -> (r: Result<bool, MemcacheError>)
    requires
        old(reader).well_formed(),
    ensures
        final(reader).well_formed(),
        final(reader)@ == done_read(old(reader)@, bytes::utf8(word)).1,
        match r {
            Ok(found) => done_read(old(reader)@, bytes::utf8(word)).0 == Ok::<bool, MemcacheErrorView>(found),
            Err(e) => done_read(old(reader)@, bytes::utf8(word)).0 == Err::<bool, MemcacheErrorView>(e@),
        },
{
    match read_answer(reader) {
        Ok(line) => {
            if bytes::equal(line.as_str().as_bytes(), word.as_bytes()) {
                Ok(true)
            } else {
                Err(unexpected_line(line.as_str()))
            }
        },
        Err(MemcacheError::CommandError(CommandError::KeyNotFound)) => Ok(false),
        Err(e) => Err(e),
    }
}

/// What `count` delete responses say: all of them are read, the first error
/// wins, else whether each key was there.
pub open spec fn deletes_read(
    received: Seq<u8>,
    count: nat,
    so_far: Seq<bool>,
    first: Option<MemcacheErrorView>,
) -> (Result<Seq<bool>, MemcacheErrorView>, Seq<u8>)
    decreases count,
{
    if count == 0 {
        (
            match first {
                Some(e) => Err(e),
                None => Ok(so_far),
            },
            received,
        )
    } else {
        match done_read(received, bytes::utf8("DELETED\r\n")) {
            (Ok(found), rest) => deletes_read(rest, (count - 1) as nat, so_far.push(found), first),
            (Err(e), rest) => deletes_read(
                rest,
                (count - 1) as nat,
                so_far,
                if first is Some {
                    first
                } else {
                    Some(e)
                },
            ),
        }
    }
}

/// Read the responses to `count` deletes. If there were errors, return the
/// first.
pub fn parse_deletes_response(reader: &mut Reader, count: usize) -> (r: Result<Vec<bool>, MemcacheError>)
    requires
        old(reader).well_formed(),
    ensures
        final(reader).well_formed(),
        final(reader)@ == deletes_read(old(reader)@, count as nat, Seq::empty(), None).1,
        match r {
            Ok(list) => deletes_read(old(reader)@, count as nat, Seq::empty(), None).0 == Ok::<
                Seq<bool>,
                MemcacheErrorView,
            >(list@),
            Err(e) => deletes_read(old(reader)@, count as nat, Seq::empty(), None).0 == Err::<
                Seq<bool>,
                MemcacheErrorView,
            >(e@),
        },
{
    let ghost outcome = deletes_read(reader@, count as nat, Seq::empty(), None);
    let mut list: Vec<bool> = Vec::new();
    let mut first: Option<MemcacheError> = None;
    let mut left: usize = count;
    while left > 0
        invariant
            reader.well_formed(),
            outcome == deletes_read(reader@, left as nat, list@, error_view(first)),
        decreases left,
    {
        match parse_done(reader, "DELETED\r\n") {
            Ok(found) => list.push(found),
            Err(e) => {
                if first.is_none() {
                    first = Some(e);
                }
            },
        }
        left = left - 1;
    }
    match first {
        Some(e) => Err(e),
        None => Ok(list),
    }
}

/// Read the response to one delete: whether the key was there.
pub fn parse_delete_response(reader: &mut Reader) -> (r: Result<bool, MemcacheError>)
    requires
        old(reader).well_formed(),
    ensures
        final(reader).well_formed(),
        final(reader)@ == done_read(old(reader)@, bytes::utf8("DELETED\r\n")).1,
        match r {
            Ok(found) => done_read(old(reader)@, bytes::utf8("DELETED\r\n")).0 == Ok::<bool, MemcacheErrorView>(found),
            Err(e) => done_read(old(reader)@, bytes::utf8("DELETED\r\n")).0 == Err::<bool, MemcacheErrorView>(e@),
        },
{
    parse_done(reader, "DELETED\r\n")
}

/// The request of a command on a key with a number.
pub open spec fn keyed_wire(command: Seq<u8>, key: Seq<u8>, n: nat) -> Seq<u8> {
    command + key + space() + decimal::decimal(n) + bytes::crlf()
}

fn keyed_request(command: &str, key: &str, n: u64) -> (r: Result<Vec<u8>, MemcacheError>)
    ensures
        match r {
            Ok(wire) => client::key_fits(bytes::utf8(key)) && wire@ == keyed_wire(
                bytes::utf8(command),
                bytes::utf8(key),
                n as nat,
            ),
            Err(e) => !client::key_fits(bytes::utf8(key)) && e@ == client::key_too_long(),
        },
{
    match check_key_len(key) {
        Ok(_) => {},
        Err(e) => {
            return Err(e);
        },
    }
    let mut wire: Vec<u8> = bytes::copy(command.as_bytes());
    push_text(&mut wire, key);
    push_text(&mut wire, " ");
    push_number(&mut wire, n);
    bytes::append_crlf(&mut wire);
    Ok(wire)
}

/// The request that increments a counter.
pub fn increment_request(key: &str, amount: u64) -> (r: Result<Vec<u8>, MemcacheError>)
    ensures
        match r {
            Ok(wire) => client::key_fits(bytes::utf8(key)) && wire@ == keyed_wire(
                bytes::utf8("incr "),
                bytes::utf8(key),
                amount as nat,
            ),
            Err(e) => !client::key_fits(bytes::utf8(key)) && e@ == client::key_too_long(),
        },
{
    keyed_request("incr ", key, amount)
}

/// The request that decrements a counter.
pub fn decrement_request(key: &str, amount: u64) -> (r: Result<Vec<u8>, MemcacheError>)
    ensures
        match r {
            Ok(wire) => client::key_fits(bytes::utf8(key)) && wire@ == keyed_wire(
                bytes::utf8("decr "),
                bytes::utf8(key),
                amount as nat,
            ),
            Err(e) => !client::key_fits(bytes::utf8(key)) && e@ == client::key_too_long(),
        },
{
    keyed_request("decr ", key, amount)
}

/// The request that gives a key a new expiration time.
pub fn touch_request(key: &str, expiration: u32) -> (r: Result<Vec<u8>, MemcacheError>)
    ensures
        match r {
            Ok(wire) => client::key_fits(bytes::utf8(key)) && wire@ == keyed_wire(
                bytes::utf8("touch "),
                bytes::utf8(key),
                expiration as nat,
            ),
            Err(e) => !client::key_fits(bytes::utf8(key)) && e@ == client::key_too_long(),
        },
{
    keyed_request("touch ", key, expiration as u64)
}

/// What the response to a counter operation says: the counter's value.
pub open spec fn counter_read(received: Seq<u8>) -> Result<u64, MemcacheErrorView> {
    match answer_read(received).0 {
        Err(e) => Err(e),
        Ok(line) => match decimal::parse_unsigned(without_end(line), u64::MAX as nat) {
            Ok(n) => Ok(n as u64),
            Err(kind) => Err(int_fault(kind)),
        },
    }
}

/// Read the response to a counter operation.
pub fn parse_u64_response(reader: &mut Reader) -> (r: Result<u64, MemcacheError>)
    requires
        old(reader).well_formed(),
    ensures
        final(reader).well_formed(),
        final(reader)@ == answer_read(old(reader)@).1,
        match r {
            Ok(n) => counter_read(old(reader)@) == Ok::<u64, MemcacheErrorView>(n),
            Err(e) => counter_read(old(reader)@) == Err::<u64, MemcacheErrorView>(e@),
        },
{
    let ghost given = reader@;
    match read_answer(reader) {
        Err(e) => Err(e),
        Ok(line) => {
            let body = cut_end(&line, Ghost(given));
            read_number(&body, u64::MAX)
        },
    }
}

/// Read the response to a touch: whether the key was there.
pub fn parse_touch_response(reader: &mut Reader) -> (r: Result<bool, MemcacheError>)
    requires
        old(reader).well_formed(),
    ensures
        final(reader).well_formed(),
        final(reader)@ == done_read(old(reader)@, bytes::utf8("TOUCHED\r\n")).1,
        match r {
            Ok(found) => done_read(old(reader)@, bytes::utf8("TOUCHED\r\n")).0 == Ok::<bool, MemcacheErrorView>(found),
            Err(e) => done_read(old(reader)@, bytes::utf8("TOUCHED\r\n")).0 == Err::<bool, MemcacheErrorView>(e@),
        },
{
    parse_done(reader, "TOUCHED\r\n")
}

/// The request for the statistics.
pub fn stats_request() -> (r: Vec<u8>)
    ensures
        r@ == bytes::utf8("stats\r\n"),
{
    bytes::copy("stats\r\n".as_bytes())
}

/// What a line of a statistics response names, and the rest of the line.
pub open spec fn stat_line(line: Seq<u8>) -> Result<(Seq<u8>, Seq<u8>), MemcacheErrorView> {
    let fields = bytes::fields(without_end(line));
    if !bytes::has_prefix(line, bytes::utf8("STAT")) || fields.len() < 3 {
        Err(unexpected(line))
    } else {
        Ok((fields[1], bytes::without_prefixes(line, bytes::utf8("STAT ") + fields[1])))
    }
}

/// What the response to a statistics request says: named values up to its end.
pub open spec fn stats_read(received: Seq<u8>, so_far: Seq<(Seq<char>, Seq<char>)>) -> (
    Result<Seq<(Seq<char>, Seq<char>)>, MemcacheErrorView>,
    Seq<u8>,
)
    decreases received.len(),
{
    match answer_read(received) {
        (Err(e), rest) => (Err(e), rest),
        (Ok(line), rest) => if line == bytes::utf8("END\r\n") {
            (Ok(so_far), rest)
        } else {
            match stat_line(line) {
                Err(e) => (Err(e), rest),
                Ok((name, text)) => if rest.len() < received.len() {
                    stats_read(
                        rest,
                        pairs::put(so_far, vstd::utf8::decode_utf8(name), vstd::utf8::decode_utf8(text)),
                    )
                } else {
                    (Ok(so_far), rest)
                },
            }
        },
    }
}

fn parse_stat_line(line: &String, Ghost(received): Ghost<Seq<u8>>) -> (r: Result<(String, String), MemcacheError>)
    requires
        answer_read(received).0 == Ok::<Seq<u8>, MemcacheErrorView>(vstd::utf8::encode_utf8(line@)),
    ensures
        match r {
            Ok((name, text)) => stat_line(vstd::utf8::encode_utf8(line@)) == Ok::<
                (Seq<u8>, Seq<u8>),
                MemcacheErrorView,
            >((vstd::utf8::encode_utf8(name@), vstd::utf8::encode_utf8(text@))),
            Err(e) => stat_line(vstd::utf8::encode_utf8(line@)) == Err::<(Seq<u8>, Seq<u8>), MemcacheErrorView>(e@),
        },
{
    let wire = line.as_str().as_bytes();
    if !bytes::starts_with(wire, "STAT".as_bytes()) {
        return Err(unexpected_line(line.as_str()));
    }
    let body = cut_end(line, Ghost(received));
    let fields = bytes::split_fields(body.as_slice());
    proof {
        bytes::lemma_fields_valid(body@);
        assert(forall|i: int| 0 <= i < fields@.len() ==> #[trigger] fields@[i]@ == bytes::fields(body@)[i]);
    }
    if fields.len() < 3 {
        return Err(unexpected_line(line.as_str()));
    }
    let mut prefix: Vec<u8> = bytes::copy("STAT ".as_bytes());
    bytes::append(&mut prefix, fields[1].as_slice());
    proof {
        assert(vstd::utf8::valid_utf8(bytes::fields(body@)[1]));
        vstd::utf8::encode_utf8_valid_utf8("STAT "@);
        vstd::utf8::valid_utf8_concat(bytes::utf8("STAT "), fields@[1]@);
        vstd::utf8::encode_utf8_valid_utf8(line@);
        bytes::lemma_without_prefixes_valid(wire@, prefix@);
    }
    let rest = bytes::trim_prefixes(wire, prefix.as_slice());
    let name = match read_text(bytes::copy(fields[1].as_slice())) {
        Ok(name) => name,
        Err(e) => {
            return Err(e);
        },
    };
    match read_text(rest) {
        Ok(text) => Ok((name, text)),
        Err(e) => Err(e),
    }
}

/// Read the response to a statistics request.
pub fn parse_stats_response(reader: &mut Reader) -> (r: Result<Vec<(String, String)>, MemcacheError>)
    requires
        old(reader).well_formed(),
    ensures
        final(reader).well_formed(),
        final(reader)@ == stats_read(old(reader)@, Seq::empty()).1,
        match r {
            Ok(list) => stats_read(old(reader)@, Seq::empty()).0 == Ok::<
                Seq<(Seq<char>, Seq<char>)>,
                MemcacheErrorView,
            >(pairs::text_pairs(list@)),
            Err(e) => stats_read(old(reader)@, Seq::empty()).0 == Err::<
                Seq<(Seq<char>, Seq<char>)>,
                MemcacheErrorView,
            >(e@),
        },
{
    let ghost outcome = stats_read(reader@, Seq::empty());
    let mut result: Vec<(String, String)> = Vec::new();
    assert(pairs::text_pairs(result@) =~= Seq::<(Seq<char>, Seq<char>)>::empty());
    loop
        invariant
            reader.well_formed(),
            outcome == stats_read(old(reader)@, Seq::empty()),
            outcome == stats_read(reader@, pairs::text_pairs(result@)),
        decreases reader@.len(),
    {
        let ghost given = reader@;
        proof {
            lemma_line_length(given);
        }
        let line = match read_answer(reader) {
            Ok(line) => line,
            Err(e) => {
                return Err(e);
            },
        };
        if bytes::equal(line.as_str().as_bytes(), "END\r\n".as_bytes()) {
            return Ok(result);
        }
        match parse_stat_line(&line, Ghost(given)) {
            Err(e) => {
                return Err(e);
            },
            Ok((name, text)) => {
                proof {
                    vstd::utf8::encode_utf8_decode_utf8(name@);
                    vstd::utf8::encode_utf8_decode_utf8(text@);
                }
                pairs::insert_text(&mut result, name, text);
            },
        }
    }
}

/// What the text protocol sends to authenticate: the credentials, stored under
/// `auth`.
pub fn auth_request(username: &str, password: &str) -> (r: Vec<u8>)
    ensures
        r@ == store_line(
            StoreCommand::Store,
            bytes::utf8("auth"),
            0,
            (bytes::utf8(username) + space() + bytes::utf8(password)).len(),
            Options::plain(),
        ) + (bytes::utf8(username) + space() + bytes::utf8(password)) + bytes::crlf(),
{
    let mut credentials: Vec<u8> = bytes::copy(username.as_bytes());
    push_text(&mut credentials, " ");
    push_text(&mut credentials, password);
    let mut wire = build_store_line(StoreCommand::Store, "auth", 0, credentials.len(), &Options::default());
    bytes::append(&mut wire, credentials.as_slice());
    bytes::append_crlf(&mut wire);
    wire
}

} // verus!
