//! The text protocol in words: what each request line says, field by field, and
//! what each reply line means.

use vstd::prelude::*;
use vstd::string::*;

use super::ascii;
use super::ascii::{Item, Options, StoreCommand};
use super::binary_packet;
use super::StoreVerb;
use crate::bytes;
use crate::decimal;
use crate::decimal::IntErrorKind;
use crate::error;
use crate::error::{ClientErrorView, CommandErrorView, MemcacheErrorView, ParseErrorView, ServerErrorView};
use crate::notation;
use crate::pairs;
use crate::value;
use crate::value::{FromMemcacheValueExt, ToMemcacheValue};

verus! {

/// The word that a store command starts with.
pub open spec fn word_of(command: StoreCommand) -> Seq<u8> {
    match command {
        StoreCommand::Store => seq!['s' as u8, 'e' as u8, 't' as u8],
        StoreCommand::Add => seq!['a' as u8, 'd' as u8, 'd' as u8],
        StoreCommand::Replace => seq!['r' as u8, 'e' as u8, 'p' as u8, 'l' as u8, 'a' as u8, 'c' as u8, 'e' as u8],
        StoreCommand::Append => seq!['a' as u8, 'p' as u8, 'p' as u8, 'e' as u8, 'n' as u8, 'd' as u8],
        StoreCommand::Prepend => seq!['p' as u8, 'r' as u8, 'e' as u8, 'p' as u8, 'e' as u8, 'n' as u8, 'd' as u8],
        StoreCommand::Cas => seq!['c' as u8, 'a' as u8, 's' as u8],
    }
}

/// Each kind of store goes by its own word.
pub proof fn lemma_store_words(command: StoreCommand)
    ensures
        command.code_spec() == word_of(command),
        StoreVerb::Store.command_spec() == StoreCommand::Store,
        StoreVerb::Add.command_spec() == StoreCommand::Add,
        StoreVerb::Replace.command_spec() == StoreCommand::Replace,
        forall|i: int| 0 <= i < word_of(command).len() ==> #[trigger] word_of(command)[i] != 32,
{
    reveal_strlit("set");
    bytes::lemma_ascii_literal("set");
    reveal_strlit("add");
    bytes::lemma_ascii_literal("add");
    reveal_strlit("replace");
    bytes::lemma_ascii_literal("replace");
    reveal_strlit("append");
    bytes::lemma_ascii_literal("append");
    reveal_strlit("prepend");
    bytes::lemma_ascii_literal("prepend");
    reveal_strlit("cas");
    bytes::lemma_ascii_literal("cas");
    assert(bytes::utf8("set") =~= seq!['s' as u8, 'e' as u8, 't' as u8]);
    assert(bytes::utf8("add") =~= seq!['a' as u8, 'd' as u8, 'd' as u8]);
    assert(bytes::utf8("replace") =~= seq!['r' as u8, 'e' as u8, 'p' as u8, 'l' as u8, 'a' as u8, 'c' as u8, 'e' as u8]);
    assert(bytes::utf8("append") =~= seq!['a' as u8, 'p' as u8, 'p' as u8, 'e' as u8, 'n' as u8, 'd' as u8]);
    assert(bytes::utf8("prepend") =~= seq!['p' as u8, 'r' as u8, 'e' as u8, 'p' as u8, 'e' as u8, 'n' as u8, 'd' as u8]);
    assert(bytes::utf8("cas") =~= seq!['c' as u8, 'a' as u8, 's' as u8]);
}

/// The fields of a store line: the word, the key, the flags, the expiry and the
/// length of the value, then the CAS and `noreply` where they are given.
pub open spec fn store_fields(
    command: StoreCommand,
    key: Seq<u8>,
    flags: u32,
    length: nat,
    options: Options,
) -> Seq<Seq<u8>> {
    seq![
        word_of(command),
        key,
        decimal::decimal(flags as nat),
        decimal::decimal(options.exptime as nat),
        decimal::decimal(length),
    ] + (match options.cas {
        Some(cas) => seq![decimal::decimal(cas as nat)],
        None => Seq::empty(),
    }) + (if options.noreply {
        seq![seq!['n' as u8, 'o' as u8, 'r' as u8, 'e' as u8, 'p' as u8, 'l' as u8, 'y' as u8]]
    } else {
        Seq::empty()
    })
}

proof fn lemma_no_blank(n: nat)
    ensures
        forall|i: int| 0 <= i < decimal::decimal(n).len() ==> #[trigger] decimal::decimal(n)[i] != 32,
{
    decimal::lemma_decimal_digits(n);
    assert forall|i: int| 0 <= i < decimal::decimal(n).len() implies #[trigger] decimal::decimal(n)[i] != 32 by {
        assert(decimal::is_digit(decimal::decimal(n)[i]));
    }
}

/// The length of a store line and what follows it.
spec fn store_tail(length: nat, options: Options) -> Seq<u8> {
    decimal::decimal(length) + (match options.cas {
        Some(cas) => seq![32u8] + decimal::decimal(cas as nat),
        None => Seq::empty(),
    }) + (if options.noreply {
        seq![32u8] + seq!['n' as u8, 'o' as u8, 'r' as u8, 'e' as u8, 'p' as u8, 'l' as u8, 'y' as u8]
    } else {
        Seq::empty()
    })
}

proof fn lemma_tail_fields(length: nat, options: Options)
    ensures
        bytes::fields(store_tail(length, options)) == seq![decimal::decimal(length)] + (match options.cas {
            Some(cas) => seq![decimal::decimal(cas as nat)],
            None => Seq::empty(),
        }) + (if options.noreply {
            seq![seq!['n' as u8, 'o' as u8, 'r' as u8, 'e' as u8, 'p' as u8, 'l' as u8, 'y' as u8]]
        } else {
            Seq::empty()
        }),
{
    let l = decimal::decimal(length);
    let noreply = seq!['n' as u8, 'o' as u8, 'r' as u8, 'e' as u8, 'p' as u8, 'l' as u8, 'y' as u8];
    let tail = store_tail(length, options);
    lemma_no_blank(length);
    notation::lemma_fields_by_blank(noreply, Seq::empty());
    match options.cas {
        Some(cas) => {
            let c = decimal::decimal(cas as nat);
            lemma_no_blank(cas as nat);
            if options.noreply {
                notation::lemma_fields_by_blank(c, noreply);
                notation::lemma_fields_by_blank(l, c + seq![32u8] + noreply);
                assert(tail =~= l + seq![32u8] + (c + seq![32u8] + noreply));
                assert(bytes::fields(tail) =~= seq![l] + seq![c] + seq![noreply]);
            } else {
                notation::lemma_fields_by_blank(c, Seq::empty());
                notation::lemma_fields_by_blank(l, c);
                assert(tail =~= l + seq![32u8] + c);
                assert(bytes::fields(tail) =~= seq![l] + seq![c] + Seq::<Seq<u8>>::empty());
            }
        },
        None => {
            if options.noreply {
                notation::lemma_fields_by_blank(l, noreply);
                assert(tail =~= l + seq![32u8] + noreply);
                assert(bytes::fields(tail) =~= seq![l] + Seq::<Seq<u8>>::empty() + seq![noreply]);
            } else {
                notation::lemma_fields_by_blank(l, Seq::empty());
                assert(tail =~= l);
                assert(bytes::fields(tail) =~= seq![l] + Seq::<Seq<u8>>::empty() + Seq::<Seq<u8>>::empty());
            }
        },
    }
}

/// The fields of a store line, put together again.
spec fn store_content(command: StoreCommand, key: Seq<u8>, flags: u32, length: nat, options: Options) -> Seq<u8> {
    word_of(command) + seq![32u8] + (key + seq![32u8] + (decimal::decimal(flags as nat) + seq![32u8] + (
    decimal::decimal(options.exptime as nat) + seq![32u8] + store_tail(length, options))))
}

proof fn lemma_content_fields(command: StoreCommand, key: Seq<u8>, flags: u32, length: nat, options: Options)
    requires
        forall|i: int| 0 <= i < key.len() ==> #[trigger] key[i] != 32,
    ensures
        bytes::fields(store_content(command, key, flags, length, options)) == store_fields(
            command,
            key,
            flags,
            length,
            options,
        ),
{
    let f = decimal::decimal(flags as nat);
    let e = decimal::decimal(options.exptime as nat);
    let tail = store_tail(length, options);
    lemma_store_words(command);
    lemma_no_blank(flags as nat);
    lemma_no_blank(options.exptime as nat);
    lemma_tail_fields(length, options);
    notation::lemma_fields_by_blank(e, tail);
    notation::lemma_fields_by_blank(f, e + seq![32u8] + tail);
    notation::lemma_fields_by_blank(key, f + seq![32u8] + (e + seq![32u8] + tail));
    notation::lemma_fields_by_blank(
        word_of(command),
        key + seq![32u8] + (f + seq![32u8] + (e + seq![32u8] + tail)),
    );
    assert(bytes::fields(store_content(command, key, flags, length, options)) =~= store_fields(
        command,
        key,
        flags,
        length,
        options,
    ));
}

proof fn lemma_line_content(command: StoreCommand, key: Seq<u8>, flags: u32, length: nat, options: Options)
    ensures
        ascii::store_line(command, key, flags, length, options) == store_content(command, key, flags, length, options)
            + seq![13u8, 10u8],
{
    lemma_store_words(command);
    assert(bytes::utf8(" ") == seq![32u8]) by {
        reveal_strlit(" ");
        bytes::lemma_ascii_literal(" ");
        assert(bytes::utf8(" ") =~= seq![32u8]);
    }
    let noreply = seq!['n' as u8, 'o' as u8, 'r' as u8, 'e' as u8, 'p' as u8, 'l' as u8, 'y' as u8];
    assert(bytes::utf8(" noreply") == seq![32u8] + noreply) by {
        reveal_strlit(" noreply");
        bytes::lemma_ascii_literal(" noreply");
        assert(bytes::utf8(" noreply") =~= seq![32u8] + noreply);
    }
    assert(ascii::store_line(command, key, flags, length, options) =~= store_content(
        command,
        key,
        flags,
        length,
        options,
    ) + seq![13u8, 10u8]);
}

/// A store line holds its fields in order, set apart by blanks and closed by a
/// line end. The CAS to compare is in it exactly where it was given.
pub proof fn lemma_store_line_fields(
    command: StoreCommand,
    key: Seq<u8>,
    flags: u32,
    length: nat,
    options: Options,
)
    requires
        forall|i: int| 0 <= i < key.len() ==> #[trigger] key[i] != 32,
    ensures
        ({
            let line = ascii::store_line(command, key, flags, length, options);
            &&& line.len() >= 2
            &&& line.skip(line.len() - 2) == seq![13u8, 10u8]
            &&& bytes::fields(line.take(line.len() - 2)) == store_fields(command, key, flags, length, options)
        }),
{
    lemma_line_content(command, key, flags, length, options);
    lemma_content_fields(command, key, flags, length, options);
    let line = ascii::store_line(command, key, flags, length, options);
    assert(line.take(line.len() - 2) =~= store_content(command, key, flags, length, options));
    assert(line.skip(line.len() - 2) =~= seq![13u8, 10u8]);
}

/// A store request is its line, which announces the length of the value, the value
/// as it is, and a line end.
pub proof fn lemma_store_request_text<V: ToMemcacheValue>(
    command: StoreCommand,
    key: Seq<u8>,
    value: V,
    options: Options,
)
    ensures
        super::store_text(command, key, value, options) == ascii::store_line(
            command,
            key,
            value.flags_spec(),
            value.bytes_spec().len(),
            options,
        ) + value.bytes_spec() + seq![13u8, 10u8],
{
}

/// A store of many sends the request of each entry, in order. It is refused where
/// one of them would be, by the first that would.
pub proof fn lemma_store_many<V: ToMemcacheValue>(
    command: StoreCommand,
    entries: Seq<(String, V)>,
    entry: (String, V),
    options: Options,
)
    ensures
        ascii::stores_wire(command, Seq::<(String, V)>::empty(), options).len() == 0,
        ascii::stores_wire(command, entries.push(entry), options) == ascii::stores_wire(command, entries, options)
            + super::store_text(command, vstd::utf8::encode_utf8(entry.0@), entry.1, options),
        ascii::entries_fault(Seq::<(String, V)>::empty()) is None,
        ascii::entries_fault(entries) is Some ==> ascii::entries_fault(entries.push(entry)) == ascii::entries_fault(
            entries,
        ),
        ascii::entries_fault(entries) is None ==> ascii::entries_fault(entries.push(entry)) == ascii::store_fault(
            vstd::utf8::encode_utf8(entry.0@),
            entry.1,
        ),
        ascii::stores_fault(command, entries, options) == (if command == StoreCommand::Cas && options.cas is None {
            Some(
                MemcacheErrorView::ClientError(
                    ClientErrorView::Error("cas_id should be present when using cas command"@),
                ),
            )
        } else {
            ascii::entries_fault(entries)
        }),
{
    assert(entries.push(entry).drop_last() =~= entries);
    let text = super::store_text(command, vstd::utf8::encode_utf8(entry.0@), entry.1, options);
    assert(ascii::stores_wire(command, entries.push(entry), options) =~= ascii::stores_wire(command, entries, options)
        + text);
}

/// A store is refused where its key is longer than 250 bytes or its value cannot be
/// written, and not otherwise.
pub proof fn lemma_store_refusals<V: ToMemcacheValue>(key: Seq<u8>, value: V)
    ensures
        match ascii::store_fault(key, value) {
            None => key.len() <= 250 && value.write_fault() is None,
            Some(e) => if key.len() > 250 {
                e == MemcacheErrorView::ClientError(ClientErrorView::KeyTooLong)
            } else {
                value.write_fault() is Some && e == MemcacheErrorView::IOError(value.write_fault()->0)
            },
        },
{
}

/// Whether a line end stands at a place.
pub open spec fn ends_at(received: Seq<u8>, at: int) -> bool {
    0 <= at && at + 2 <= received.len() && received[at] == 13 && received[at + 1] == 10
}

/// A line goes up to and with the first line end, and there is none without one.
pub proof fn lemma_line_is_up_to_its_end(received: Seq<u8>)
    ensures
        match ascii::line_length(received) {
            Some(n) => ends_at(received, n - 2) && forall|at: int| 0 <= at < n - 2 ==> !#[trigger] ends_at(received, at),
            None => forall|at: int| !#[trigger] ends_at(received, at),
        },
    decreases received.len(),
{
    if received.len() >= 2 && !(received[0] == 13 && received[1] == 10) {
        let rest = received.skip(1);
        lemma_line_is_up_to_its_end(rest);
        match ascii::line_length(rest) {
            Some(n) => {
                assert(ends_at(rest, n - 2));
                assert forall|at: int| 0 <= at < n + 1 - 2 implies !#[trigger] ends_at(received, at) by {
                    if at > 0 {
                        assert(!ends_at(rest, at - 1));
                    }
                }
            },
            None => {
                assert forall|at: int| !#[trigger] ends_at(received, at) by {
                    if at > 0 {
                        assert(!ends_at(rest, at - 1));
                    }
                }
            },
        }
    }
}

/// A line is taken with its end, and what follows is left. Nothing is taken where
/// there is no line yet, where it is longer than 2048 bytes, or where it is not
/// UTF-8.
pub proof fn lemma_line_is_taken_whole(received: Seq<u8>)
    ensures
        match (ascii::line_length(received), ascii::line_read(received)) {
            (Some(n), (Ok(line), rest)) => n <= 2048 && line == received.take(n) && rest == received.skip(n)
                && vstd::utf8::valid_utf8(line),
            (Some(n), (Err(e), rest)) => rest == received && (if n > 2048 {
                e == MemcacheErrorView::ClientError(ClientErrorView::Error("Ascii protocol response too long"@))
            } else {
                !vstd::utf8::valid_utf8(received.take(n)) && e is ParseError
            }),
            (None, (Ok(_), _)) => false,
            (None, (Err(e), rest)) => rest == received && e == MemcacheErrorView::ClientError(
                ClientErrorView::Error(
                    if received.len() >= 2048 {
                        "Ascii protocol response too long"@
                    } else {
                        "Ascii protocol no line found"@
                    },
                ),
            ),
        },
{
}

/// A reply line that starts with `CLIENT_ERROR` or `SERVER_ERROR`, or with
/// `ERROR`, is an error with that line as its message, and `NOT_FOUND` says that
/// the key is missing. No other line is an error.
pub proof fn lemma_error_lines(line: Seq<u8>)
    ensures
        bytes::has_prefix(line, bytes::utf8("CLIENT_ERROR")) ==> error::line_error(line) == Some(
            MemcacheErrorView::ClientError(ClientErrorView::Error(vstd::utf8::decode_utf8(line))),
        ),
        bytes::has_prefix(line, bytes::utf8("SERVER_ERROR")) ==> error::line_error(line) == Some(
            MemcacheErrorView::ServerError(ServerErrorView::Error(vstd::utf8::decode_utf8(line))),
        ),
        bytes::has_prefix(line, bytes::utf8("ERROR")) ==> error::line_error(line) == Some(
            MemcacheErrorView::CommandError(CommandErrorView::Error(vstd::utf8::decode_utf8(line))),
        ),
        line == bytes::utf8("NOT_FOUND\r\n") ==> error::line_error(line) == Some(
            MemcacheErrorView::CommandError(CommandErrorView::KeyNotFound),
        ),
        !bytes::has_prefix(line, bytes::utf8("CLIENT_ERROR")) && !bytes::has_prefix(line, bytes::utf8("SERVER_ERROR"))
            && !bytes::has_prefix(line, bytes::utf8("ERROR")) && line != bytes::utf8("NOT_FOUND\r\n")
            ==> error::line_error(line) is None,
{
    reveal_strlit("CLIENT_ERROR");
    bytes::lemma_ascii_literal("CLIENT_ERROR");
    reveal_strlit("SERVER_ERROR");
    bytes::lemma_ascii_literal("SERVER_ERROR");
    reveal_strlit("ERROR");
    bytes::lemma_ascii_literal("ERROR");
    reveal_strlit("NOT_FOUND\r\n");
    bytes::lemma_ascii_literal("NOT_FOUND\r\n");
    if line.len() > 0 {
        if bytes::has_prefix(line, bytes::utf8("CLIENT_ERROR")) {
            assert(line.take(12)[0] == line[0]);
            assert(line[0] == 'C' as u8);
        }
        if bytes::has_prefix(line, bytes::utf8("SERVER_ERROR")) {
            assert(line.take(12)[0] == line[0]);
            assert(line[0] == 'S' as u8);
        }
        if bytes::has_prefix(line, bytes::utf8("ERROR")) {
            assert(line.take(5)[0] == line[0]);
            assert(line[0] == 'E' as u8);
        }
        if line == bytes::utf8("NOT_FOUND\r\n") {
            assert(line[0] == 'N' as u8);
        }
    }
}

/// An answer is a line that is no error. A line that is one is taken all the same.
pub proof fn lemma_answers(received: Seq<u8>)
    ensures
        match ascii::line_read(received) {
            (Ok(line), rest) => match error::line_error(line) {
                Some(e) => ascii::answer_read(received) == (Err::<Seq<u8>, MemcacheErrorView>(e), rest),
                None => ascii::answer_read(received) == (Ok::<Seq<u8>, MemcacheErrorView>(line), rest),
            },
            (Err(e), rest) => ascii::answer_read(received) == (Err::<Seq<u8>, MemcacheErrorView>(e), rest),
        },
{
}

/// A store is answered `STORED` or `NOT_STORED`, or `EXISTS` where another value
/// came first. Any other answer is a bad response.
pub proof fn lemma_store_answers(received: Seq<u8>, line: Seq<u8>, rest: Seq<u8>)
    requires
        ascii::answer_read(received) == (Ok::<Seq<u8>, MemcacheErrorView>(line), rest),
    ensures
        line == bytes::utf8("STORED\r\n") ==> ascii::store_read(received) == (Ok::<bool, MemcacheErrorView>(true), rest),
        line == bytes::utf8("NOT_STORED\r\n") ==> ascii::store_read(received) == (
            Ok::<bool, MemcacheErrorView>(false),
            rest,
        ),
        line == bytes::utf8("EXISTS\r\n") ==> ascii::store_read(received) == (
            Err::<bool, MemcacheErrorView>(MemcacheErrorView::CommandError(CommandErrorView::KeyExists)),
            rest,
        ),
        line != bytes::utf8("STORED\r\n") && line != bytes::utf8("NOT_STORED\r\n") && line != bytes::utf8("EXISTS\r\n")
            ==> ascii::store_read(received) == (
            Err::<bool, MemcacheErrorView>(
                MemcacheErrorView::ServerError(ServerErrorView::BadResponse(vstd::utf8::decode_utf8(line))),
            ),
            rest,
        ),
{
    reveal_strlit("STORED\r\n");
    bytes::lemma_ascii_literal("STORED\r\n");
    reveal_strlit("NOT_STORED\r\n");
    bytes::lemma_ascii_literal("NOT_STORED\r\n");
    reveal_strlit("EXISTS\r\n");
    bytes::lemma_ascii_literal("EXISTS\r\n");
    assert(bytes::utf8("STORED\r\n")[0] == 'S' as u8);
    assert(bytes::utf8("NOT_STORED\r\n")[0] == 'N' as u8);
    assert(bytes::utf8("EXISTS\r\n")[0] == 'E' as u8);
}

/// A failed answer to a store is its failure. A compare-and-swap that met another
/// value, or none, is no failure: it was not stored.
pub proof fn lemma_swap_answers(received: Seq<u8>)
    ensures
        ascii::answer_read(received).0 matches Err(e) ==> ascii::store_read(received) == (
            Err::<bool, MemcacheErrorView>(e),
            ascii::answer_read(received).1,
        ),
        match ascii::store_read(received).0 {
            Ok(stored) => ascii::cas_read(received) == Ok::<bool, MemcacheErrorView>(stored),
            Err(MemcacheErrorView::CommandError(CommandErrorView::KeyExists)) => ascii::cas_read(received) == Ok::<
                bool,
                MemcacheErrorView,
            >(false),
            Err(MemcacheErrorView::CommandError(CommandErrorView::KeyNotFound)) => ascii::cas_read(received) == Ok::<
                bool,
                MemcacheErrorView,
            >(false),
            Err(e) => ascii::cas_read(received) == Err::<bool, MemcacheErrorView>(e),
        },
{
}

/// A store of many reads one answer for each entry. All are stored where each was,
/// and the first failure is the one that is told, once every answer was read.
pub proof fn lemma_store_many_answers(
    received: Seq<u8>,
    count: nat,
    all_stored: bool,
    first: Option<MemcacheErrorView>,
)
    ensures
        ascii::stores_read(received, 0, all_stored, first) == (
            match first {
                Some(e) => Err::<bool, MemcacheErrorView>(e),
                None => Ok(all_stored),
            },
            received,
        ),
        match ascii::store_read(received) {
            (Ok(stored), rest) => ascii::stores_read(received, count + 1, all_stored, first) == ascii::stores_read(
                rest,
                count,
                all_stored && stored,
                first,
            ),
            (Err(e), rest) => ascii::stores_read(received, count + 1, all_stored, first) == ascii::stores_read(
                rest,
                count,
                all_stored,
                Some(
                    match first {
                        Some(earlier) => earlier,
                        None => e,
                    },
                ),
            ),
        },
{
}

/// A version is what stands behind `VERSION` and a blank, and a confirmation is
/// `OK`. Any other answer is a bad response.
pub proof fn lemma_version_and_confirmation(received: Seq<u8>, line: Seq<u8>, rest: Seq<u8>)
    requires
        ascii::answer_read(received) == (Ok::<Seq<u8>, MemcacheErrorView>(line), rest),
        line.len() >= 2,
    ensures
        bytes::has_prefix(line, bytes::utf8("VERSION")) ==> ascii::version_read(received) == Ok::<
            Seq<u8>,
            MemcacheErrorView,
        >(bytes::without_prefixes(line.take(line.len() - 2), bytes::utf8("VERSION "))),
        !bytes::has_prefix(line, bytes::utf8("VERSION")) ==> ascii::version_read(received) == Err::<
            Seq<u8>,
            MemcacheErrorView,
        >(MemcacheErrorView::ServerError(ServerErrorView::BadResponse(vstd::utf8::decode_utf8(line)))),
        line == bytes::utf8("OK\r\n") ==> ascii::ok_fault(received) is None,
        line != bytes::utf8("OK\r\n") ==> ascii::ok_fault(received) == Some(
            MemcacheErrorView::ServerError(ServerErrorView::BadResponse(vstd::utf8::decode_utf8(line))),
        ),
{
}

/// A failed answer fails a version, a confirmation and a counter alike.
pub proof fn lemma_failed_answers(received: Seq<u8>, e: MemcacheErrorView)
    requires
        ascii::answer_read(received).0 == Err::<Seq<u8>, MemcacheErrorView>(e),
    ensures
        ascii::version_read(received) == Err::<Seq<u8>, MemcacheErrorView>(e),
        ascii::ok_fault(received) == Some(e),
        ascii::counter_read(received) == Err::<u64, MemcacheErrorView>(e),
{
}

/// A read of many names its keys in order, with one blank between two.
pub proof fn lemma_keys_of_a_read(keys: Seq<String>, key: String)
    ensures
        ascii::joined(Seq::empty()).len() == 0,
        ascii::joined(seq![key]) == vstd::utf8::encode_utf8(key@),
        keys.len() > 0 ==> ascii::joined(keys.push(key)) == ascii::joined(keys) + seq![32u8] + vstd::utf8::encode_utf8(
            key@,
        ),
{
    assert(bytes::utf8(" ") == seq![32u8]) by {
        reveal_strlit(" ");
        bytes::lemma_ascii_literal(" ");
        assert(bytes::utf8(" ") =~= seq![32u8]);
    }
    assert(keys.push(key).drop_last() =~= keys);
}

/// A value is announced by its key, its flags and its length, and by its CAS where
/// one was asked for, each in its own field and nothing more.
pub proof fn lemma_announcement(fields: Seq<Seq<u8>>, has_cas: bool, line: Seq<u8>)
    ensures
        match ascii::value_fields(fields, has_cas, line) {
            Ok(announced) => {
                &&& fields.len() == (if has_cas {
                    5int
                } else {
                    4int
                })
                &&& announced.key == fields[1]
                &&& decimal::parse_unsigned(fields[2], u32::MAX as nat) == Ok::<nat, IntErrorKind>(announced.flags as nat)
                &&& decimal::parse_unsigned(fields[3], usize::MAX as nat) == Ok::<nat, IntErrorKind>(
                    announced.length as nat,
                )
                &&& !has_cas ==> announced.cas is None
                &&& has_cas ==> announced.cas is Some && decimal::parse_unsigned(fields[4], u64::MAX as nat) == Ok::<
                    nat,
                    IntErrorKind,
                >(announced.cas->0 as nat)
            },
            Err(e) => {
                ||| fields.len() != (if has_cas {
                    5int
                } else {
                    4int
                })
                ||| decimal::parse_unsigned(fields[2], u32::MAX as nat) is Err
                ||| decimal::parse_unsigned(fields[3], usize::MAX as nat) is Err
                ||| (has_cas && decimal::parse_unsigned(fields[4], u64::MAX as nat) is Err)
            },
        },
{
}

/// A list of values ends at `END`. Before it every line announces a value and
/// starts with `VALUE`.
pub proof fn lemma_value_lines(line: Seq<u8>, has_cas: bool)
    requires
        line.len() >= 2,
    ensures
        line == bytes::utf8("END\r\n") ==> ascii::value_line(line, has_cas) == Ok::<
            Option<ascii::ValueLine>,
            MemcacheErrorView,
        >(None),
        line != bytes::utf8("END\r\n") && bytes::has_prefix(line, bytes::utf8("VALUE")) ==> (match ascii::value_fields(
            bytes::fields(line.take(line.len() - 2)),
            has_cas,
            line,
        ) {
            Ok(announced) => ascii::value_line(line, has_cas) == Ok::<Option<ascii::ValueLine>, MemcacheErrorView>(
                Some(announced),
            ),
            Err(e) => ascii::value_line(line, has_cas) == Err::<Option<ascii::ValueLine>, MemcacheErrorView>(e),
        }),
        line != bytes::utf8("END\r\n") && !bytes::has_prefix(line, bytes::utf8("VALUE")) ==> ascii::value_line(
            line,
            has_cas,
        ) == Err::<Option<ascii::ValueLine>, MemcacheErrorView>(
            MemcacheErrorView::ServerError(ServerErrorView::BadResponse(vstd::utf8::decode_utf8(line))),
        ),
{
}

/// A value is the bytes that were announced, up to a line end, and what follows is
/// left.
pub proof fn lemma_value_block(block: Seq<u8>, rest: Seq<u8>)
    ensures
        ascii::block_read(block + seq![13u8, 10u8] + rest, block.len() as int) == (
            Ok::<Seq<u8>, MemcacheErrorView>(block),
            rest,
        ),
{
    let all = block + seq![13u8, 10u8] + rest;
    let n = block.len() as int;
    assert(all.subrange(n, n + 2) =~= seq![13u8, 10u8]);
    assert(all.take(n) =~= block);
    assert(all.skip(n + 2) =~= rest);
}

/// A value that is cut off, or not closed by a line end, is not taken.
pub proof fn lemma_broken_value_block(received: Seq<u8>, length: nat)
    ensures
        ascii::block_read(received, length as int).0 matches Ok(block) ==> ends_at(received, length as int) && block
            == received.take(length as int) && ascii::block_read(received, length as int).1 == received.skip(
            length as int + 2,
        ),
        ends_at(received, length as int) ==> ascii::block_read(received, length as int).0 is Ok,
        received.len() < length + 2 ==> (ascii::block_read(received, length as int).0 matches Err(e) && e is IOError),
{
    let n = length as int;
    if received.len() >= n + 2 {
        let end = received.subrange(n, n + 2);
        assert(end[0] == received[n] && end[1] == received[n + 1]);
        if ends_at(received, n) {
            assert(end =~= seq![13u8, 10u8]);
        }
    }
}

/// An item has the key, flags and CAS that its line announced and the bytes that
/// followed it.
pub proof fn lemma_items<V: FromMemcacheValueExt>(received: Seq<u8>, has_cas: bool)
    ensures
        match ascii::entry_read::<V>(received, has_cas) {
            (Ok(Some(item)), rest) => {
                let (answer, after) = ascii::answer_read(received);
                &&& answer is Ok
                &&& ascii::value_line(answer->Ok_0, has_cas) matches Ok(Some(announced)) && {
                    &&& item.key == vstd::utf8::decode_utf8(announced.key)
                    &&& item.flags == announced.flags
                    &&& item.cas == announced.cas
                    &&& ascii::block_read(after, announced.length as int) == (
                        Ok::<Seq<u8>, MemcacheErrorView>(item.value),
                        rest,
                    )
                    &&& V::value_fault_ext(item.value, item.flags, item.cas) is None
                }
            },
            (Ok(None), rest) => {
                let (answer, after) = ascii::answer_read(received);
                answer is Ok && rest == after && ascii::value_line(answer->Ok_0, has_cas) == Ok::<
                    Option<ascii::ValueLine>,
                    MemcacheErrorView,
                >(None)
            },
            (Err(e), _) => {
                let (answer, after) = ascii::answer_read(received);
                match answer {
                    Err(fault) => e == fault,
                    Ok(line) => match ascii::value_line(line, has_cas) {
                        Err(fault) => e == fault,
                        Ok(None) => false,
                        Ok(Some(announced)) => match ascii::block_read(after, announced.length as int).0 {
                            Err(fault) => e == fault,
                            Ok(block) => V::value_fault_ext(block, announced.flags, announced.cas) == Some(e),
                        },
                    },
                }
            },
        },
{
}

/// A read of one key finds the one item that came under that key, and nothing
/// where the list is empty. An item of another key, or a second one, is a bad
/// response.
pub proof fn lemma_single_reads<V: FromMemcacheValueExt>(received: Seq<u8>, key: Seq<char>)
    ensures
        match ascii::entry_read::<V>(received, true) {
            (Ok(None), rest) => ascii::get_read::<V>(received, key) == (
                Ok::<Option<Item>, MemcacheErrorView>(None),
                rest,
            ),
            (Ok(Some(item)), rest) => if item.key == key {
                match ascii::entry_read::<V>(rest, true) {
                    (Ok(None), last) => ascii::get_read::<V>(received, key) == (
                        Ok::<Option<Item>, MemcacheErrorView>(Some(item)),
                        last,
                    ),
                    (Ok(Some(_)), _) => ascii::get_read::<V>(received, key).0 matches Err(e)
                        && e matches MemcacheErrorView::ServerError(fault) && fault is BadResponse,
                    (Err(e), _) => ascii::get_read::<V>(received, key).0 == Err::<Option<Item>, MemcacheErrorView>(e),
                }
            } else {
                ascii::get_read::<V>(received, key).0 matches Err(e) && e matches MemcacheErrorView::ServerError(fault)
                    && fault is BadResponse
            },
            (Err(e), _) => ascii::get_read::<V>(received, key).0 == Err::<Option<Item>, MemcacheErrorView>(e),
        },
{
}

/// A read of many keeps each item under its key, until the list ends.
pub proof fn lemma_many_reads<V: FromMemcacheValueExt>(received: Seq<u8>, so_far: binary_packet::Items, left: nat)
    ensures
        match ascii::entry_read::<V>(received, true) {
            (Ok(None), rest) => ascii::gets_read::<V>(received, so_far, left) == (
                Ok::<binary_packet::Items, MemcacheErrorView>(so_far),
                rest,
            ),
            (Ok(Some(item)), rest) => {
                &&& ascii::gets_read::<V>(received, so_far, left + 1) == ascii::gets_read::<V>(
                    rest,
                    pairs::put(so_far, item.key, (item.value, item.flags, item.cas->0)),
                    left,
                )
                &&& ascii::gets_read::<V>(received, so_far, 0).0 is Err
            },
            (Err(e), rest) => ascii::gets_read::<V>(received, so_far, left) == (
                Err::<binary_packet::Items, MemcacheErrorView>(e),
                rest,
            ),
        },
{
}

/// Many keys are deleted by one request each, in order.
pub proof fn lemma_delete_many(keys: Seq<String>, key: String)
    ensures
        ascii::deletes_wire(Seq::empty()).len() == 0,
        ascii::deletes_wire(keys.push(key)) == ascii::deletes_wire(keys) + bytes::utf8("delete ")
            + vstd::utf8::encode_utf8(key@) + seq![13u8, 10u8],
{
    assert(keys.push(key).drop_last() =~= keys);
}

/// A delete or a touch took effect where it is answered by its word, and found
/// nothing where the key is missing. Any other answer is a failure.
pub proof fn lemma_done_answers(received: Seq<u8>, word: Seq<u8>)
    ensures
        match ascii::answer_read(received) {
            (Ok(line), rest) => if line == word {
                ascii::done_read(received, word) == (Ok::<bool, MemcacheErrorView>(true), rest)
            } else {
                ascii::done_read(received, word) == (
                    Err::<bool, MemcacheErrorView>(
                        MemcacheErrorView::ServerError(ServerErrorView::BadResponse(vstd::utf8::decode_utf8(line))),
                    ),
                    rest,
                )
            },
            (Err(MemcacheErrorView::CommandError(CommandErrorView::KeyNotFound)), rest) => ascii::done_read(
                received,
                word,
            ) == (Ok::<bool, MemcacheErrorView>(false), rest),
            (Err(e), rest) => ascii::done_read(received, word) == (Err::<bool, MemcacheErrorView>(e), rest),
        },
{
}

/// A delete of many reads one answer for each key, `DELETED` where it was there.
/// The first failure is the one that is told, once every answer was read.
pub proof fn lemma_delete_many_answers(
    received: Seq<u8>,
    count: nat,
    so_far: Seq<bool>,
    first: Option<MemcacheErrorView>,
)
    ensures
        ascii::deletes_read(received, 0, so_far, first) == (
            match first {
                Some(e) => Err::<Seq<bool>, MemcacheErrorView>(e),
                None => Ok(so_far),
            },
            received,
        ),
        match ascii::done_read(received, bytes::utf8("DELETED\r\n")) {
            (Ok(found), rest) => ascii::deletes_read(received, count + 1, so_far, first) == ascii::deletes_read(
                rest,
                count,
                so_far.push(found),
                first,
            ),
            (Err(e), rest) => ascii::deletes_read(received, count + 1, so_far, first) == ascii::deletes_read(
                rest,
                count,
                so_far,
                Some(
                    match first {
                        Some(earlier) => earlier,
                        None => e,
                    },
                ),
            ),
        },
{
}

/// A request with a key and a number holds both in order, and nothing else.
pub proof fn lemma_keyed_requests(command: Seq<u8>, key: Seq<u8>, n: nat)
    requires
        forall|i: int| 0 <= i < command.len() ==> #[trigger] command[i] != 32,
        forall|i: int| 0 <= i < key.len() ==> #[trigger] key[i] != 32,
    ensures
        ({
            let line = ascii::keyed_wire(command + seq![32u8], key, n);
            &&& line.len() >= 2
            &&& line.skip(line.len() - 2) == seq![13u8, 10u8]
            &&& bytes::fields(line.take(line.len() - 2)) == seq![command, key, decimal::decimal(n)]
        }),
{
    assert(bytes::utf8(" ") == seq![32u8]) by {
        reveal_strlit(" ");
        bytes::lemma_ascii_literal(" ");
        assert(bytes::utf8(" ") =~= seq![32u8]);
    }
    let d = decimal::decimal(n);
    lemma_no_blank(n);
    notation::lemma_fields_by_blank(d, Seq::empty());
    notation::lemma_fields_by_blank(key, d);
    notation::lemma_fields_by_blank(command, key + seq![32u8] + d);
    let content = command + seq![32u8] + (key + seq![32u8] + d);
    let line = ascii::keyed_wire(command + seq![32u8], key, n);
    assert(line =~= content + seq![13u8, 10u8]);
    assert(line.take(line.len() - 2) =~= content);
    assert(line.skip(line.len() - 2) =~= seq![13u8, 10u8]);
    assert(bytes::fields(content) =~= seq![command, key, d]);
}

/// A counter is the number that its answer holds before the line end.
pub proof fn lemma_counter_answers(received: Seq<u8>, line: Seq<u8>, rest: Seq<u8>)
    requires
        ascii::answer_read(received) == (Ok::<Seq<u8>, MemcacheErrorView>(line), rest),
        line.len() >= 2,
    ensures
        match ascii::counter_read(received) {
            Ok(n) => decimal::parse_unsigned(line.take(line.len() - 2), u64::MAX as nat) == Ok::<nat, IntErrorKind>(
                n as nat,
            ),
            Err(e) => decimal::parse_unsigned(line.take(line.len() - 2), u64::MAX as nat) matches Err(kind) && e
                == MemcacheErrorView::ParseError(ParseErrorView::Int(kind)),
        },
{
}

/// A statistic is named by the field behind `STAT`, and the list ends at `END`.
pub proof fn lemma_statistics(received: Seq<u8>, line: Seq<u8>, rest: Seq<u8>, so_far: Seq<(Seq<char>, Seq<char>)>)
    requires
        ascii::answer_read(received) == (Ok::<Seq<u8>, MemcacheErrorView>(line), rest),
        rest.len() < received.len(),
        line.len() >= 2,
    ensures
        line == bytes::utf8("END\r\n") ==> ascii::stats_read(received, so_far) == (
            Ok::<Seq<(Seq<char>, Seq<char>)>, MemcacheErrorView>(so_far),
            rest,
        ),
        line != bytes::utf8("END\r\n") ==> (match ascii::stat_line(line) {
            Ok((name, text)) => ascii::stats_read(received, so_far) == ascii::stats_read(
                rest,
                pairs::put(so_far, vstd::utf8::decode_utf8(name), vstd::utf8::decode_utf8(text)),
            ),
            Err(e) => ascii::stats_read(received, so_far) == (
                Err::<Seq<(Seq<char>, Seq<char>)>, MemcacheErrorView>(e),
                rest,
            ),
        }),
        match ascii::stat_line(line) {
            Ok((name, text)) => {
                let fields = bytes::fields(line.take(line.len() - 2));
                &&& bytes::has_prefix(line, bytes::utf8("STAT"))
                &&& fields.len() >= 3
                &&& name == fields[1]
                &&& text == bytes::without_prefixes(line, bytes::utf8("STAT ") + fields[1])
            },
            Err(e) => {
                &&& e == MemcacheErrorView::ServerError(ServerErrorView::BadResponse(vstd::utf8::decode_utf8(line)))
                &&& !bytes::has_prefix(line, bytes::utf8("STAT")) || bytes::fields(line.take(line.len() - 2)).len() < 3
            },
        },
{
}

} // verus!
