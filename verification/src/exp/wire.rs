//! The meta protocol in words: what a request says on the wire, and how each
//! reply line, flag and data block is read.

use vstd::prelude::*;
use vstd::string::*;

use super::base64;
use super::connection;
use super::error::ErrorView;
use super::meta_api;
use super::meta_api::{FlagState, MetaCommandResult, MetaCommandResultView};
use super::meta_command;
use super::meta_command::{MetaCommand, MetaCommandView, MetaOp, MetaResponse, MetaResponseView, ReturnCode};
use crate::bytes;
use crate::decimal;
use crate::decimal::IntErrorKind;
use crate::pairs;
use crate::text;

verus! {

/// Each command starts with its own two letters.
pub proof fn lemma_command_words(a: MetaOp, b: MetaOp)
    ensures
        MetaOp::Get.code() == seq!['m' as u8, 'g' as u8],
        MetaOp::Store.code() == seq!['m' as u8, 's' as u8],
        MetaOp::Delete.code() == seq!['m' as u8, 'd' as u8],
        MetaOp::Arithmetic.code() == seq!['m' as u8, 'a' as u8],
        MetaOp::Noop.code() == seq!['m' as u8, 'n' as u8],
        MetaOp::Debug.code() == seq!['m' as u8, 'e' as u8],
        a != b ==> a.code() != b.code(),
{
    reveal_strlit("mg");
    bytes::lemma_ascii_literal("mg");
    reveal_strlit("ms");
    bytes::lemma_ascii_literal("ms");
    reveal_strlit("md");
    bytes::lemma_ascii_literal("md");
    reveal_strlit("ma");
    bytes::lemma_ascii_literal("ma");
    reveal_strlit("mn");
    bytes::lemma_ascii_literal("mn");
    reveal_strlit("me");
    bytes::lemma_ascii_literal("me");
    assert(bytes::utf8("mg") =~= seq!['m' as u8, 'g' as u8]);
    assert(bytes::utf8("ms") =~= seq!['m' as u8, 's' as u8]);
    assert(bytes::utf8("md") =~= seq!['m' as u8, 'd' as u8]);
    assert(bytes::utf8("ma") =~= seq!['m' as u8, 'a' as u8]);
    assert(bytes::utf8("mn") =~= seq!['m' as u8, 'n' as u8]);
    assert(bytes::utf8("me") =~= seq!['m' as u8, 'e' as u8]);
    assert(a.code().len() == 2 && b.code().len() == 2);
    assert(a != b ==> a.code()[1] != b.code()[1]);
}

/// Each reply starts with one of eight words of two letters, and no other word is
/// a reply.
pub proof fn lemma_reply_words(token: Seq<u8>)
    ensures
        match meta_command::return_code(token) {
            Ok(ReturnCode::Hd) => token == seq!['H' as u8, 'D' as u8],
            Ok(ReturnCode::Va) => token == seq!['V' as u8, 'A' as u8],
            Ok(ReturnCode::En) => token == seq!['E' as u8, 'N' as u8],
            Ok(ReturnCode::Ns) => token == seq!['N' as u8, 'S' as u8],
            Ok(ReturnCode::Ex) => token == seq!['E' as u8, 'X' as u8],
            Ok(ReturnCode::Nf) => token == seq!['N' as u8, 'F' as u8],
            Ok(ReturnCode::Mn) => token == seq!['M' as u8, 'N' as u8],
            Ok(ReturnCode::Me) => token == seq!['M' as u8, 'E' as u8],
            Err(e) => e is Protocol && token != seq!['H' as u8, 'D' as u8] && token != seq!['V' as u8, 'A' as u8] && token != seq!['E' as u8, 'N' as u8] && token != seq!['N' as u8, 'S' as u8] && token != seq!['E' as u8, 'X' as u8] && token != seq!['N' as u8, 'F' as u8] && token != seq!['M' as u8, 'N' as u8] && token != seq!['M' as u8, 'E' as u8],
        },
{
    reveal_strlit("HD");
    bytes::lemma_ascii_literal("HD");
    reveal_strlit("VA");
    bytes::lemma_ascii_literal("VA");
    reveal_strlit("EN");
    bytes::lemma_ascii_literal("EN");
    reveal_strlit("NS");
    bytes::lemma_ascii_literal("NS");
    reveal_strlit("EX");
    bytes::lemma_ascii_literal("EX");
    reveal_strlit("NF");
    bytes::lemma_ascii_literal("NF");
    reveal_strlit("MN");
    bytes::lemma_ascii_literal("MN");
    reveal_strlit("ME");
    bytes::lemma_ascii_literal("ME");
    assert(bytes::utf8("HD") =~= seq!['H' as u8, 'D' as u8]);
    assert(bytes::utf8("VA") =~= seq!['V' as u8, 'A' as u8]);
    assert(bytes::utf8("EN") =~= seq!['E' as u8, 'N' as u8]);
    assert(bytes::utf8("NS") =~= seq!['N' as u8, 'S' as u8]);
    assert(bytes::utf8("EX") =~= seq!['E' as u8, 'X' as u8]);
    assert(bytes::utf8("NF") =~= seq!['N' as u8, 'F' as u8]);
    assert(bytes::utf8("MN") =~= seq!['M' as u8, 'N' as u8]);
    assert(bytes::utf8("ME") =~= seq!['M' as u8, 'E' as u8]);
}

/// Whether a key can stand on a line as it is: every byte is above the blank, and
/// none is the delete character.
pub open spec fn stands_plain(key: Seq<u8>) -> bool {
    forall|i: int| 0 <= i < key.len() ==> #[trigger] key[i] > 0x20 && key[i] != 0x7f
}

/// A key that can stand on a line is sent as it is, and any other in base64. A key
/// must not be empty, nor take more than 250 bytes on the line.
pub proof fn lemma_keys_on_the_line(key: Seq<u8>)
    ensures
        meta_command::legacy_safe(key) <==> stands_plain(key),
        stands_plain(key) ==> meta_command::wire_key(key) == key,
        !stands_plain(key) ==> meta_command::wire_key(key) == base64::encoded(key),
        match meta_command::key_fault(key) {
            None => key.len() > 0 && meta_command::wire_key(key).len() <= 250,
            Some(e) => e is Usage && (key.len() == 0 || meta_command::wire_key(key).len() > 250),
        },
{
}

/// Flags follow each other in order, each after a blank.
pub proof fn lemma_flags_on_the_line(flags: Seq<Seq<u8>>, flag: Seq<u8>)
    ensures
        meta_command::spaced(Seq::empty()).len() == 0,
        meta_command::spaced(flags.push(flag)) == meta_command::spaced(flags) + seq![32u8] + flag,
{
    assert(flags.push(flag).drop_last() =~= flags);
}

/// A request is its command word, its key, the length of its value, its flags and
/// its position in a batch on one line, each after a blank, with a mark for a key
/// in base64, and then the value and a line end. A no-op is its word alone.
pub proof fn lemma_request_on_the_wire(command: MetaCommandView, position: Option<nat>)
    ensures
        command.op == MetaOp::Noop ==> command.wire(position) == seq!['m' as u8, 'n' as u8, 13u8, 10u8],
        command.op != MetaOp::Noop ==> command.wire(position) == command.op.code() + seq![32u8] + meta_command::wire_key(
            command.key,
        ) + (match command.value {
            Some(value) => seq![32u8] + decimal::decimal(value.len()),
            None => Seq::empty(),
        }) + meta_command::spaced(command.flags) + (match position {
            Some(n) => seq![32u8, 'O' as u8] + decimal::decimal(n),
            None => Seq::empty(),
        }) + (if stands_plain(command.key) || command.flags.contains(seq!['b' as u8]) {
            Seq::empty()
        } else {
            seq![32u8, 'b' as u8]
        }) + seq![13u8, 10u8] + (match command.value {
            Some(value) => value + seq![13u8, 10u8],
            None => Seq::empty(),
        }),
        command.op != MetaOp::Noop ==> command.fault() == meta_command::key_fault(command.key),
        command.op == MetaOp::Noop ==> command.fault() is None,
{
    assert(bytes::utf8("mn") == seq!['m' as u8, 'n' as u8]) by {
        reveal_strlit("mn");
        bytes::lemma_ascii_literal("mn");
        assert(bytes::utf8("mn") =~= seq!['m' as u8, 'n' as u8]);
    }
    assert(bytes::utf8("b") == seq!['b' as u8]) by {
        reveal_strlit("b");
        bytes::lemma_ascii_literal("b");
        assert(bytes::utf8("b") =~= seq!['b' as u8]);
    }
    assert(bytes::utf8(" b") == seq![32u8, 'b' as u8]) by {
        reveal_strlit(" b");
        bytes::lemma_ascii_literal(" b");
        assert(bytes::utf8(" b") =~= seq![32u8, 'b' as u8]);
    }
    assert(bytes::utf8(" O") == seq![32u8, 'O' as u8]) by {
        reveal_strlit(" O");
        bytes::lemma_ascii_literal(" O");
        assert(bytes::utf8(" O") =~= seq![32u8, 'O' as u8]);
    }
    lemma_keys_on_the_line(command.key);
    if command.op == MetaOp::Noop {
        assert(command.wire(position) =~= seq!['m' as u8, 'n' as u8, 13u8, 10u8]);
    }
}

/// A command changes something on the server where it stores, deletes or counts,
/// and where a read sets a TTL, creates, renews or sets a CAS. A no-op and a debug
/// command never do.
pub proof fn lemma_which_commands_change_something(command: MetaCommandView)
    ensures
        command.op == MetaOp::Store || command.op == MetaOp::Delete || command.op == MetaOp::Arithmetic
            ==> command.has_side_effect(),
        command.op == MetaOp::Noop || command.op == MetaOp::Debug ==> !command.has_side_effect(),
        command.op == MetaOp::Get ==> (command.has_side_effect() <==> exists|i: int|
            {
                &&& 0 <= i < command.flags.len()
                &&& (#[trigger] command.flags[i]).len() > 0
                &&& (command.flags[i][0] == 'T' as u8 || command.flags[i][0] == 'N' as u8 || command.flags[i][0]
                    == 'R' as u8 || command.flags[i][0] == 'E' as u8)
            }),
{
    if command.op == MetaOp::Get && command.has_side_effect() {
        let i = choose|i: int|
            0 <= i < command.flags.len() && MetaCommandView::is_effect_flag(#[trigger] command.flags[i]);
        assert(command.flags[i].len() > 0);
    }
}

/// The debug command names its key and has no flags. It is refused for a key that
/// cannot stand on a line as it is.
pub proof fn lemma_debug_command(key: Seq<u8>)
    ensures
        match meta_api::debug_command(key) {
            Ok(command) => command.op == MetaOp::Debug && command.key == key && command.flags.len() == 0 && command.value
                is None && stands_plain(key) && key.len() <= 250,
            Err(e) => e is Usage && (!stands_plain(key) || key.len() > 250),
        },
{
    lemma_keys_on_the_line(key);
}

/// A reply line is read by its first word. The error words fail, with the rest of
/// the line as the message; `VA` announces how long its value is, one gibibyte at
/// most; and every other reply word stands with the flags that follow it.
pub proof fn lemma_reply_lines(line: Seq<u8>)
    requires
        bytes::words(line).len() > 0,
    ensures
        ({
            let words = bytes::words(line);
            let message = text::trimmed(text::utf8_lossy(line.skip(words[0].len() as int)));
            let read = meta_command::header(line);
            &&& words[0] == bytes::utf8("ERROR") ==> read == Err::<MetaResponseView, ErrorView>(
                ErrorView::Rejected("ERROR"@),
            )
            &&& words[0] == bytes::utf8("CLIENT_ERROR") ==> read == Err::<MetaResponseView, ErrorView>(
                ErrorView::Rejected(message),
            )
            &&& words[0] == bytes::utf8("SERVER_ERROR") ==> read == Err::<MetaResponseView, ErrorView>(
                ErrorView::Server(message),
            )
            &&& match meta_command::return_code(words[0]) {
                Ok(ReturnCode::Va) => if words.len() > 1 {
                    match decimal::parse_unsigned(words[1], usize::MAX as nat) {
                        Ok(length) => if length <= 1_073_741_824 {
                            read matches Ok(response) && response.rc == ReturnCode::Va && response.datalen is Some
                                && response.datalen->0 == length && response.flags == words.skip(2) && response.value is None
                        } else {
                            read matches Err(e) && e is Protocol
                        },
                        Err(_) => read matches Err(e) && e is Protocol,
                    }
                } else {
                    read matches Err(e) && e is Protocol
                },
                Ok(rc) => read matches Ok(response) && response.rc == rc && response.datalen is None && response.flags
                    == words.skip(1) && response.value is None,
                Err(e) => read is Err,
            }
        }),
{
    reveal_strlit("ERROR");
    bytes::lemma_ascii_literal("ERROR");
    reveal_strlit("CLIENT_ERROR");
    bytes::lemma_ascii_literal("CLIENT_ERROR");
    reveal_strlit("SERVER_ERROR");
    bytes::lemma_ascii_literal("SERVER_ERROR");
    reveal_strlit("HD");
    bytes::lemma_ascii_literal("HD");
    reveal_strlit("VA");
    bytes::lemma_ascii_literal("VA");
    reveal_strlit("EN");
    bytes::lemma_ascii_literal("EN");
    reveal_strlit("NS");
    bytes::lemma_ascii_literal("NS");
    reveal_strlit("EX");
    bytes::lemma_ascii_literal("EX");
    reveal_strlit("NF");
    bytes::lemma_ascii_literal("NF");
    reveal_strlit("MN");
    bytes::lemma_ascii_literal("MN");
    reveal_strlit("ME");
    bytes::lemma_ascii_literal("ME");
    let words = bytes::words(line);
    assert(bytes::utf8("ERROR").len() == 5 && bytes::utf8("CLIENT_ERROR").len() == 12);
    assert(bytes::utf8("SERVER_ERROR").len() == 12);
    assert(bytes::utf8("CLIENT_ERROR")[0] == 'C' as u8 && bytes::utf8("SERVER_ERROR")[0] == 'S' as u8);
    assert(meta_command::return_code(words[0]) is Ok ==> words[0].len() == 2);
    if words.len() > 1 {
        assert(words.skip(1).skip(1) =~= words.skip(2));
        assert(words.skip(1)[0] == words[1]);
    }
}

/// A line without a word is no reply.
pub proof fn lemma_empty_reply_line(line: Seq<u8>)
    requires
        bytes::words(line).len() == 0,
    ensures
        meta_command::header(line) matches Err(e) && e is Protocol,
{
}

/// A reply is read from its first line on. Without a whole line, or without the
/// whole value that it announces, nothing is read yet. A value is the bytes that
/// were announced, and must be closed by a line end.
pub proof fn lemma_replies_are_framed(line: Seq<u8>, rest: Seq<u8>)
    requires
        forall|i: int| 0 <= i < line.len() ==> #[trigger] line[i] != 10,
    ensures
        connection::framed(line) is None,
        ({
            let read = connection::framed(line + seq![13u8, 10u8] + rest);
            let used = line.len() + 2;
            match meta_command::header(line) {
                Err(e) => read == Some(Err::<(MetaResponseView, nat), (ErrorView, nat)>((e, used))),
                Ok(response) => match response.datalen {
                    None => read == Some(Ok::<(MetaResponseView, nat), (ErrorView, nat)>((response, used))),
                    Some(length) => if rest.len() < length + 2 {
                        read is None
                    } else if rest[length as int] == 13 && rest[length + 1] == 10 {
                        read == Some(
                            Ok::<(MetaResponseView, nat), (ErrorView, nat)>(
                                (
                                    MetaResponseView { value: Some(rest.take(length as int)), ..response },
                                    used + length as nat + 2,
                                ),
                            ),
                        )
                    } else {
                        read matches Some(Err((e, taken))) && e is Protocol && taken == used + length + 2
                    },
                },
            }
        }),
{
    lemma_no_line_end(line);
    let all = line + seq![13u8, 10u8] + rest;
    lemma_first_line_end(line, rest);
    assert(connection::line_before(all, (line.len() + 1) as int) =~= line);
    if let Ok(response) = meta_command::header(line) {
        if let Some(length) = response.datalen {
            let start = line.len() + 2;
            if rest.len() >= length + 2 {
                assert(all.subrange(start + length, start + length + 2) =~= rest.subrange(
                    length as int,
                    length as int + 2,
                ));
                let end = rest.subrange(length as int, length as int + 2);
                assert(end[0] == rest[length as int] && end[1] == rest[length + 1]);
                if rest[length as int] == 13 && rest[length + 1] == 10 {
                    assert(end =~= seq![13u8, 10u8]);
                }
                assert(all.subrange(start as int, start + length) =~= rest.take(length as int));
            }
        }
    }
}

proof fn lemma_no_line_end(line: Seq<u8>)
    requires
        forall|i: int| 0 <= i < line.len() ==> #[trigger] line[i] != 10,
    ensures
        connection::line_end(line) == line.len(),
    decreases line.len(),
{
    if line.len() > 0 {
        let rest = line.skip(1);
        assert forall|i: int| 0 <= i < rest.len() implies #[trigger] rest[i] != 10 by {
            assert(rest[i] == line[i + 1]);
        }
        lemma_no_line_end(rest);
    }
}

proof fn lemma_first_line_end(line: Seq<u8>, rest: Seq<u8>)
    requires
        forall|i: int| 0 <= i < line.len() ==> #[trigger] line[i] != 10,
    ensures
        connection::line_end(line + seq![13u8, 10u8] + rest) == line.len() + 1,
    decreases line.len(),
{
    let all = line + seq![13u8, 10u8] + rest;
    if line.len() > 0 {
        let shorter = line.skip(1);
        assert forall|i: int| 0 <= i < shorter.len() implies #[trigger] shorter[i] != 10 by {
            assert(shorter[i] == line[i + 1]);
        }
        lemma_first_line_end(shorter, rest);
        assert(all.skip(1) =~= shorter + seq![13u8, 10u8] + rest);
        assert(all[0] == line[0]);
    } else {
        assert(all[0] == 13);
        assert(all.skip(1)[0] == 10);
        assert(connection::line_end(all.skip(1)) == 0);
    }
}

/// A reply starts out with what its line and data block held, and nothing else
/// known of it.
pub proof fn lemma_undecoded_reply(response: MetaResponseView)
    ensures
        ({
            let start = meta_api::undecoded(response);
            &&& start.result.rc == response.rc
            &&& start.result.value == response.value
            &&& start.result.flags == response.flags
            &&& start.result.cas is None && start.result.ttl is None && start.result.client_flags is None
            &&& start.result.size is None && start.result.last_access is None && start.result.hit_before is None
            &&& start.result.key is None && start.result.opaque is None
            &&& !start.result.won && !start.result.busy && !start.result.stale && !start.key_base64
        }),
{
}

/// A flag of a reply tells one thing, by its letter, and leaves all others as they
/// were: `f` the client flags, `c` the CAS, `t` the TTL, `l` the age, `s` the
/// size, `h` whether it was read before, `k` the key, `O` the opaque token, `W`
/// that the right to recompute was won, `Z` that another caller has it, `X` that
/// the value is stale, `b` that the key is in base64. A number that cannot be read
/// is a fault, and other letters tell nothing.
pub proof fn lemma_flags_of_a_reply(state: FlagState, flag: Seq<u8>)
    requires
        flag.len() > 0,
    ensures
        ({
            let letter = flag[0];
            let token = flag.skip(1);
            let word = if letter == 'f' as u8 {
                u32::MAX as nat
            } else {
                u64::MAX as nat
            };
            let counts = letter == 'f' as u8 || letter == 'c' as u8 || letter == 'l' as u8 || letter == 's' as u8;
            match meta_api::decode_flag(state, flag) {
                Ok(next) => {
                    &&& next.result.rc == state.result.rc
                    &&& next.result.value == state.result.value
                    &&& next.result.flags == state.result.flags
                    &&& counts ==> decimal::parse_unsigned(token, word) is Ok
                    &&& letter == 't' as u8 ==> decimal::parse_signed(token, i64::MIN as int, i64::MAX as int) is Ok
                    &&& if letter == 'f' as u8 {
                        next.result.client_flags is Some && decimal::parse_unsigned(token, u32::MAX as nat) == Ok::<
                            nat,
                            IntErrorKind,
                        >(next.result.client_flags->0 as nat)
                    } else {
                        next.result.client_flags == state.result.client_flags
                    }
                    &&& if letter == 'c' as u8 {
                        next.result.cas is Some && decimal::parse_unsigned(token, u64::MAX as nat) == Ok::<
                            nat,
                            IntErrorKind,
                        >(next.result.cas->0 as nat)
                    } else {
                        next.result.cas == state.result.cas
                    }
                    &&& if letter == 'l' as u8 {
                        next.result.last_access is Some && decimal::parse_unsigned(token, u64::MAX as nat) == Ok::<
                            nat,
                            IntErrorKind,
                        >(next.result.last_access->0 as nat)
                    } else {
                        next.result.last_access == state.result.last_access
                    }
                    &&& if letter == 's' as u8 {
                        next.result.size is Some && decimal::parse_unsigned(token, u64::MAX as nat) == Ok::<
                            nat,
                            IntErrorKind,
                        >(next.result.size->0 as nat)
                    } else {
                        next.result.size == state.result.size
                    }
                    &&& if letter == 't' as u8 {
                        next.result.ttl is Some && decimal::parse_signed(token, i64::MIN as int, i64::MAX as int)
                            == Ok::<int, IntErrorKind>(next.result.ttl->0 as int)
                    } else {
                        next.result.ttl == state.result.ttl
                    }
                    &&& if letter == 'h' as u8 {
                        next.result.hit_before == Some(token != seq!['0' as u8])
                    } else {
                        next.result.hit_before == state.result.hit_before
                    }
                    &&& if letter == 'k' as u8 {
                        next.result.key == Some(token)
                    } else {
                        next.result.key == state.result.key
                    }
                    &&& if letter == 'O' as u8 {
                        next.result.opaque == Some(token)
                    } else {
                        next.result.opaque == state.result.opaque
                    }
                    &&& next.result.won == (letter == 'W' as u8 || state.result.won)
                    &&& next.result.busy == (letter == 'Z' as u8 || state.result.busy)
                    &&& next.result.stale == (letter == 'X' as u8 || state.result.stale)
                    &&& next.key_base64 == (letter == 'b' as u8 || state.key_base64)
                },
                Err(e) => e is Protocol && ((counts && decimal::parse_unsigned(token, word) is Err) || (letter
                    == 't' as u8 && decimal::parse_signed(token, i64::MIN as int, i64::MAX as int) is Err)),
            }
        }),
{
}

/// The flags of a reply are read in order, up to the first that is a fault.
pub proof fn lemma_flags_are_read_in_order(start: FlagState, flags: Seq<Seq<u8>>, flag: Seq<u8>)
    ensures
        meta_api::decode_flags(start, Seq::empty()) == Ok::<FlagState, ErrorView>(start),
        match meta_api::decode_flags(start, flags) {
            Ok(state) => meta_api::decode_flags(start, flags.push(flag)) == meta_api::decode_flag(state, flag),
            Err(e) => meta_api::decode_flags(start, flags.push(flag)) == Err::<FlagState, ErrorView>(e),
        },
        meta_api::decode_flag(start, Seq::empty()) == Ok::<FlagState, ErrorView>(start),
{
    assert(flags.push(flag).drop_last() =~= flags);
}

/// What a reply comes to is what its flags told, except that a key in base64 is
/// given back as it was.
pub proof fn lemma_reply_comes_to_its_flags(response: MetaResponseView)
    ensures
        match meta_api::decode_flags(meta_api::undecoded(response), response.flags) {
            Err(e) => meta_api::meta_result(response) == Err::<MetaCommandResultView, ErrorView>(e),
            Ok(state) => match meta_api::meta_result(response) {
                Ok(result) => {
                    &&& result.rc == state.result.rc
                    &&& result.value == state.result.value
                    &&& result.cas == state.result.cas
                    &&& result.ttl == state.result.ttl
                    &&& result.client_flags == state.result.client_flags
                    &&& result.size == state.result.size
                    &&& result.last_access == state.result.last_access
                    &&& result.hit_before == state.result.hit_before
                    &&& result.opaque == state.result.opaque
                    &&& result.won == state.result.won
                    &&& result.busy == state.result.busy
                    &&& result.stale == state.result.stale
                    &&& result.flags == state.result.flags
                    &&& if state.key_base64 && state.result.key is Some {
                        result.key is Some && base64::decoded(state.result.key->0) == result.key
                    } else {
                        result.key == state.result.key
                    }
                },
                Err(e) => e is Protocol && state.key_base64 && state.result.key is Some && base64::decoded(
                    state.result.key->0,
                ) is None,
            },
        },
{
}

/// A field of a debug reply is split at its first equal sign, and has an empty
/// value without one.
pub proof fn lemma_debug_fields_are_split(name: Seq<u8>, value: Seq<u8>)
    requires
        forall|i: int| 0 <= i < name.len() ==> #[trigger] name[i] != 61,
    ensures
        meta_api::field_name(name + seq![61u8] + value) == name,
        meta_api::field_value(name + seq![61u8] + value) == value,
        meta_api::field_name(name) == name,
        meta_api::field_value(name).len() == 0,
{
    lemma_first_equal_sign(name, value);
    let token = name + seq![61u8] + value;
    assert(token.take(name.len() as int) =~= name);
    assert(token.skip((name.len() + 1) as int) =~= value);
    assert(name.take(name.len() as int) =~= name);
}

proof fn lemma_first_equal_sign(name: Seq<u8>, value: Seq<u8>)
    requires
        forall|i: int| 0 <= i < name.len() ==> #[trigger] name[i] != 61,
    ensures
        meta_api::equals_at(name + seq![61u8] + value) == name.len(),
        meta_api::equals_at(name) == name.len(),
    decreases name.len(),
{
    let token = name + seq![61u8] + value;
    if name.len() > 0 {
        let shorter = name.skip(1);
        assert forall|i: int| 0 <= i < shorter.len() implies #[trigger] shorter[i] != 61 by {
            assert(shorter[i] == name[i + 1]);
        }
        lemma_first_equal_sign(shorter, value);
        assert(token.skip(1) =~= shorter + seq![61u8] + value);
        assert(token[0] == name[0]);
    } else {
        assert(token[0] == 61);
    }
}

/// A debug reply is nothing on a miss, and else its fields behind the key, each
/// under its name.
pub proof fn lemma_debug_replies(response: MetaResponseView, tokens: Seq<Seq<u8>>, token: Seq<u8>)
    ensures
        response.rc == ReturnCode::En ==> meta_api::debug_result(response) == Ok::<
            Option<Seq<(Seq<char>, Seq<char>)>>,
            ErrorView,
        >(None),
        response.rc != ReturnCode::En && response.rc != ReturnCode::Me ==> (meta_api::debug_result(response) matches Err(e)
            && e is Protocol),
        response.rc == ReturnCode::Me && response.flags.len() > 0 ==> (match meta_api::debug_fields(
            response.flags.skip(1),
        ) {
            Ok(fields) => meta_api::debug_result(response) == Ok::<Option<Seq<(Seq<char>, Seq<char>)>>, ErrorView>(
                Some(fields),
            ),
            Err(e) => meta_api::debug_result(response) == Err::<Option<Seq<(Seq<char>, Seq<char>)>>, ErrorView>(e),
        }),
        meta_api::debug_fields(Seq::empty()) matches Ok(none) && none.len() == 0,
        match meta_api::debug_fields(tokens) {
            Err(e) => meta_api::debug_fields(tokens.push(token)) == Err::<Seq<(Seq<char>, Seq<char>)>, ErrorView>(e),
            Ok(fields) => {
                let name = meta_api::field_name(token);
                let value = meta_api::field_value(token);
                if vstd::utf8::valid_utf8(name) && vstd::utf8::valid_utf8(value) {
                    meta_api::debug_fields(tokens.push(token)) == Ok::<Seq<(Seq<char>, Seq<char>)>, ErrorView>(
                        pairs::put(fields, vstd::utf8::decode_utf8(name), vstd::utf8::decode_utf8(value)),
                    )
                } else {
                    meta_api::debug_fields(tokens.push(token)) matches Err(e) && e is Protocol
                }
            },
        },
{
    assert(tokens.push(token).drop_last() =~= tokens);
}

/// The views of commands, replies and results show every field as it is.
pub proof fn lemma_messages_are_seen_as_they_are(
    command: MetaCommand,
    response: MetaResponse,
    result: MetaCommandResult,
)
    ensures
        command@.op == command.op,
        command@.key == command.key@,
        command@.flags.len() == command.flags@.len(),
        forall|i: int| 0 <= i < command.flags@.len() ==> #[trigger] command@.flags[i] == command.flags@[i]@,
        command@.value is Some <==> command.value is Some,
        command.value matches Some(value) ==> command@.value == Some(value@),
        response@.rc == response.rc,
        response@.datalen == response.datalen,
        response@.flags.len() == response.flags@.len(),
        forall|i: int| 0 <= i < response.flags@.len() ==> #[trigger] response@.flags[i] == response.flags@[i]@,
        response@.value is Some <==> response.value is Some,
        response.value matches Some(value) ==> response@.value == Some(value@),
        result@.rc == result.rc,
        result@.value is Some <==> result.value is Some,
        result.value matches Some(value) ==> result@.value == Some(value@),
        result@.cas == result.cas,
        result@.ttl == result.ttl,
        result@.client_flags == result.client_flags,
        result@.size == result.size,
        result@.last_access == result.last_access,
        result@.hit_before == result.hit_before,
        result@.key is Some <==> result.key is Some,
        result.key matches Some(key) ==> result@.key == Some(key@),
        result@.opaque is Some <==> result.opaque is Some,
        result.opaque matches Some(opaque) ==> result@.opaque == Some(opaque@),
        result@.won == result.won,
        result@.busy == result.busy,
        result@.stale == result.stale,
{
}

} // verus!
