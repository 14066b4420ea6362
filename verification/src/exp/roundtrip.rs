//! What the two ends of a connection read of each other: the server of a
//! request, the client of a response, and the reader of what was stored.

use vstd::prelude::*;
use vstd::string::*;

use super::connection;
use super::error::ErrorView;
use super::meta_api;
use super::meta_api::{MetaCommandResultView, SetMode};
use super::meta_command;
use super::meta_command::{MetaCommandView, MetaOp, MetaResponseView, ReturnCode};
use super::scenario;

use super::semantics;
use super::ttl::Ttl;
use super::value::Encode;
use crate::bytes;
use crate::decimal;
use crate::time::SystemTime;

verus! {

/// Bytes that can stand as one token on a line.
pub open spec fn is_token(token: Seq<u8>) -> bool {
    &&& token.len() > 0
    &&& forall|i: int| 0 <= i < token.len() ==> #[trigger] token[i] != 32 && token[i] != 10 && token[i] != 13
}

pub open spec fn are_tokens(tokens: Seq<Seq<u8>>) -> bool {
    forall|i: int| 0 <= i < tokens.len() ==> is_token(#[trigger] tokens[i])
}

/// Whether bytes hold no line end.
pub open spec fn is_line(line: Seq<u8>) -> bool {
    forall|i: int| 0 <= i < line.len() ==> #[trigger] line[i] != 10 && line[i] != 13
}

proof fn lemma_word_alone(token: Seq<u8>)
    requires
        is_token(token),
    ensures
        bytes::words(token) == seq![token],
{
    bytes::lemma_word_len_is(token, token.len());
    assert(token.take(token.len() as int) =~= token);
    assert(token.skip(token.len() as int) =~= Seq::<u8>::empty());
    assert(bytes::words(Seq::<u8>::empty()) =~= Seq::<Seq<u8>>::empty());
    assert(bytes::words(token) =~= seq![token]);
}

/// A token after a space adds one word to a line.
proof fn lemma_one_more_word(line: Seq<u8>, token: Seq<u8>)
    requires
        is_token(token),
    ensures
        bytes::words(line + seq![32u8] + token) == bytes::words(line).push(token),
    decreases line.len(),
{
    let longer = line + seq![32u8] + token;
    if line.len() == 0 {
        assert(longer[0] == 32);
        assert(longer.skip(1) =~= token);
        lemma_word_alone(token);
        assert(bytes::words(line).push(token) =~= seq![token]);
    } else if line[0] == 32 {
        assert(longer[0] == 32);
        assert(longer.skip(1) =~= line.skip(1) + seq![32u8] + token);
        lemma_one_more_word(line.skip(1), token);
    } else {
        bytes::lemma_word_len(line);
        let k = bytes::word_len(line);
        assert(longer[0] != 32);
        assert forall|i: int| 0 <= i < k implies #[trigger] longer[i] != 32 by {
            assert(longer[i] == line[i]);
        }
        assert(longer[k as int] == 32);
        bytes::lemma_word_len_is(longer, k);
        assert(longer.take(k as int) =~= line.take(k as int));
        assert(longer.skip(k as int) =~= line.skip(k as int) + seq![32u8] + token);
        lemma_one_more_word(line.skip(k as int), token);
        assert(bytes::words(longer) =~= bytes::words(line).push(token));
    }
}

/// Tokens that follow a line, each after a space, are its further words.
proof fn lemma_more_words(line: Seq<u8>, tokens: Seq<Seq<u8>>)
    requires
        are_tokens(tokens),
    ensures
        bytes::words(line + meta_command::spaced(tokens)) == bytes::words(line) + tokens,
    decreases tokens.len(),
{
    if tokens.len() == 0 {
        assert(line + meta_command::spaced(tokens) =~= line);
        assert(bytes::words(line) + tokens =~= bytes::words(line));
    } else {
        let before = tokens.drop_last();
        let last = tokens.last();
        assert(are_tokens(before)) by {
            assert forall|i: int| 0 <= i < before.len() implies is_token(#[trigger] before[i]) by {
                assert(before[i] == tokens[i]);
            }
        }
        assert(is_token(tokens[tokens.len() - 1]));
        lemma_more_words(line, before);
        lemma_one_more_word(line + meta_command::spaced(before), last);
        assert(line + meta_command::spaced(tokens) =~= line + meta_command::spaced(before) + seq![32u8] + last);
        assert((bytes::words(line) + before).push(last) =~= bytes::words(line) + tokens);
    }
}

proof fn lemma_spaced_is_line(tokens: Seq<Seq<u8>>)
    requires
        are_tokens(tokens),
    ensures
        is_line(meta_command::spaced(tokens)),
    decreases tokens.len(),
{
    if tokens.len() > 0 {
        let before = tokens.drop_last();
        assert(are_tokens(before)) by {
            assert forall|i: int| 0 <= i < before.len() implies is_token(#[trigger] before[i]) by {
                assert(before[i] == tokens[i]);
            }
        }
        lemma_spaced_is_line(before);
        let last = tokens[tokens.len() - 1];
        assert(is_token(last));
        let head = meta_command::spaced(before);
        let all = meta_command::spaced(tokens);
        assert(all =~= head + seq![32u8] + last);
        assert forall|i: int| 0 <= i < all.len() implies #[trigger] all[i] != 10 && all[i] != 13 by {
            if i < head.len() {
                assert(all[i] == head[i]);
            } else if i > head.len() {
                assert(all[i] == last[i - head.len() - 1]);
            }
        }
    }
}

/// Two runs of tokens, one after the other.
proof fn lemma_spaced_join(first: Seq<Seq<u8>>, second: Seq<Seq<u8>>)
    ensures
        meta_command::spaced(first + second) == meta_command::spaced(first) + meta_command::spaced(second),
    decreases second.len(),
{
    if second.len() == 0 {
        assert(first + second =~= first);
        assert(meta_command::spaced(first) + meta_command::spaced(second) =~= meta_command::spaced(first));
    } else {
        let all = first + second;
        assert(all.drop_last() =~= first + second.drop_last());
        assert(all.last() == second.last());
        lemma_spaced_join(first, second.drop_last());
        assert(meta_command::spaced(all) =~= meta_command::spaced(first) + meta_command::spaced(second));
    }
}

proof fn lemma_spaced_one(token: Seq<u8>)
    ensures
        meta_command::spaced(seq![token]) == seq![32u8] + token,
{
    let one = seq![token];
    assert(one.drop_last() =~= Seq::<Seq<u8>>::empty());
    assert(meta_command::spaced(one.drop_last()) =~= Seq::<u8>::empty());
    assert(meta_command::spaced(one) =~= seq![32u8] + token);
}

/// A number in decimal, after a letter or alone, is a token.
proof fn lemma_number_is_token(n: nat)
    ensures
        is_token(decimal::decimal(n)),
{
    decimal::lemma_decimal_digits(n);
    let s = decimal::decimal(n);
    assert forall|i: int| 0 <= i < s.len() implies #[trigger] s[i] != 32 && s[i] != 10 && s[i] != 13 by {
        assert(decimal::is_digit(s[i]));
    }
}

proof fn lemma_lettered_number_is_token(letter: u8, n: int)
    requires
        letter != 32 && letter != 10 && letter != 13,
    ensures
        is_token(seq![letter] + decimal::signed_decimal(n)),
{
    let digits = decimal::signed_decimal(n);
    let token = seq![letter] + digits;
    let m = if n < 0 {
        (-n) as nat
    } else {
        n as nat
    };
    lemma_number_is_token(m);
    assert forall|i: int| 0 <= i < token.len() implies #[trigger] token[i] != 32 && token[i] != 10 && token[i]
        != 13 by {
        if i > 0 {
            assert(token[i] == digits[i - 1]);
            if n < 0 && i > 1 {
                assert(digits[i - 1] == decimal::decimal(m)[i - 2]);
            } else if n >= 0 {
                assert(digits[i - 1] == decimal::decimal(m)[i - 1]);
            }
        }
    }
}

/// The length of the data block as a token, where there is a block.
pub open spec fn length_tokens(value: Option<Seq<u8>>) -> Seq<Seq<u8>> {
    match value {
        Some(value) => seq![decimal::decimal(value.len())],
        None => Seq::empty(),
    }
}

/// The opaque token, where there is one.
pub open spec fn opaque_tokens(opaque: Option<nat>) -> Seq<Seq<u8>> {
    match opaque {
        Some(position) => seq![bytes::utf8("O") + decimal::decimal(position)],
        None => Seq::empty(),
    }
}

/// The base64 flag, where the key needs it and does not have it.
pub open spec fn base64_tokens(command: MetaCommandView) -> Seq<Seq<u8>> {
    if !meta_command::legacy_safe(command.key) && !command.flags.contains(bytes::utf8("b")) {
        seq![bytes::utf8("b")]
    } else {
        Seq::empty()
    }
}

/// The tokens of a request line: the command, the key, the length of the data
/// block, the flags, the opaque token and the base64 flag.
pub open spec fn request_tokens(command: MetaCommandView, opaque: Option<nat>) -> Seq<Seq<u8>> {
    seq![command.op.code(), meta_command::wire_key(command.key)] + length_tokens(command.value) + command.flags
        + opaque_tokens(opaque) + base64_tokens(command)
}

proof fn lemma_code_is_token(op: MetaOp)
    ensures
        is_token(op.code()),
{
    reveal_strlit("mg");
    reveal_strlit("ms");
    reveal_strlit("md");
    reveal_strlit("ma");
    reveal_strlit("mn");
    reveal_strlit("me");
    bytes::lemma_ascii_literal("mg");
    bytes::lemma_ascii_literal("ms");
    bytes::lemma_ascii_literal("md");
    bytes::lemma_ascii_literal("ma");
    bytes::lemma_ascii_literal("mn");
    bytes::lemma_ascii_literal("me");
}

proof fn lemma_tokens_join(first: Seq<Seq<u8>>, second: Seq<Seq<u8>>)
    requires
        are_tokens(first),
        are_tokens(second),
    ensures
        are_tokens(first + second),
{
    let all = first + second;
    assert forall|i: int| 0 <= i < all.len() implies is_token(#[trigger] all[i]) by {
        if i < first.len() {
            assert(all[i] == first[i]);
        } else {
            assert(all[i] == second[i - first.len()]);
        }
    }
}

proof fn lemma_key_is_token(key: Seq<u8>)
    requires
        meta_command::key_fault(key) is None,
    ensures
        is_token(meta_command::wire_key(key)),
{
    meta_command::lemma_wire_key_is_a_token(key);
    let token = meta_command::wire_key(key);
    assert forall|i: int| 0 <= i < token.len() implies #[trigger] token[i] != 32 && token[i] != 10 && token[i]
        != 13 by {
        assert(token[i] > 0x20);
    }
}

/// The optional parts of a request line, as text and as tokens.
proof fn lemma_optional_parts(command: MetaCommandView, opaque: Option<nat>)
    ensures
        are_tokens(length_tokens(command.value)),
        meta_command::length_token(command.value) == meta_command::spaced(length_tokens(command.value)),
        are_tokens(opaque_tokens(opaque)),
        meta_command::opaque_token(opaque) == meta_command::spaced(opaque_tokens(opaque)),
        are_tokens(base64_tokens(command)),
        command.base64_token() == meta_command::spaced(base64_tokens(command)),
{
    reveal_strlit("O");
    reveal_strlit(" O");
    reveal_strlit("b");
    reveal_strlit(" b");
    bytes::lemma_ascii_literal("O");
    bytes::lemma_ascii_literal(" O");
    bytes::lemma_ascii_literal("b");
    bytes::lemma_ascii_literal(" b");
    if command.value is Some {
        lemma_number_is_token(command.value->0.len());
        lemma_spaced_one(decimal::decimal(command.value->0.len()));
    }
    if opaque is Some {
        let digits = decimal::decimal(opaque->0);
        lemma_lettered_number_is_token('O' as u8, opaque->0 as int);
        assert(bytes::utf8("O") =~= seq!['O' as u8]);
        lemma_spaced_one(bytes::utf8("O") + digits);
        assert(bytes::utf8(" O") + digits =~= seq![32u8] + (bytes::utf8("O") + digits));
    }
    lemma_spaced_one(bytes::utf8("b"));
    assert(bytes::utf8(" b") =~= seq![32u8] + bytes::utf8("b"));
}

/// A request is one line, which the server splits into the command, the key
/// and the flags as they were given: a key, whatever bytes it holds, cannot
/// pass for anything else on the line.
pub proof fn lemma_request_is_read_as_meant(command: MetaCommandView, opaque: Option<nat>)
    requires
        command.op != MetaOp::Noop,
        command.fault() is None,
        are_tokens(command.flags),
    ensures
        bytes::words(command.request_line(opaque)) == request_tokens(command, opaque),
        is_line(command.request_line(opaque)),
        meta_command::legacy_safe(command.key) ==> request_tokens(command, opaque)[1] == command.key,
        !meta_command::legacy_safe(command.key) ==> super::base64::decoded(request_tokens(command, opaque)[1])
            == Some(command.key) && request_tokens(command, opaque).contains(bytes::utf8("b")),
{
    let code = command.op.code();
    let key = meta_command::wire_key(command.key);
    let length = length_tokens(command.value);
    let position = opaque_tokens(opaque);
    let mark = base64_tokens(command);
    let head = seq![key] + length;
    let tokens = head + command.flags + position + mark;
    let line = command.request_line(opaque);
    lemma_code_is_token(command.op);
    lemma_key_is_token(command.key);
    meta_command::lemma_key_is_recoverable(command.key);
    lemma_optional_parts(command, opaque);
    lemma_tokens_join(seq![key], length);
    lemma_tokens_join(head, command.flags);
    lemma_tokens_join(head + command.flags, position);
    lemma_tokens_join(head + command.flags + position, mark);
    lemma_spaced_one(key);
    lemma_spaced_join(seq![key], length);
    lemma_spaced_join(head, command.flags);
    lemma_spaced_join(head + command.flags, position);
    lemma_spaced_join(head + command.flags + position, mark);
    assert(line =~= code + meta_command::spaced(tokens));
    lemma_more_words(code, tokens);
    lemma_word_alone(code);
    assert(seq![code] + tokens =~= request_tokens(command, opaque));
    lemma_spaced_is_line(tokens);
    assert forall|i: int| 0 <= i < line.len() implies #[trigger] line[i] != 10 && line[i] != 13 by {
        if i < code.len() {
            assert(line[i] == code[i]);
        } else {
            assert(line[i] == meta_command::spaced(tokens)[i - code.len()]);
        }
    }
    if !meta_command::legacy_safe(command.key) {
        let all = request_tokens(command, opaque);
        if mark.len() > 0 {
            assert(all[all.len() - 1] == bytes::utf8("b"));
        } else {
            let i = choose|i: int| 0 <= i < command.flags.len() && command.flags[i] == bytes::utf8("b");
            assert(all[2 + length.len() + i] == bytes::utf8("b"));
        }
    }
}

/// A response that carries a value: its length, flags, and the data block.
pub open spec fn value_response(data: Seq<u8>, flags: Seq<Seq<u8>>) -> Seq<u8> {
    bytes::utf8("VA") + meta_command::spaced(seq![decimal::decimal(data.len())] + flags) + bytes::crlf() + data
        + bytes::crlf()
}

/// A value that the server sends is read back as it was sent, with its flags,
/// whatever bytes it holds and whatever follows it.
pub proof fn lemma_value_response_is_read_back(data: Seq<u8>, flags: Seq<Seq<u8>>, rest: Seq<u8>)
    requires
        data.len() <= meta_command::MAX_VALUE_LENGTH,
        are_tokens(flags),
    ensures
        connection::framed(value_response(data, flags) + rest) == Some(
            Ok::<(MetaResponseView, nat), (ErrorView, nat)>(
                (
                    MetaResponseView {
                        rc: ReturnCode::Va,
                        datalen: Some(data.len() as usize),
                        flags,
                        value: Some(data),
                    },
                    value_response(data, flags).len(),
                ),
            ),
        ),
{
    reveal_strlit("VA");
    reveal_strlit("HD");
    reveal_strlit("ERROR");
    reveal_strlit("CLIENT_ERROR");
    reveal_strlit("SERVER_ERROR");
    bytes::lemma_ascii_literal("VA");
    bytes::lemma_ascii_literal("HD");
    bytes::lemma_ascii_literal("ERROR");
    bytes::lemma_ascii_literal("CLIENT_ERROR");
    bytes::lemma_ascii_literal("SERVER_ERROR");
    let code = bytes::utf8("VA");
    let length = decimal::decimal(data.len());
    let tokens = seq![length] + flags;
    lemma_number_is_token(data.len());
    assert(are_tokens(tokens)) by {
        assert forall|i: int| 0 <= i < tokens.len() implies is_token(#[trigger] tokens[i]) by {
            if i > 0 {
                assert(tokens[i] == flags[i - 1]);
            }
        }
    }
    let line = code + meta_command::spaced(tokens);
    lemma_more_words(code, tokens);
    lemma_word_alone(code);
    lemma_spaced_is_line(tokens);
    assert(is_line(line)) by {
        assert forall|i: int| 0 <= i < line.len() implies #[trigger] line[i] != 10 && line[i] != 13 by {
            if i >= code.len() {
                assert(line[i] == meta_command::spaced(tokens)[i - code.len()]);
            }
        }
    }
    let all = value_response(data, flags) + rest;
    let end = line.len() + 1;
    assert forall|i: int| 0 <= i < end implies all[i] != 10 by {
        if i < line.len() {
            assert(all[i] == line[i]);
        } else {
            assert(all[i] == 13);
        }
    }
    assert(all[end as int] == 10);
    connection::lemma_line_end_is(all, end as int);
    assert(all[end - 1] == 13);
    assert(all.take(end - 1) =~= line);
    let words = bytes::words(line);
    assert(words =~= seq![code] + tokens);
    assert(words[0] == code);
    assert(code.len() == 2);
    assert(bytes::utf8("ERROR").len() == 5);
    assert(bytes::utf8("CLIENT_ERROR").len() == 12);
    assert(bytes::utf8("SERVER_ERROR").len() == 12);
    assert(code[0] != bytes::utf8("HD")[0]);
    assert(words.skip(1) =~= tokens);
    assert(tokens[0] == length);
    assert(tokens.skip(1) =~= flags);
    decimal::lemma_unsigned_roundtrip(data.len(), usize::MAX as nat);
    let start = end + 1;
    let stop = start + data.len();
    assert(all.subrange(stop as int, stop as int + 2) =~= bytes::crlf());
    assert(all.subrange(start as int, stop as int) =~= data);
}

/// The flags of the response to a read: the client flags, the CAS and the TTL.
pub open spec fn read_flags(flags: u32, cas: u64, ttl: i64) -> Seq<Seq<u8>> {
    seq![
        seq!['f' as u8] + decimal::signed_decimal(flags as int),
        seq!['c' as u8] + decimal::signed_decimal(cas as int),
        seq!['t' as u8] + decimal::signed_decimal(ttl as int),
    ]
}

proof fn lemma_read_flags_are_tokens(flags: u32, cas: u64, ttl: i64)
    ensures
        are_tokens(read_flags(flags, cas, ttl)),
{
    lemma_lettered_number_is_token('f' as u8, flags as int);
    lemma_lettered_number_is_token('c' as u8, cas as int);
    lemma_lettered_number_is_token('t' as u8, ttl as int);
}

proof fn lemma_read_flags_decode(response: MetaResponseView, flags: u32, cas: u64, ttl: i64)
    requires
        response.flags == read_flags(flags, cas, ttl),
    ensures
        meta_api::meta_result(response) == Ok::<MetaCommandResultView, ErrorView>(
            MetaCommandResultView {
                client_flags: Some(flags),
                cas: Some(cas),
                ttl: Some(ttl),
                ..meta_api::undecoded(response).result
            },
        ),
{
    let all = read_flags(flags, cas, ttl);
    let start = meta_api::undecoded(response);
    let one = all.drop_last().drop_last();
    let two = all.drop_last();
    decimal::lemma_unsigned_roundtrip(flags as nat, u32::MAX as nat);
    decimal::lemma_unsigned_roundtrip(cas as nat, u64::MAX as nat);
    decimal::lemma_signed_roundtrip(ttl as int, i64::MIN as int, i64::MAX as int);
    assert(one.drop_last() =~= Seq::<Seq<u8>>::empty());
    assert(all[0].skip(1) =~= decimal::signed_decimal(flags as int));
    assert(all[1].skip(1) =~= decimal::signed_decimal(cas as int));
    assert(all[2].skip(1) =~= decimal::signed_decimal(ttl as int));
    assert(one.last() == all[0]);
    assert(two.last() == all[1]);
    assert(all.last() == all[2]);
    assert(all[0][0] == 'f' as u8 && all[1][0] == 'c' as u8 && all[2][0] == 't' as u8);
    let after_one = meta_api::decode_flag(start, all[0])->Ok_0;
    let after_two = meta_api::decode_flag(after_one, all[1])->Ok_0;
    assert(meta_api::decode_flags(start, Seq::empty()) == Ok::<meta_api::FlagState, ErrorView>(start));
    assert(meta_api::decode_flags(start, one) == Ok::<meta_api::FlagState, ErrorView>(after_one));
    assert(meta_api::decode_flags(start, two) == Ok::<meta_api::FlagState, ErrorView>(after_two));
}

/// What is stored is what is read. The command of a store carries the bytes of
/// the encoded value and its flags, and where a read is answered with those
/// bytes and flags, it has a value: those bytes with those flags, never a miss.
pub proof fn lemma_stored_value_is_read<V: Encode>(
    key: Seq<u8>,
    value: V,
    ttl: Ttl,
    mode: SetMode,
    compare_cas: Option<u64>,
    now: SystemTime,
    cas: u64,
    ttl_left: i64,
    rest: Seq<u8>,
)
    requires
        scenario::value_encoding(value) is Ok,
        scenario::value_encoding(value)->Ok_0.bytes.len() <= meta_command::MAX_VALUE_LENGTH,
    ensures
        ({
            let encoded = scenario::value_encoding(value)->Ok_0;
            let plan = scenario::store_plan(key, encoded, ttl, mode, compare_cas, now);
            let wire = value_response(encoded.bytes, read_flags(encoded.flags, cas, ttl_left)) + rest;
            &&& plan matches Ok(command) ==> command.value == Some(encoded.bytes) && (encoded.flags != 0
                ==> command.flags.contains(seq!['F' as u8] + decimal::decimal(encoded.flags as nat)))
            &&& connection::framed(wire) matches Some(Ok((response, _))) && (meta_api::meta_result(response) matches Ok(
                result,
            ) && (scenario::read_facts(result) matches Ok(facts) && facts.has_value() && facts.bytes()
                == encoded.bytes && facts.flags == encoded.flags && facts.cas == Some(cas) && facts.ttl == Some(
                ttl_left,
            )))
        }),
{
    let encoded = scenario::value_encoding(value)->Ok_0;
    let plan = scenario::store_plan(key, encoded, ttl, mode, compare_cas, now);
    if let Ok(command) = plan {
        if encoded.flags != 0 {
            let options = super::meta_api::SetOptions {
                client_flags: semantics::wire_flags(encoded.flags),
                ttl: Some(ttl.wire_spec(now)->Ok_0),
                mode,
                compare_cas,
                ..super::meta_api::SetOptions::plain()
            };
            let before = options.mode.flags() + meta_api::marker(options.invalidate, bytes::utf8("I"))
                + meta_api::marker(options.return_cas, bytes::utf8("c")) + meta_api::marker(
                options.return_size,
                bytes::utf8("s"),
            ) + meta_api::marker(options.return_key, bytes::utf8("k"));
            let token = seq!['F' as u8] + decimal::decimal(encoded.flags as nat);
            assert(meta_api::token('F', meta_api::wide(options.client_flags)) =~= seq![token]);
            assert(command.flags[before.len() as int] == token);
        }
    }
    let flags = read_flags(encoded.flags, cas, ttl_left);
    lemma_read_flags_are_tokens(encoded.flags, cas, ttl_left);
    lemma_value_response_is_read_back(encoded.bytes, flags, rest);
    let response = MetaResponseView {
        rc: ReturnCode::Va,
        datalen: Some(encoded.bytes.len() as usize),
        flags,
        value: Some(encoded.bytes),
    };
    lemma_read_flags_decode(response, encoded.flags, cas, ttl_left);
}

} // verus!
