//! An item that a server sends is read back as it was stored, in either
//! protocol.

use vstd::prelude::*;
use vstd::string::*;

use super::ascii;
use super::ascii::Item;
use super::binary_packet;
use super::binary_packet::{PacketHeader, ResponseView};
use crate::big_endian;
use crate::bytes;
use crate::client;
use crate::decimal;
use crate::error::MemcacheErrorView;
use crate::value::FromMemcacheValueExt;

verus! {

/// Bytes that can stand as a field of a line.
pub open spec fn is_field(field: Seq<u8>) -> bool {
    forall|i: int| 0 <= i < field.len() ==> #[trigger] field[i] != 32 && field[i] != 13
}

proof fn lemma_field_alone(field: Seq<u8>)
    requires
        is_field(field),
    ensures
        bytes::fields(field) == seq![field],
{
    bytes::lemma_word_len_is(field, field.len());
}

/// A field after a space adds one field to a line.
proof fn lemma_one_more_field(line: Seq<u8>, field: Seq<u8>)
    requires
        is_field(field),
    ensures
        bytes::fields(line + seq![32u8] + field) == bytes::fields(line).push(field),
    decreases line.len(),
{
    let longer = line + seq![32u8] + field;
    bytes::lemma_word_len(line);
    let k = bytes::word_len(line);
    assert forall|i: int| 0 <= i < k implies #[trigger] longer[i] != 32 by {
        assert(longer[i] == line[i]);
    }
    assert(longer[k as int] == 32);
    bytes::lemma_word_len_is(longer, k);
    assert(longer.take(k as int) =~= line.take(k as int));
    if k == line.len() {
        assert(longer.skip(k as int + 1) =~= field);
        lemma_field_alone(field);
        assert(line.take(k as int) =~= line);
        assert(bytes::fields(longer) =~= seq![line].push(field));
    } else {
        assert(longer.skip(k as int + 1) =~= line.skip(k as int + 1) + seq![32u8] + field);
        lemma_one_more_field(line.skip(k as int + 1), field);
        assert(bytes::fields(longer) =~= bytes::fields(line).push(field));
    }
}

/// Ten, so many times multiplied with itself.
spec fn power_of_ten(k: nat) -> nat
    decreases k,
{
    if k == 0 {
        1
    } else {
        10 * power_of_ten((k - 1) as nat)
    }
}

proof fn lemma_decimal_length(n: nat, k: nat)
    requires
        k > 0,
        n < power_of_ten(k),
    ensures
        decimal::decimal(n).len() <= k,
    decreases k,
{
    if n >= 10 {
        if k == 1 {
            assert(power_of_ten(1) == 10 * power_of_ten(0));
        } else {
            lemma_decimal_length(n / 10, (k - 1) as nat);
        }
    }
}

/// A number that fits 64 bits has a field of at most 20 digits.
proof fn lemma_number_field(n: nat)
    requires
        n <= u64::MAX,
    ensures
        is_field(decimal::decimal(n)),
        bytes::is_ascii_bytes(decimal::decimal(n)),
        0 < decimal::decimal(n).len() <= 20,
{
    reveal_with_fuel(power_of_ten, 21);
    assert(power_of_ten(20) == 100_000_000_000_000_000_000);
    lemma_decimal_length(n, 20);
    decimal::lemma_decimal_digits(n);
    let s = decimal::decimal(n);
    assert forall|i: int| 0 <= i < s.len() implies #[trigger] s[i] != 32 && s[i] != 13 && s[i] < 128 by {
        assert(decimal::is_digit(s[i]));
    }
}

/// The line that announces an item, without its line end.
pub open spec fn item_line(key: Seq<u8>, flags: u32, length: nat, cas: u64) -> Seq<u8> {
    bytes::utf8("VALUE") + seq![32u8] + key + seq![32u8] + decimal::decimal(flags as nat) + seq![32u8]
        + decimal::decimal(length) + seq![32u8] + decimal::decimal(cas as nat)
}

/// An item as a server of the text protocol sends it, with its CAS token.
pub open spec fn item_text(key: Seq<u8>, data: Seq<u8>, flags: u32, cas: u64) -> Seq<u8> {
    item_line(key, flags, data.len(), cas) + bytes::crlf() + data + bytes::crlf()
}

proof fn lemma_item_line(key: Seq<u8>, flags: u32, length: nat, cas: u64)
    requires
        is_field(key),
        vstd::utf8::valid_utf8(key),
        client::key_fits(key),
        length <= u64::MAX,
    ensures
        ({
            let line = item_line(key, flags, length, cas);
            &&& bytes::fields(line) == seq![
                bytes::utf8("VALUE"),
                key,
                decimal::decimal(flags as nat),
                decimal::decimal(length),
                decimal::decimal(cas as nat),
            ]
            &&& vstd::utf8::valid_utf8(line)
            &&& 5 < line.len() <= 400
            &&& line.take(5) == bytes::utf8("VALUE")
            &&& bytes::utf8("VALUE").len() == 5
            &&& forall|i: int| 0 <= i < line.len() ==> #[trigger] line[i] != 13
        }),
{
    reveal_strlit("VALUE");
    bytes::lemma_ascii_literal("VALUE");
    let word = bytes::utf8("VALUE");
    let f = decimal::decimal(flags as nat);
    let l = decimal::decimal(length);
    let c = decimal::decimal(cas as nat);
    lemma_number_field(flags as nat);
    lemma_number_field(length);
    lemma_number_field(cas as nat);
    let one = word + seq![32u8] + key;
    let two = one + seq![32u8] + f;
    let three = two + seq![32u8] + l;
    let line = three + seq![32u8] + c;
    lemma_field_alone(word);
    lemma_one_more_field(word, key);
    lemma_one_more_field(one, f);
    lemma_one_more_field(two, l);
    lemma_one_more_field(three, c);
    assert(line =~= item_line(key, flags, length, cas));
    assert(bytes::fields(line) =~= seq![word, key, f, l, c]);
    bytes::lemma_ascii_valid(word + seq![32u8]);
    vstd::utf8::valid_utf8_concat(word + seq![32u8], key);
    let tail = seq![32u8] + f + seq![32u8] + l + seq![32u8] + c;
    assert(bytes::is_ascii_bytes(tail));
    bytes::lemma_ascii_valid(tail);
    vstd::utf8::valid_utf8_concat(one, tail);
    assert(line =~= one + tail);
    assert forall|i: int| 0 <= i < line.len() implies #[trigger] line[i] != 13 by {
        if i < one.len() {
            assert(line[i] == one[i]);
            if i >= 6 {
                assert(one[i] == key[i - 6]);
            }
        } else {
            assert(line[i] == tail[i - one.len()]);
        }
    }
    assert(line.take(5) =~= word);
}

/// An item is read back from its text as it was sent: the key, the bytes,
/// whatever they are, the flags and the CAS token. Only a reader that wants
/// another type of value can fail on it.
pub proof fn lemma_item_text_is_read_back<V: FromMemcacheValueExt>(
    key: Seq<char>,
    data: Seq<u8>,
    flags: u32,
    cas: u64,
    rest: Seq<u8>,
)
    requires
        is_field(vstd::utf8::encode_utf8(key)),
        client::key_fits(vstd::utf8::encode_utf8(key)),
        data.len() <= usize::MAX,
    ensures
        ascii::entry_read::<V>(item_text(vstd::utf8::encode_utf8(key), data, flags, cas) + rest, true) == (
            match V::value_fault_ext(data, flags, Some(cas)) {
                Some(e) => Err::<Option<Item>, MemcacheErrorView>(e),
                None => Ok::<Option<Item>, MemcacheErrorView>(
                    Some(Item { key, value: data, flags, cas: Some(cas) }),
                ),
            },
            rest,
        ),
{
    let name = vstd::utf8::encode_utf8(key);
    vstd::utf8::encode_utf8_valid_utf8(key);
    vstd::utf8::encode_utf8_decode_utf8(key);
    let header = item_line(name, flags, data.len(), cas);
    lemma_item_line(name, flags, data.len(), cas);
    let line = header + bytes::crlf();
    let after = data + bytes::crlf() + rest;
    let all = item_text(name, data, flags, cas) + rest;
    assert(all =~= line + after);
    assert forall|i: int| 0 <= i < header.len() && i + 1 < all.len() implies !(#[trigger] all[i] == 13 && all[i + 1]
        == 10) by {
        assert(all[i] == header[i]);
    }
    ascii::lemma_line_length_is(all, header.len() as int);
    assert(all.take(line.len() as int) =~= line);
    assert(all.skip(line.len() as int) =~= after);
    assert(bytes::is_ascii_bytes(bytes::crlf()));
    bytes::lemma_ascii_valid(bytes::crlf());
    vstd::utf8::valid_utf8_concat(header, bytes::crlf());
    assert(ascii::line_read(all) == (Ok::<Seq<u8>, MemcacheErrorView>(line), after));
    assert(line.take(5) =~= header.take(5));
    lemma_value_line_is_no_error(line);
    assert(ascii::without_end(line) =~= header);
    decimal::lemma_unsigned_roundtrip(flags as nat, u32::MAX as nat);
    decimal::lemma_unsigned_roundtrip(data.len(), usize::MAX as nat);
    decimal::lemma_unsigned_roundtrip(cas as nat, u64::MAX as nat);
    assert(after.subrange(data.len() as int, data.len() as int + 2) =~= bytes::crlf());
    assert(after.take(data.len() as int) =~= data);
    assert(after.skip(data.len() as int + 2) =~= rest);
    assert(ascii::block_read(after, data.len() as int) == (Ok::<Seq<u8>, MemcacheErrorView>(data), rest));
    assert(ascii::value_line(line, true) == Ok::<Option<ascii::ValueLine>, MemcacheErrorView>(
        Some(ascii::ValueLine { key: name, flags, length: data.len() as usize, cas: Some(cas) }),
    ));
}

proof fn lemma_value_line_is_no_error(line: Seq<u8>)
    requires
        line.len() > 5,
        line.take(5) == bytes::utf8("VALUE"),
    ensures
        crate::error::line_error(line) is None,
        line != bytes::utf8("END\r\n"),
{
    reveal_strlit("VALUE");
    reveal_strlit("CLIENT_ERROR");
    reveal_strlit("SERVER_ERROR");
    reveal_strlit("ERROR");
    reveal_strlit("NOT_FOUND\r\n");
    reveal_strlit("END\r\n");
    bytes::lemma_ascii_literal("VALUE");
    bytes::lemma_ascii_literal("CLIENT_ERROR");
    bytes::lemma_ascii_literal("SERVER_ERROR");
    bytes::lemma_ascii_literal("ERROR");
    bytes::lemma_ascii_literal("NOT_FOUND\r\n");
    bytes::lemma_ascii_literal("END\r\n");
    assert(line[0] == line.take(5)[0]);
    assert(line[0] == 86);
    assert(bytes::utf8("CLIENT_ERROR")[0] == 67);
    assert(bytes::utf8("SERVER_ERROR")[0] == 83);
    assert(bytes::utf8("ERROR")[0] == 69);
    assert(bytes::utf8("NOT_FOUND\r\n")[0] == 78);
    assert(bytes::utf8("END\r\n")[0] == 69);
    assert(bytes::has_prefix(line, bytes::utf8("CLIENT_ERROR")) ==> line[0] == line.take(12)[0]);
    assert(bytes::has_prefix(line, bytes::utf8("SERVER_ERROR")) ==> line[0] == line.take(12)[0]);
    assert(bytes::has_prefix(line, bytes::utf8("ERROR")) ==> line[0] == line.take(5)[0]);
}

/// The packet that answers a get with an item.
pub open spec fn item_packet(data: Seq<u8>, flags: u32, cas: u64) -> ResponseView {
    ResponseView {
        header: PacketHeader {
            magic: 0x81,
            extras_length: 4,
            total_body_length: (4 + data.len()) as u32,
            cas,
            ..PacketHeader::blank()
        },
        key: Seq::empty(),
        extras: big_endian::digits(flags as nat, 4),
        value: data,
    }
}

/// An item is read back from its packet as it was sent: the bytes, whatever
/// they are, the flags and the CAS token.
pub proof fn lemma_item_packet_is_read_back(data: Seq<u8>, flags: u32, cas: u64, rest: Seq<u8>)
    requires
        4 + data.len() <= u32::MAX,
    ensures
        ({
            let response = item_packet(data, flags, cas);
            &&& binary_packet::success_read(binary_packet::packet(response) + rest) == (
                Ok::<ResponseView, MemcacheErrorView>(response),
                rest,
            )
            &&& binary_packet::item_read(response) == Ok::<(Seq<u8>, u32, u64), MemcacheErrorView>((data, flags, cas))
        }),
{
    let response = item_packet(data, flags, cas);
    big_endian::lemma_spans();
    big_endian::lemma_roundtrip(flags as nat, 4);
    binary_packet::lemma_response_roundtrip(response, rest);
    assert(response.extras.take(4) =~= response.extras);
}

} // verus!
