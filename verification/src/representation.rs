//! What values look like in the cache: which bytes and flags stand for a number, a
//! text or a truth value, and which bytes are read back as one.

use vstd::prelude::*;
use vstd::string::*;

use crate::bytes;
use crate::cacheable::Cacheable;
use crate::decimal;
use crate::decimal::IntErrorKind;
use crate::error::{MemcacheErrorView, ParseErrorView};
use crate::exp::value::{Decode, Encode, Encoded, EncodedView};
use crate::text;
use crate::value;
use crate::value::{FromMemcacheValue, FromMemcacheValueExt, ToMemcacheValue};

verus! {

/// A number is stored as its decimal text, with flags of zero.
pub proof fn lemma_stored_numbers(u8_value: u8, u16_value: u16, u32_value: u32, u64_value: u64, i8_value: i8, i16_value: i16, i32_value: i32, i64_value: i64)
    ensures
        u8_value.bytes_spec() == decimal::signed_decimal(u8_value as int),
        u8_value.flags_spec() == 0,
        u8_value.write_fault() is None,
        u16_value.bytes_spec() == decimal::signed_decimal(u16_value as int),
        u16_value.flags_spec() == 0,
        u16_value.write_fault() is None,
        u32_value.bytes_spec() == decimal::signed_decimal(u32_value as int),
        u32_value.flags_spec() == 0,
        u32_value.write_fault() is None,
        u64_value.bytes_spec() == decimal::signed_decimal(u64_value as int),
        u64_value.flags_spec() == 0,
        u64_value.write_fault() is None,
        i8_value.bytes_spec() == decimal::signed_decimal(i8_value as int),
        i8_value.flags_spec() == 0,
        i8_value.write_fault() is None,
        i16_value.bytes_spec() == decimal::signed_decimal(i16_value as int),
        i16_value.flags_spec() == 0,
        i16_value.write_fault() is None,
        i32_value.bytes_spec() == decimal::signed_decimal(i32_value as int),
        i32_value.flags_spec() == 0,
        i32_value.write_fault() is None,
        i64_value.bytes_spec() == decimal::signed_decimal(i64_value as int),
        i64_value.flags_spec() == 0,
        i64_value.write_fault() is None,
{
}

/// Bytes and texts are stored as they are, and truth values as the words for them,
/// with flags of zero.
pub proof fn lemma_stored_texts(raw: &[u8], owned: String, borrowed: &str, truth: bool)
    ensures
        raw.bytes_spec() == raw@,
        raw.flags_spec() == 0,
        owned.bytes_spec() == vstd::utf8::encode_utf8(owned@),
        owned.flags_spec() == 0,
        (&owned).bytes_spec() == vstd::utf8::encode_utf8(owned@),
        (&owned).flags_spec() == 0,
        borrowed.bytes_spec() == vstd::utf8::encode_utf8(borrowed@),
        borrowed.flags_spec() == 0,
        truth.flags_spec() == 0,
        truth ==> truth.bytes_spec() == seq!['t' as u8, 'r' as u8, 'u' as u8, 'e' as u8],
        !truth ==> truth.bytes_spec() == seq!['f' as u8, 'a' as u8, 'l' as u8, 's' as u8, 'e' as u8],
        raw.write_fault() is None && owned.write_fault() is None && (&owned).write_fault() is None
            && borrowed.write_fault() is None && truth.write_fault() is None,
{
    reveal_strlit("true");
    reveal_strlit("false");
    bytes::lemma_ascii_literal("true");
    bytes::lemma_ascii_literal("false");
    assert(bytes::utf8("true") =~= seq!['t' as u8, 'r' as u8, 'u' as u8, 'e' as u8]);
    assert(bytes::utf8("false") =~= seq!['f' as u8, 'a' as u8, 'l' as u8, 's' as u8, 'e' as u8]);
}

/// A stored text is read as a `u8` where it writes one that fits, and fails
/// otherwise.
pub proof fn lemma_read_as_u8(stored: Seq<u8>, flags: u32, number: u8)
    ensures
        <u8 as FromMemcacheValue>::stands_for(stored, flags, number) <==> decimal::parse_unsigned(stored, 255) == Ok::<nat, IntErrorKind>(number as nat),
        <u8 as FromMemcacheValue>::value_fault(stored, flags) is None <==> vstd::utf8::valid_utf8(stored) && decimal::parse_unsigned(stored, 255) is Ok,
        decimal::parse_unsigned(stored, 255) matches Err(kind) ==> vstd::utf8::valid_utf8(stored) ==> <u8 as FromMemcacheValue>::value_fault(stored, flags)
            == Some(MemcacheErrorView::ParseError(ParseErrorView::Int(kind))),
{
}

/// A stored text is read as a `u16` where it writes one that fits, and fails
/// otherwise.
pub proof fn lemma_read_as_u16(stored: Seq<u8>, flags: u32, number: u16)
    ensures
        <u16 as FromMemcacheValue>::stands_for(stored, flags, number) <==> decimal::parse_unsigned(stored, 65535) == Ok::<nat, IntErrorKind>(number as nat),
        <u16 as FromMemcacheValue>::value_fault(stored, flags) is None <==> vstd::utf8::valid_utf8(stored) && decimal::parse_unsigned(stored, 65535) is Ok,
        decimal::parse_unsigned(stored, 65535) matches Err(kind) ==> vstd::utf8::valid_utf8(stored) ==> <u16 as FromMemcacheValue>::value_fault(stored, flags)
            == Some(MemcacheErrorView::ParseError(ParseErrorView::Int(kind))),
{
}

/// A stored text is read as a `u32` where it writes one that fits, and fails
/// otherwise.
pub proof fn lemma_read_as_u32(stored: Seq<u8>, flags: u32, number: u32)
    ensures
        <u32 as FromMemcacheValue>::stands_for(stored, flags, number) <==> decimal::parse_unsigned(stored, 4294967295) == Ok::<nat, IntErrorKind>(number as nat),
        <u32 as FromMemcacheValue>::value_fault(stored, flags) is None <==> vstd::utf8::valid_utf8(stored) && decimal::parse_unsigned(stored, 4294967295) is Ok,
        decimal::parse_unsigned(stored, 4294967295) matches Err(kind) ==> vstd::utf8::valid_utf8(stored) ==> <u32 as FromMemcacheValue>::value_fault(stored, flags)
            == Some(MemcacheErrorView::ParseError(ParseErrorView::Int(kind))),
{
}

/// A stored text is read as a `u64` where it writes one that fits, and fails
/// otherwise.
pub proof fn lemma_read_as_u64(stored: Seq<u8>, flags: u32, number: u64)
    ensures
        <u64 as FromMemcacheValue>::stands_for(stored, flags, number) <==> decimal::parse_unsigned(stored, 18446744073709551615) == Ok::<nat, IntErrorKind>(number as nat),
        <u64 as FromMemcacheValue>::value_fault(stored, flags) is None <==> vstd::utf8::valid_utf8(stored) && decimal::parse_unsigned(stored, 18446744073709551615) is Ok,
        decimal::parse_unsigned(stored, 18446744073709551615) matches Err(kind) ==> vstd::utf8::valid_utf8(stored) ==> <u64 as FromMemcacheValue>::value_fault(stored, flags)
            == Some(MemcacheErrorView::ParseError(ParseErrorView::Int(kind))),
{
}

/// A stored text is read as a `i8` where it writes one that fits, and fails
/// otherwise.
pub proof fn lemma_read_as_i8(stored: Seq<u8>, flags: u32, number: i8)
    ensures
        <i8 as FromMemcacheValue>::stands_for(stored, flags, number) <==> decimal::parse_signed(stored, -128, 127) == Ok::<int, IntErrorKind>(number as int),
        <i8 as FromMemcacheValue>::value_fault(stored, flags) is None <==> vstd::utf8::valid_utf8(stored) && decimal::parse_signed(stored, -128, 127) is Ok,
        decimal::parse_signed(stored, -128, 127) matches Err(kind) ==> vstd::utf8::valid_utf8(stored) ==> <i8 as FromMemcacheValue>::value_fault(stored, flags)
            == Some(MemcacheErrorView::ParseError(ParseErrorView::Int(kind))),
{
}

/// A stored text is read as a `i16` where it writes one that fits, and fails
/// otherwise.
pub proof fn lemma_read_as_i16(stored: Seq<u8>, flags: u32, number: i16)
    ensures
        <i16 as FromMemcacheValue>::stands_for(stored, flags, number) <==> decimal::parse_signed(stored, -32768, 32767) == Ok::<int, IntErrorKind>(number as int),
        <i16 as FromMemcacheValue>::value_fault(stored, flags) is None <==> vstd::utf8::valid_utf8(stored) && decimal::parse_signed(stored, -32768, 32767) is Ok,
        decimal::parse_signed(stored, -32768, 32767) matches Err(kind) ==> vstd::utf8::valid_utf8(stored) ==> <i16 as FromMemcacheValue>::value_fault(stored, flags)
            == Some(MemcacheErrorView::ParseError(ParseErrorView::Int(kind))),
{
}

/// A stored text is read as a `i32` where it writes one that fits, and fails
/// otherwise.
pub proof fn lemma_read_as_i32(stored: Seq<u8>, flags: u32, number: i32)
    ensures
        <i32 as FromMemcacheValue>::stands_for(stored, flags, number) <==> decimal::parse_signed(stored, -2147483648, 2147483647) == Ok::<int, IntErrorKind>(number as int),
        <i32 as FromMemcacheValue>::value_fault(stored, flags) is None <==> vstd::utf8::valid_utf8(stored) && decimal::parse_signed(stored, -2147483648, 2147483647) is Ok,
        decimal::parse_signed(stored, -2147483648, 2147483647) matches Err(kind) ==> vstd::utf8::valid_utf8(stored) ==> <i32 as FromMemcacheValue>::value_fault(stored, flags)
            == Some(MemcacheErrorView::ParseError(ParseErrorView::Int(kind))),
{
}

/// A stored text is read as a `i64` where it writes one that fits, and fails
/// otherwise.
pub proof fn lemma_read_as_i64(stored: Seq<u8>, flags: u32, number: i64)
    ensures
        <i64 as FromMemcacheValue>::stands_for(stored, flags, number) <==> decimal::parse_signed(stored, -9223372036854775808, 9223372036854775807) == Ok::<int, IntErrorKind>(number as int),
        <i64 as FromMemcacheValue>::value_fault(stored, flags) is None <==> vstd::utf8::valid_utf8(stored) && decimal::parse_signed(stored, -9223372036854775808, 9223372036854775807) is Ok,
        decimal::parse_signed(stored, -9223372036854775808, 9223372036854775807) matches Err(kind) ==> vstd::utf8::valid_utf8(stored) ==> <i64 as FromMemcacheValue>::value_fault(stored, flags)
            == Some(MemcacheErrorView::ParseError(ParseErrorView::Int(kind))),
{
}

/// Stored bytes are read as they are, with their flags and CAS where those are asked
/// for, and as a text where they are UTF-8.
pub proof fn lemma_read_as_stored(
    stored: Seq<u8>,
    flags: u32,
    cas: Option<u64>,
    raw: Vec<u8>,
    owned: String,
    with_flags: u32,
    with_cas: Option<u64>,
    truth: bool,
)
    ensures
        <Vec<u8> as FromMemcacheValue>::value_fault(stored, flags) is None,
        <Vec<u8> as FromMemcacheValue>::stands_for(stored, flags, raw) <==> raw@ == stored,
        <(Vec<u8>, u32) as FromMemcacheValue>::value_fault(stored, flags) is None,
        <(Vec<u8>, u32) as FromMemcacheValue>::stands_for(stored, flags, (raw, with_flags)) <==> raw@ == stored
            && with_flags == flags,
        <(Vec<u8>, u32, Option<u64>) as FromMemcacheValueExt>::value_fault_ext(stored, flags, cas) is None,
        <(Vec<u8>, u32, Option<u64>) as FromMemcacheValueExt>::stands_for_ext(
            stored,
            flags,
            cas,
            (raw, with_flags, with_cas),
        ) <==> raw@ == stored && with_flags == flags && with_cas == cas,
        <String as FromMemcacheValue>::value_fault(stored, flags) is None <==> vstd::utf8::valid_utf8(stored),
        <String as FromMemcacheValue>::stands_for(stored, flags, owned) <==> vstd::utf8::encode_utf8(owned@) == stored,
        <(String, u32) as FromMemcacheValue>::value_fault(stored, flags) is None <==> vstd::utf8::valid_utf8(stored),
        <(String, u32) as FromMemcacheValue>::stands_for(stored, flags, (owned, with_flags))
            <==> vstd::utf8::encode_utf8(owned@) == stored && with_flags == flags,
        <(String, u32, Option<u64>) as FromMemcacheValueExt>::value_fault_ext(stored, flags, cas) is None
            <==> vstd::utf8::valid_utf8(stored),
        <(String, u32, Option<u64>) as FromMemcacheValueExt>::stands_for_ext(
            stored,
            flags,
            cas,
            (owned, with_flags, with_cas),
        ) <==> vstd::utf8::encode_utf8(owned@) == stored && with_flags == flags && with_cas == cas,
        <bool as FromMemcacheValue>::stands_for(stored, flags, truth) <==> stored == truth.bytes_spec(),
        <bool as FromMemcacheValue>::value_fault(stored, flags) is None <==> vstd::utf8::valid_utf8(stored) && (stored
            == true.bytes_spec() || stored == false.bytes_spec()),
{
}

/// A value that does not ask for its CAS is read the same with one.
pub proof fn lemma_cas_is_optional<V: FromMemcacheValue>(stored: Seq<u8>, flags: u32, cas: Option<u64>, value: V)
    ensures
        <V as FromMemcacheValueExt>::value_fault_ext(stored, flags, cas) == <V as FromMemcacheValue>::value_fault(
            stored,
            flags,
        ),
        <V as FromMemcacheValueExt>::stands_for_ext(stored, flags, cas, value) <==> <V as FromMemcacheValue>::stands_for(
            stored,
            flags,
            value,
        ),
{
}

/// Bytes that are no UTF-8 are no text: reading them as one fails, and nothing else
/// does.
pub proof fn lemma_text_faults(stored: Seq<u8>)
    ensures
        match value::text_fault(stored) {
            None => vstd::utf8::valid_utf8(stored),
            Some(e) => !vstd::utf8::valid_utf8(stored) && e == MemcacheErrorView::ParseError(
                ParseErrorView::String(text::utf8_error_text(stored)),
            ),
        },
{
}

/// Bytes are cached as they are with flags of zero, texts with flags of one.
pub proof fn lemma_cached_values(raw: &[u8], owned: String)
    ensures
        raw.cached_spec() == (raw@, 0u32),
        owned.cached_spec() == (vstd::utf8::encode_utf8(owned@), 1u32),
{
}

/// A number is encoded as its decimal text, with flags of two.
pub proof fn lemma_encoded_numbers(u8_value: u8, u16_value: u16, u32_value: u32, u64_value: u64, u128_value: u128, i8_value: i8, i16_value: i16, i32_value: i32, i64_value: i64, i128_value: i128, usize_value: usize, isize_value: isize)
    ensures
        u8_value.encoding() == Ok::<EncodedView, Seq<char>>(
            (EncodedView { bytes: decimal::signed_decimal(u8_value as int), flags: 2 }),
        ),
        u16_value.encoding() == Ok::<EncodedView, Seq<char>>(
            (EncodedView { bytes: decimal::signed_decimal(u16_value as int), flags: 2 }),
        ),
        u32_value.encoding() == Ok::<EncodedView, Seq<char>>(
            (EncodedView { bytes: decimal::signed_decimal(u32_value as int), flags: 2 }),
        ),
        u64_value.encoding() == Ok::<EncodedView, Seq<char>>(
            (EncodedView { bytes: decimal::signed_decimal(u64_value as int), flags: 2 }),
        ),
        u128_value.encoding() == Ok::<EncodedView, Seq<char>>(
            (EncodedView { bytes: decimal::signed_decimal(u128_value as int), flags: 2 }),
        ),
        i8_value.encoding() == Ok::<EncodedView, Seq<char>>(
            (EncodedView { bytes: decimal::signed_decimal(i8_value as int), flags: 2 }),
        ),
        i16_value.encoding() == Ok::<EncodedView, Seq<char>>(
            (EncodedView { bytes: decimal::signed_decimal(i16_value as int), flags: 2 }),
        ),
        i32_value.encoding() == Ok::<EncodedView, Seq<char>>(
            (EncodedView { bytes: decimal::signed_decimal(i32_value as int), flags: 2 }),
        ),
        i64_value.encoding() == Ok::<EncodedView, Seq<char>>(
            (EncodedView { bytes: decimal::signed_decimal(i64_value as int), flags: 2 }),
        ),
        i128_value.encoding() == Ok::<EncodedView, Seq<char>>(
            (EncodedView { bytes: decimal::signed_decimal(i128_value as int), flags: 2 }),
        ),
        usize_value.encoding() == Ok::<EncodedView, Seq<char>>(
            (EncodedView { bytes: decimal::signed_decimal(usize_value as int), flags: 2 }),
        ),
        isize_value.encoding() == Ok::<EncodedView, Seq<char>>(
            (EncodedView { bytes: decimal::signed_decimal(isize_value as int), flags: 2 }),
        ),
{
}

/// Cached bytes are decoded as a `u8` where they write one that fits, whatever their
/// flags, and fail otherwise.
pub proof fn lemma_decoded_as_u8(cached: Seq<u8>, flags: u32, number: u8)
    ensures
        <u8 as Decode>::stands_for(cached, flags, number) <==> decimal::parse_unsigned(cached, 255) == Ok::<nat, IntErrorKind>(number as nat),
        <u8 as Decode>::decode_fault(cached, flags) is None <==> vstd::utf8::valid_utf8(cached) && decimal::parse_unsigned(cached, 255) is Ok,
{
}

/// Cached bytes are decoded as a `u16` where they write one that fits, whatever their
/// flags, and fail otherwise.
pub proof fn lemma_decoded_as_u16(cached: Seq<u8>, flags: u32, number: u16)
    ensures
        <u16 as Decode>::stands_for(cached, flags, number) <==> decimal::parse_unsigned(cached, 65535) == Ok::<nat, IntErrorKind>(number as nat),
        <u16 as Decode>::decode_fault(cached, flags) is None <==> vstd::utf8::valid_utf8(cached) && decimal::parse_unsigned(cached, 65535) is Ok,
{
}

/// Cached bytes are decoded as a `u32` where they write one that fits, whatever their
/// flags, and fail otherwise.
pub proof fn lemma_decoded_as_u32(cached: Seq<u8>, flags: u32, number: u32)
    ensures
        <u32 as Decode>::stands_for(cached, flags, number) <==> decimal::parse_unsigned(cached, 4294967295) == Ok::<nat, IntErrorKind>(number as nat),
        <u32 as Decode>::decode_fault(cached, flags) is None <==> vstd::utf8::valid_utf8(cached) && decimal::parse_unsigned(cached, 4294967295) is Ok,
{
}

/// Cached bytes are decoded as a `u64` where they write one that fits, whatever their
/// flags, and fail otherwise.
pub proof fn lemma_decoded_as_u64(cached: Seq<u8>, flags: u32, number: u64)
    ensures
        <u64 as Decode>::stands_for(cached, flags, number) <==> decimal::parse_unsigned(cached, 18446744073709551615) == Ok::<nat, IntErrorKind>(number as nat),
        <u64 as Decode>::decode_fault(cached, flags) is None <==> vstd::utf8::valid_utf8(cached) && decimal::parse_unsigned(cached, 18446744073709551615) is Ok,
{
}

/// Cached bytes are decoded as a `u128` where they write one that fits, whatever their
/// flags, and fail otherwise.
pub proof fn lemma_decoded_as_u128(cached: Seq<u8>, flags: u32, number: u128)
    ensures
        <u128 as Decode>::stands_for(cached, flags, number) <==> decimal::parse_unsigned(cached, 340282366920938463463374607431768211455) == Ok::<nat, IntErrorKind>(number as nat),
        <u128 as Decode>::decode_fault(cached, flags) is None <==> vstd::utf8::valid_utf8(cached) && decimal::parse_unsigned(cached, 340282366920938463463374607431768211455) is Ok,
{
}

/// Cached bytes are decoded as a `i8` where they write one that fits, whatever their
/// flags, and fail otherwise.
pub proof fn lemma_decoded_as_i8(cached: Seq<u8>, flags: u32, number: i8)
    ensures
        <i8 as Decode>::stands_for(cached, flags, number) <==> decimal::parse_signed(cached, -128, 127) == Ok::<int, IntErrorKind>(number as int),
        <i8 as Decode>::decode_fault(cached, flags) is None <==> vstd::utf8::valid_utf8(cached) && decimal::parse_signed(cached, -128, 127) is Ok,
{
}

/// Cached bytes are decoded as a `i16` where they write one that fits, whatever their
/// flags, and fail otherwise.
pub proof fn lemma_decoded_as_i16(cached: Seq<u8>, flags: u32, number: i16)
    ensures
        <i16 as Decode>::stands_for(cached, flags, number) <==> decimal::parse_signed(cached, -32768, 32767) == Ok::<int, IntErrorKind>(number as int),
        <i16 as Decode>::decode_fault(cached, flags) is None <==> vstd::utf8::valid_utf8(cached) && decimal::parse_signed(cached, -32768, 32767) is Ok,
{
}

/// Cached bytes are decoded as a `i32` where they write one that fits, whatever their
/// flags, and fail otherwise.
pub proof fn lemma_decoded_as_i32(cached: Seq<u8>, flags: u32, number: i32)
    ensures
        <i32 as Decode>::stands_for(cached, flags, number) <==> decimal::parse_signed(cached, -2147483648, 2147483647) == Ok::<int, IntErrorKind>(number as int),
        <i32 as Decode>::decode_fault(cached, flags) is None <==> vstd::utf8::valid_utf8(cached) && decimal::parse_signed(cached, -2147483648, 2147483647) is Ok,
{
}

/// Cached bytes are decoded as a `i64` where they write one that fits, whatever their
/// flags, and fail otherwise.
pub proof fn lemma_decoded_as_i64(cached: Seq<u8>, flags: u32, number: i64)
    ensures
        <i64 as Decode>::stands_for(cached, flags, number) <==> decimal::parse_signed(cached, -9223372036854775808, 9223372036854775807) == Ok::<int, IntErrorKind>(number as int),
        <i64 as Decode>::decode_fault(cached, flags) is None <==> vstd::utf8::valid_utf8(cached) && decimal::parse_signed(cached, -9223372036854775808, 9223372036854775807) is Ok,
{
}

/// Cached bytes are decoded as a `i128` where they write one that fits, whatever their
/// flags, and fail otherwise.
pub proof fn lemma_decoded_as_i128(cached: Seq<u8>, flags: u32, number: i128)
    ensures
        <i128 as Decode>::stands_for(cached, flags, number) <==> decimal::parse_signed(cached, -170141183460469231731687303715884105728, 170141183460469231731687303715884105727) == Ok::<int, IntErrorKind>(number as int),
        <i128 as Decode>::decode_fault(cached, flags) is None <==> vstd::utf8::valid_utf8(cached) && decimal::parse_signed(cached, -170141183460469231731687303715884105728, 170141183460469231731687303715884105727) is Ok,
{
}

/// Cached bytes are decoded as a `usize` where they write one that fits, whatever their
/// flags, and fail otherwise.
pub proof fn lemma_decoded_as_usize(cached: Seq<u8>, flags: u32, number: usize)
    ensures
        <usize as Decode>::stands_for(cached, flags, number) <==> decimal::parse_unsigned(cached, usize::MAX as nat) == Ok::<nat, IntErrorKind>(number as nat),
        <usize as Decode>::decode_fault(cached, flags) is None <==> vstd::utf8::valid_utf8(cached) && decimal::parse_unsigned(cached, usize::MAX as nat) is Ok,
{
}

/// Cached bytes are decoded as a `isize` where they write one that fits, whatever their
/// flags, and fail otherwise.
pub proof fn lemma_decoded_as_isize(cached: Seq<u8>, flags: u32, number: isize)
    ensures
        <isize as Decode>::stands_for(cached, flags, number) <==> decimal::parse_signed(cached, isize::MIN as int, isize::MAX as int) == Ok::<int, IntErrorKind>(number as int),
        <isize as Decode>::decode_fault(cached, flags) is None <==> vstd::utf8::valid_utf8(cached) && decimal::parse_signed(cached, isize::MIN as int, isize::MAX as int) is Ok,
{
}

/// Bytes are encoded as they are with flags of zero, texts with flags of sixteen, and
/// what is encoded already keeps its bytes and flags. A reference is encoded as what
/// it refers to.
pub proof fn lemma_encoded_texts(raw: Vec<u8>, owned: String, borrowed: &str, encoded: Encoded)
    ensures
        raw.encoding() == Ok::<EncodedView, Seq<char>>((EncodedView { bytes: raw@, flags: 0 })),
        owned.encoding() == Ok::<EncodedView, Seq<char>>(
            (EncodedView { bytes: vstd::utf8::encode_utf8(owned@), flags: 16 }),
        ),
        borrowed.encoding() == Ok::<EncodedView, Seq<char>>(
            (EncodedView { bytes: vstd::utf8::encode_utf8(borrowed@), flags: 16 }),
        ),
        encoded.encoding() == Ok::<EncodedView, Seq<char>>(
            (EncodedView { bytes: encoded.bytes@, flags: encoded.flags }),
        ),
        (&raw).encoding() == raw.encoding(),
{
}

/// Cached bytes are decoded as they are, with their flags where those are kept, and
/// as a text where they are UTF-8.
pub proof fn lemma_decoded_as_cached(cached: Seq<u8>, flags: u32, raw: Vec<u8>, owned: String, encoded: Encoded)
    ensures
        <Vec<u8> as Decode>::decode_fault(cached, flags) is None,
        <Vec<u8> as Decode>::stands_for(cached, flags, raw) <==> raw@ == cached,
        <String as Decode>::decode_fault(cached, flags) is None <==> vstd::utf8::valid_utf8(cached),
        <String as Decode>::stands_for(cached, flags, owned) <==> vstd::utf8::encode_utf8(owned@) == cached,
        <Encoded as Decode>::decode_fault(cached, flags) is None,
        <Encoded as Decode>::stands_for(cached, flags, encoded) <==> encoded.bytes@ == cached && encoded.flags == flags,
{
}

} // verus!
