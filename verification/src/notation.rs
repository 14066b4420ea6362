//! How numbers, words, names and times are written and read: the rules that fix
//! each of them on every input.

use vstd::prelude::*;

use crate::big_endian;
use crate::bytes;
use crate::connection;
use crate::decimal;
use crate::decimal::IntErrorKind;
use crate::exp::base64;
use crate::pairs;
use crate::text;
use crate::time::Duration;

verus! {

/// A number below ten is written as its digit, and any other as its tens followed
/// by its last digit. A negative number has a minus sign before its magnitude.
pub proof fn lemma_decimal_notation(tens: nat, digit: nat, magnitude: nat)
    requires
        digit < 10,
    ensures
        decimal::decimal(digit) == seq![(48 + digit) as u8],
        tens > 0 ==> decimal::decimal(10 * tens + digit) == decimal::decimal(tens).push((48 + digit) as u8),
        decimal::signed_decimal(magnitude as int) == decimal::decimal(magnitude),
        magnitude > 0 ==> decimal::signed_decimal(-(magnitude as int)) == seq![45u8] + decimal::decimal(magnitude),
{
    assert((10 * tens + digit) / 10 == tens);
    assert((10 * tens + digit) % 10 == digit);
}

/// Digits stand for a number by their place: each one more multiplies what stands
/// before it by ten.
pub proof fn lemma_digits_by_place(s: Seq<u8>, digit: u8)
    requires
        48 <= digit <= 57,
    ensures
        decimal::value(Seq::empty()) == 0,
        decimal::value(s.push(digit)) == 10 * decimal::value(s) + (digit - 48),
{
    assert(s.push(digit).drop_last() =~= s);
}

/// Whether a text is one or more digits.
pub open spec fn is_number(s: Seq<u8>) -> bool {
    s.len() > 0 && forall|i: int| 0 <= i < s.len() ==> 48 <= #[trigger] s[i] <= 57
}

/// An unsigned number is read from one or more digits, after a plus sign or not,
/// and only where it fits.
pub proof fn lemma_unsigned_reading(s: Seq<u8>, max: nat)
    ensures
        match decimal::parse_unsigned(s, max) {
            Ok(n) => {
                let digits = if s.len() > 0 && s[0] == 43 {
                    s.skip(1)
                } else {
                    s
                };
                is_number(digits) && n == decimal::value(digits) && n <= max
            },
            Err(kind) => {
                let digits = if s.len() > 0 && s[0] == 43 {
                    s.skip(1)
                } else {
                    s
                };
                !is_number(digits) || decimal::value(digits) > max
            },
        },
{
    let digits = if s.len() > 0 && s[0] == 43 {
        s.skip(1)
    } else {
        s
    };
    lemma_magnitude(digits);
}

proof fn lemma_magnitude(digits: Seq<u8>)
    ensures
        decimal::digit_run(digits) <= digits.len(),
        is_number(digits) <==> digits.len() > 0 && decimal::digit_run(digits) == digits.len(),
        decimal::digit_run(digits) == digits.len() ==> digits.take(decimal::digit_run(digits) as int) == digits,
{
    decimal::lemma_digit_run_bounds(digits);
    if is_number(digits) {
        assert forall|i: int| 0 <= i < digits.len() implies decimal::is_digit(#[trigger] digits[i]) by {}
        decimal::lemma_digit_run(digits, digits.len());
    }
    if decimal::digit_run(digits) == digits.len() {
        assert(digits.take(digits.len() as int) =~= digits);
        assert forall|i: int| 0 <= i < digits.len() implies 48 <= #[trigger] digits[i] <= 57 by {
            assert(decimal::is_digit(digits[i]));
        }
    }
}

/// A signed number is read as an unsigned one, or from a minus sign and one or
/// more digits, and only where it fits.
pub proof fn lemma_signed_reading(s: Seq<u8>, min: int, max: int)
    requires
        min <= 0 <= max,
    ensures
        s.len() > 0 && s[0] == 45 ==> (match decimal::parse_signed(s, min, max) {
            Ok(n) => is_number(s.skip(1)) && n == -(decimal::value(s.skip(1)) as int) && n >= min,
            Err(_) => !is_number(s.skip(1)) || -(decimal::value(s.skip(1)) as int) < min,
        }),
        s.len() == 0 || s[0] != 45 ==> (match decimal::parse_signed(s, min, max) {
            Ok(n) => n >= 0 && decimal::parse_unsigned(s, max as nat) == Ok::<nat, IntErrorKind>(n as nat),
            Err(kind) => decimal::parse_unsigned(s, max as nat) == Err::<nat, IntErrorKind>(kind),
        }),
{
    if s.len() > 0 && s[0] == 45 {
        lemma_magnitude(s.skip(1));
    }
}

/// Why a text is not a number: it is empty; the digits it starts with are already
/// too large; or something in it is not a digit.
pub proof fn lemma_reading_faults(s: Seq<u8>, max: nat, wrong: int)
    ensures
        s.len() == 0 ==> decimal::parse_unsigned(s, max) == Err::<nat, IntErrorKind>(IntErrorKind::Empty),
        is_number(s) && decimal::value(s) > max ==> decimal::parse_unsigned(s, max) == Err::<nat, IntErrorKind>(
            IntErrorKind::PosOverflow,
        ),
        0 <= wrong < s.len() && s[0] != 43 && !(48 <= s[wrong] <= 57) && (forall|i: int|
            0 <= i < wrong ==> 48 <= #[trigger] s[i] <= 57) && decimal::value(s.take(wrong)) <= max
            ==> decimal::parse_unsigned(s, max) == Err::<nat, IntErrorKind>(IntErrorKind::InvalidDigit),
{
    if is_number(s) {
        lemma_magnitude(s);
    }
    if 0 <= wrong < s.len() && !(48 <= s[wrong] <= 57) && (forall|i: int|
        0 <= i < wrong ==> 48 <= #[trigger] s[i] <= 57) {
        assert forall|i: int| 0 <= i < wrong implies decimal::is_digit(#[trigger] s[i]) by {}
        decimal::lemma_digit_run(s, wrong as nat);
    }
}

/// Bytes stand for a number by their place, the first one highest: each one more
/// multiplies what stands before it by 256. A number is written in as many bytes
/// as asked, its last byte last.
pub proof fn lemma_network_order(s: Seq<u8>, byte: u8, n: nat, width: nat)
    ensures
        big_endian::value(Seq::empty()) == 0,
        big_endian::value(s.push(byte)) == 256 * big_endian::value(s) + byte,
        big_endian::digits(n, 0).len() == 0,
        big_endian::digits(256 * n + byte as nat, width + 1) == big_endian::digits(n, width).push(byte),
{
    assert(s.push(byte).drop_last() =~= s);
    assert((256 * n + byte as nat) / 256 == n);
    assert((256 * n + byte as nat) % 256 == byte as nat);
}

/// Where the bytes of a two, four or eight byte number stand.
pub proof fn lemma_network_bytes(n: nat)
    ensures
        big_endian::digits(n, 2) == seq![(n / 256 % 256) as u8, (n % 256) as u8],
        big_endian::digits(n, 4) == seq![
            (n / 0x100_0000 % 256) as u8,
            (n / 0x1_0000 % 256) as u8,
            (n / 0x100 % 256) as u8,
            (n % 256) as u8,
        ],
        big_endian::digits(n, 8).len() == 8,
        big_endian::digits(n, 8).skip(4) == big_endian::digits(n, 4),
        big_endian::digits(n, 8).take(4) == big_endian::digits(n / 0x1_0000_0000, 4),
{
    reveal_with_fuel(big_endian::digits, 9);
    assert(n / 256 / 256 == n / 0x1_0000);
    assert(n / 256 / 256 / 256 == n / 0x100_0000);
    assert(n / 256 / 256 / 256 / 256 == n / 0x1_0000_0000);
    assert(big_endian::digits(n, 2) =~= seq![(n / 256 % 256) as u8, (n % 256) as u8]);
    assert(big_endian::digits(n, 4) =~= seq![
        (n / 0x100_0000 % 256) as u8,
        (n / 0x1_0000 % 256) as u8,
        (n / 0x100 % 256) as u8,
        (n % 256) as u8,
    ]);
    assert(big_endian::digits(n, 8).skip(4) =~= big_endian::digits(n, 4));
    assert(big_endian::digits(n, 8).take(4) =~= big_endian::digits(n / 0x1_0000_0000, 4));
}

/// A line is split into words at its blanks, however many there are: a word alone
/// is itself, a blank before a line changes nothing, and a word and a blank before
/// a line come before its words.
pub proof fn lemma_words_by_blank(word: Seq<u8>, rest: Seq<u8>)
    requires
        word.len() > 0,
        forall|i: int| 0 <= i < word.len() ==> #[trigger] word[i] != 32,
    ensures
        bytes::words(Seq::empty()).len() == 0,
        bytes::words(seq![32u8] + rest) == bytes::words(rest),
        bytes::words(word) == seq![word],
        bytes::words(word + seq![32u8] + rest) == seq![word] + bytes::words(rest),
{
    let blank = seq![32u8] + rest;
    assert(blank.skip(1) =~= rest);
    bytes::lemma_word_len_is(word, word.len());
    assert(word.take(word.len() as int) =~= word);
    assert(word.skip(word.len() as int) =~= Seq::<u8>::empty());
    assert(bytes::words(Seq::<u8>::empty()) =~= Seq::<Seq<u8>>::empty());
    assert(bytes::words(word) =~= seq![word]);
    let line = word + seq![32u8] + rest;
    assert forall|i: int| 0 <= i < word.len() implies #[trigger] line[i] != 32 by {
        assert(line[i] == word[i]);
    }
    bytes::lemma_word_len_is(line, word.len());
    assert(line.take(word.len() as int) =~= word);
    assert(line.skip(word.len() as int) =~= blank);
    assert(line[0] == word[0]);
}

/// A line is split into fields at each blank: fields are what stands between two
/// blanks, and may be empty.
pub proof fn lemma_fields_by_blank(field: Seq<u8>, rest: Seq<u8>)
    requires
        forall|i: int| 0 <= i < field.len() ==> #[trigger] field[i] != 32,
    ensures
        bytes::fields(field) == seq![field],
        bytes::fields(field + seq![32u8] + rest) == seq![field] + bytes::fields(rest),
{
    bytes::lemma_word_len_is(field, field.len());
    let line = field + seq![32u8] + rest;
    assert forall|i: int| 0 <= i < field.len() implies #[trigger] line[i] != 32 by {
        assert(line[i] == field[i]);
    }
    bytes::lemma_word_len_is(line, field.len());
    assert(line.take(field.len() as int) =~= field);
    assert(line.skip((field.len() + 1) as int) =~= rest);
}

/// A text has a prefix exactly where it starts with it, byte for byte. A repeated
/// prefix is stripped as often as it stands there.
pub proof fn lemma_prefixes(s: Seq<u8>, prefix: Seq<u8>)
    requires
        prefix.len() > 0,
    ensures
        bytes::has_prefix(s, prefix) <==> prefix.len() <= s.len() && forall|i: int|
            0 <= i < prefix.len() ==> #[trigger] s[i] == prefix[i],
        bytes::without_prefixes(prefix + s, prefix) == bytes::without_prefixes(s, prefix),
        !bytes::has_prefix(s, prefix) ==> bytes::without_prefixes(s, prefix) == s,
        bytes::crlf() == seq![13u8, 10u8],
{
    if bytes::has_prefix(s, prefix) {
        assert forall|i: int| 0 <= i < prefix.len() implies #[trigger] s[i] == prefix[i] by {
            assert(s.take(prefix.len() as int)[i] == s[i]);
        }
    }
    if prefix.len() <= s.len() && forall|i: int| 0 <= i < prefix.len() ==> #[trigger] s[i] == prefix[i] {
        assert(s.take(prefix.len() as int) =~= prefix);
    }
    let t = prefix + s;
    assert(t.take(prefix.len() as int) =~= prefix);
    assert(t.skip(prefix.len() as int) =~= s);
}

/// The place of a base64 symbol in the alphabet: the capital letters, the small
/// ones, the digits, plus and slash.
pub open spec fn alphabet_place(symbol: u8) -> int {
    if 'A' as u8 <= symbol <= 'Z' as u8 {
        symbol - 'A' as u8
    } else if 'a' as u8 <= symbol <= 'z' as u8 {
        symbol - 'a' as u8 + 26
    } else if '0' as u8 <= symbol <= '9' as u8 {
        symbol - '0' as u8 + 52
    } else if symbol == '+' as u8 {
        62
    } else if symbol == '/' as u8 {
        63
    } else {
        -1
    }
}

/// Base64 writes three bytes as four symbols that spell the same 24 bits, and one
/// or two bytes at the end with zero bits added and padded by equal signs.
pub proof fn lemma_base64_notation(a: u8, b: u8, c: u8, rest: Seq<u8>)
    ensures
        base64::encoded(Seq::empty()).len() == 0,
        ({
            let four = base64::encoded(seq![a, b, c]);
            let three = base64::encoded(seq![a, b]);
            let two = base64::encoded(seq![a]);
            &&& base64::encoded(seq![a, b, c] + rest) == four + base64::encoded(rest)
            &&& four.len() == 4 && three.len() == 4 && two.len() == 4
            &&& forall|i: int| 0 <= i < 4 ==> 0 <= alphabet_place(#[trigger] four[i]) < 64
            &&& alphabet_place(four[0]) * 0x4_0000 + alphabet_place(four[1]) * 0x1000 + alphabet_place(four[2]) * 0x40
                + alphabet_place(four[3]) == a * 0x1_0000 + b * 0x100 + c
            &&& alphabet_place(three[0]) * 0x1000 + alphabet_place(three[1]) * 0x40 + alphabet_place(three[2]) == (a
                * 0x100 + b) * 4
            &&& three[3] == '=' as u8
            &&& alphabet_place(two[0]) * 0x40 + alphabet_place(two[1]) == a * 16
            &&& two[2] == '=' as u8 && two[3] == '=' as u8
        }),
{
    let four = base64::encoded(seq![a, b, c]);
    let whole = seq![a, b, c] + rest;
    assert(seq![a, b, c].take(3) =~= seq![a, b, c]);
    assert(four == base64::encode_group(seq![a, b, c]));
    assert(whole.take(3) =~= seq![a, b, c]);
    assert(whole.skip(3) =~= rest);
    if rest.len() == 0 {
        assert(whole =~= seq![a, b, c]);
        assert(four + base64::encoded(rest) =~= four);
    }
    assert forall|i: int| 0 <= i < 4 implies 0 <= alphabet_place(#[trigger] four[i]) < 64 by {
        if i == 0 {
        } else if i == 1 {
        } else if i == 2 {
        } else {
        }
    }
}

/// A base64 symbol is read back as its place in the alphabet, and no other byte is
/// a symbol.
pub proof fn lemma_base64_symbols(symbol: u8)
    ensures
        match base64::symbol_value(symbol) {
            Some(place) => place == alphabet_place(symbol) && 0 <= place < 64,
            None => alphabet_place(symbol) == -1,
        },
{
}

/// A list holds a name at most once where it did before: putting a value under a
/// name replaces the one that stood there, or adds it at the end, and leaves every
/// other entry where it was.
pub proof fn lemma_put_replaces_or_adds<V>(list: Seq<(Seq<char>, V)>, name: Seq<char>, value: V, other: int)
    requires
        0 <= other < list.len(),
    ensures
        ({
            let after = pairs::put(list, name, value);
            let known = exists|i: int| 0 <= i < list.len() && (#[trigger] list[i]).0 == name;
            &&& after.contains((name, value))
            &&& after.len() == (if known {
                list.len()
            } else {
                list.len() + 1
            })
            &&& !known ==> after.last() == (name, value)
            &&& list[other].0 != name ==> after[other] == list[other]
        }),
{
    pairs::lemma_position(list, name);
    let at = pairs::position(list, name) as int;
    let after = pairs::put(list, name, value);
    if at < list.len() {
        assert(list[at].0 == name);
        assert(after[at] == (name, value));
    } else {
        assert(after[list.len() as int] == (name, value));
    }
}

/// A parameter of a URL has the value it is first given, and none where it is not
/// given at all. Whether it is given a value counts every mention.
pub proof fn lemma_first_mention_counts(query: Seq<(Seq<char>, Seq<char>)>, name: Seq<char>, value: Seq<char>)
    ensures
        match connection::param(query, name) {
            Some(found) => exists|i: int|
                {
                    &&& 0 <= i < query.len()
                    &&& #[trigger] query[i] == (name, found)
                    &&& forall|j: int| 0 <= j < i ==> (#[trigger] query[j]).0 != name
                },
            None => forall|j: int| 0 <= j < query.len() ==> (#[trigger] query[j]).0 != name,
        },
        connection::has_param(query, name, value) <==> exists|i: int|
            0 <= i < query.len() && #[trigger] query[i] == (name, value),
    decreases query.len(),
{
    if query.len() > 0 && query[0].0 != name {
        let rest = query.skip(1);
        lemma_first_mention_counts(rest, name, value);
        match connection::param(rest, name) {
            Some(found) => {
                let k = choose|i: int|
                    {
                        &&& 0 <= i < rest.len()
                        &&& #[trigger] rest[i] == (name, found)
                        &&& forall|j: int| 0 <= j < i ==> (#[trigger] rest[j]).0 != name
                    };
                assert(query[k + 1] == (name, found));
                assert forall|j: int| 0 <= j < k + 1 implies (#[trigger] query[j]).0 != name by {
                    if j > 0 {
                        assert(rest[j - 1] == query[j]);
                    }
                }
            },
            None => {
                assert forall|j: int| 0 <= j < query.len() implies (#[trigger] query[j]).0 != name by {
                    if j > 0 {
                        assert(rest[j - 1] == query[j]);
                    }
                }
            },
        }
    } else if query.len() > 0 {
        assert(query[0] == (name, query[0].1));
    }
    if exists|i: int| 0 <= i < query.len() && #[trigger] query[i] == (name, value) {
        assert(query.contains((name, value)));
    }
}

/// A text is trimmed of the white space at both ends and of nothing else.
pub proof fn lemma_trimming(before: Seq<char>, text: Seq<char>, after: Seq<char>)
    requires
        forall|i: int| 0 <= i < before.len() ==> text::is_white_space(#[trigger] before[i]),
        forall|i: int| 0 <= i < after.len() ==> text::is_white_space(#[trigger] after[i]),
        text.len() > 0 ==> !text::is_white_space(text[0]) && !text::is_white_space(text.last()),
    ensures
        text::trimmed(before + text + after) == text,
{
    let rest = text + after;
    if text.len() == 0 {
        let all = before + after;
        assert forall|i: int| 0 <= i < all.len() implies text::is_white_space(#[trigger] all[i]) by {
            if i < before.len() {
                assert(all[i] == before[i]);
            } else {
                assert(all[i] == after[i - before.len()]);
            }
        }
        lemma_trim_start(all, Seq::empty());
        assert(all + Seq::<char>::empty() =~= all);
        assert(before + text + after =~= all);
        assert(text =~= Seq::<char>::empty());
    } else {
        assert(rest[0] == text[0]);
        lemma_trim_start(before, rest);
        assert(before + text + after =~= before + rest);
        lemma_trim_end(text, after);
    }
}

proof fn lemma_trim_start(before: Seq<char>, rest: Seq<char>)
    requires
        forall|i: int| 0 <= i < before.len() ==> text::is_white_space(#[trigger] before[i]),
        rest.len() > 0 ==> !text::is_white_space(rest[0]),
    ensures
        text::trim_start(before + rest) == rest,
    decreases before.len(),
{
    let all = before + rest;
    if before.len() > 0 {
        assert(all[0] == before[0]);
        assert(all.skip(1) =~= before.skip(1) + rest);
        assert forall|i: int| 0 <= i < before.skip(1).len() implies text::is_white_space(
            #[trigger] before.skip(1)[i],
        ) by {
            assert(before.skip(1)[i] == before[i + 1]);
        }
        lemma_trim_start(before.skip(1), rest);
    } else {
        assert(all =~= rest);
    }
}

proof fn lemma_trim_end(text: Seq<char>, after: Seq<char>)
    requires
        forall|i: int| 0 <= i < after.len() ==> text::is_white_space(#[trigger] after[i]),
        text.len() > 0 ==> !text::is_white_space(text.last()),
    ensures
        text::trim_end(text + after) == text,
    decreases after.len(),
{
    let all = text + after;
    if after.len() > 0 {
        assert(all.last() == after.last());
        assert(all.drop_last() =~= text + after.drop_last());
        assert forall|i: int| 0 <= i < after.drop_last().len() implies text::is_white_space(
            #[trigger] after.drop_last()[i],
        ) by {
            assert(after.drop_last()[i] == after[i]);
        }
        lemma_trim_end(text, after.drop_last());
    } else {
        assert(all =~= text);
    }
}

/// Of the ASCII characters, white space is the blank, the tab and the line, page
/// and carriage controls between them.
pub proof fn lemma_ascii_white_space(c: char)
    requires
        (c as u32) < 128,
    ensures
        text::is_white_space(c) <==> c as u32 == 32 || 9 <= c as u32 <= 13,
{
}

/// A duration is rounded up to whole seconds: to the least number of seconds that
/// is not shorter.
pub proof fn lemma_seconds_are_rounded_up(d: Duration)
    ensures
        d.nanos <= d.ceil_secs() * 1_000_000_000,
        d.ceil_secs() > 0 ==> (d.ceil_secs() - 1) * 1_000_000_000 < d.nanos,
        d.ceil_secs() >= 0,
{
}

/// A number in a text is its decimal digits.
pub proof fn lemma_numbers_in_text(n: nat)
    ensures
        text::number(n).len() == decimal::decimal(n).len(),
        forall|i: int| 0 <= i < decimal::decimal(n).len() ==> (#[trigger] text::number(n)[i]) as u8
            == decimal::decimal(n)[i],
{
}

} // verus!
