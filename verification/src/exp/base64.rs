//! The base64 form of keys that cannot be sent as they are.

use vstd::prelude::*;

use super::error;
use super::error::{Error, ErrorView};

verus! {

/// The character of a six-bit value.
pub open spec fn symbol(v: int) -> u8 {
    if v < 26 {
        (65 + v) as u8
    } else if v < 52 {
        (97 + (v - 26)) as u8
    } else if v < 62 {
        (48 + (v - 52)) as u8
    } else if v == 62 {
        43u8
    } else {
        47u8
    }
}

/// The six-bit value of a character, for a character of the alphabet.
pub open spec fn symbol_value(byte: u8) -> Option<int> {
    if 65 <= byte <= 90 {
        Some(byte - 65)
    } else if 97 <= byte <= 122 {
        Some(byte - 97 + 26)
    } else if 48 <= byte <= 57 {
        Some(byte - 48 + 52)
    } else if byte == 43 {
        Some(62)
    } else if byte == 47 {
        Some(63)
    } else {
        None
    }
}

/// Four characters for one to three bytes, padded with `=`.
pub open spec fn encode_group(s: Seq<u8>) -> Seq<u8> {
    let b1 = if s.len() > 1 { s[1] } else { 0u8 };
    let b2 = if s.len() > 2 { s[2] } else { 0u8 };
    seq![
        symbol(s[0] as int / 4),
        symbol((s[0] as int % 4) * 16 + b1 as int / 16),
        if s.len() > 1 { symbol((b1 as int % 16) * 4 + b2 as int / 64) } else { 61u8 },
        if s.len() > 2 { symbol(b2 as int % 64) } else { 61u8 },
    ]
}

/// The base64 form of a byte string.
pub open spec fn encoded(s: Seq<u8>) -> Seq<u8>
    decreases s.len(),
{
    if s.len() == 0 {
        Seq::empty()
    } else if s.len() <= 3 {
        encode_group(s)
    } else {
        encode_group(s.take(3)) + encoded(s.skip(3))
    }
}

/// The bytes of four characters. Only the last four may be padded: by one
/// `=` or by two, at the end.
pub open spec fn decode_group(q: Seq<u8>, last: bool) -> Option<Seq<u8>> {
    match (symbol_value(q[0]), symbol_value(q[1]), symbol_value(q[2]), symbol_value(q[3])) {
        (Some(a), Some(b), Some(c), Some(d)) => Some(
            seq![(a * 4 + b / 16) as u8, ((b % 16) * 16 + c / 4) as u8, ((c % 4) * 64 + d) as u8],
        ),
        (Some(a), Some(b), Some(c), None) => if last && q[3] == 61 {
            Some(seq![(a * 4 + b / 16) as u8, ((b % 16) * 16 + c / 4) as u8])
        } else {
            None
        },
        (Some(a), Some(b), None, None) => if last && q[2] == 61 && q[3] == 61 {
            Some(seq![(a * 4 + b / 16) as u8])
        } else {
            None
        },
        _ => None,
    }
}

/// The bytes that a base64 token stands for.
pub open spec fn decoded(s: Seq<u8>) -> Option<Seq<u8>>
    decreases s.len(),
{
    if s.len() == 0 {
        Some(Seq::empty())
    } else if s.len() < 4 {
        None
    } else {
        match (decode_group(s.take(4), s.len() == 4), decoded(s.skip(4))) {
            (Some(head), Some(tail)) => Some(head + tail),
            _ => None,
        }
    }
}

pub open spec fn bad_token() -> ErrorView {
    error::protocol("invalid base64 token")
}

proof fn lemma_symbol(v: int)
    requires
        0 <= v < 64,
    ensures
        symbol_value(symbol(v)) == Some(v),
        symbol(v) != 61,
{
}

proof fn lemma_group_roundtrip(s: Seq<u8>)
    requires
        1 <= s.len() <= 3,
    ensures
        decode_group(encode_group(s), true) == Some(s),
        s.len() == 3 ==> decode_group(encode_group(s), false) == Some(s),
{
    let b0 = s[0] as int;
    let b1 = if s.len() > 1 { s[1] as int } else { 0 };
    let b2 = if s.len() > 2 { s[2] as int } else { 0 };
    lemma_symbol(b0 / 4);
    lemma_symbol((b0 % 4) * 16 + b1 / 16);
    lemma_symbol((b1 % 16) * 4 + b2 / 64);
    lemma_symbol(b2 % 64);
    let q = encode_group(s);
    assert(symbol_value(61) is None);
    if s.len() == 1 {
        assert(decode_group(q, true)->0 =~= s);
    } else if s.len() == 2 {
        assert(decode_group(q, true)->0 =~= s);
    } else {
        assert(decode_group(q, true)->0 =~= s);
        assert(decode_group(q, false)->0 =~= s);
    }
}

pub proof fn lemma_encoded_length(s: Seq<u8>)
    ensures
        encoded(s).len() == (s.len() + 2) / 3 * 4,
    decreases s.len(),
{
    if s.len() > 3 {
        lemma_encoded_length(s.skip(3));
    }
}

/// Decoding the base64 form of a byte string gives the byte string.
pub proof fn lemma_base64_roundtrip(s: Seq<u8>)
    ensures
        decoded(encoded(s)) == Some(s),
    decreases s.len(),
{
    if s.len() == 0 {
    } else if s.len() <= 3 {
        lemma_group_roundtrip(s);
        let e = encoded(s);
        assert(e.take(4) =~= e);
        assert(e.skip(4) =~= Seq::<u8>::empty());
        assert(decoded(e.skip(4)) == Some(Seq::<u8>::empty()));
        assert(decode_group(e.take(4), true)->0 + Seq::<u8>::empty() =~= s);
    } else {
        lemma_group_roundtrip(s.take(3));
        lemma_base64_roundtrip(s.skip(3));
        lemma_encoded_length(s.skip(3));
        let e = encoded(s);
        assert(e.take(4) =~= encode_group(s.take(3)));
        assert(e.skip(4) =~= encoded(s.skip(3)));
        assert(s.take(3) + s.skip(3) =~= s);
    }
}

/// Every character of a base64 form belongs to the alphabet or is padding.
pub proof fn lemma_encoded_printable(s: Seq<u8>)
    ensures
        forall|i: int|
            0 <= i < encoded(s).len() ==> 0x20 < #[trigger] encoded(s)[i] && encoded(s)[i] < 0x7f,
    decreases s.len(),
{
    if s.len() > 3 {
        lemma_encoded_printable(s.skip(3));
        let head = encode_group(s.take(3));
        let tail = encoded(s.skip(3));
        assert forall|i: int| 0 <= i < encoded(s).len() implies 0x20 < #[trigger] encoded(s)[i] && encoded(s)[i]
            < 0x7f by {
            if i >= 4 {
                assert(encoded(s)[i] == tail[i - 4]);
            } else {
                assert(encoded(s)[i] == head[i]);
            }
        }
    }
}

fn symbol_of(v: u8) -> (r: u8)
    requires
        v < 64,
    ensures
        r == symbol(v as int),
{
    if v < 26 {
        65 + v
    } else if v < 52 {
        97 + (v - 26)
    } else if v < 62 {
        48 + (v - 52)
    } else if v == 62 {
        43
    } else {
        47
    }
}

fn value_of(byte: u8) -> (r: Option<u8>)
    ensures
        match r {
            Some(v) => symbol_value(byte) == Some(v as int) && v < 64,
            None => symbol_value(byte) is None,
        },
{
    if 65 <= byte && byte <= 90 {
        Some(byte - 65)
    } else if 97 <= byte && byte <= 122 {
        Some(byte - 97 + 26)
    } else if 48 <= byte && byte <= 57 {
        Some(byte - 48 + 52)
    } else if byte == 43 {
        Some(62)
    } else if byte == 47 {
        Some(63)
    } else {
        None
    }
}

/// Encode a byte string as base64 with padding.
pub fn base64_encode(input: &[u8]) -> (r: Vec<u8>)
    ensures
        r@ == encoded(input@),
{
    let mut output: Vec<u8> = Vec::new();
    let mut i: usize = 0;
    assert(input@.skip(0) =~= input@);
    while i < input.len()
        invariant
            i <= input@.len(),
            output@ + encoded(input@.skip(i as int)) == encoded(input@),
        decreases input@.len() - i,
    {
        let ghost rest = input@.skip(i as int);
        let ghost before = output@;
        let left = input.len() - i;
        let b0 = input[i];
        let b1 = if left > 1 { input[i + 1] } else { 0 };
        let b2 = if left > 2 { input[i + 2] } else { 0 };
        output.push(symbol_of(b0 / 4));
        output.push(symbol_of((b0 % 4) * 16 + b1 / 16));
        output.push(if left > 1 { symbol_of((b1 % 16) * 4 + b2 / 64) } else { 61 });
        output.push(if left > 2 { symbol_of(b2 % 64) } else { 61 });
        let step: usize = if left > 3 { 3 } else { left };
        proof {
            let group = if left > 3 { rest.take(3) } else { rest };
            assert(output@ =~= before + encode_group(group));
            assert(input@.skip(i + step) =~= rest.skip(step as int));
            if left <= 3 {
                assert(rest.skip(step as int) =~= Seq::<u8>::empty());
            }
            assert(encoded(rest) =~= encode_group(group) + encoded(rest.skip(step as int)));
            assert(output@ + encoded(input@.skip(i + step)) =~= before + encoded(rest));
        }
        i = i + step;
    }
    assert(input@.skip(i as int) =~= Seq::<u8>::empty());
    assert(output@ + Seq::<u8>::empty() =~= output@);
    output
}

proof fn lemma_decoded_length(s: Seq<u8>)
    ensures
        decoded(s) is Some ==> s.len() % 4 == 0,
    decreases s.len(),
{
    if s.len() >= 4 {
        lemma_decoded_length(s.skip(4));
    }
}

/// Decode a padded base64 token.
pub fn base64_decode(input: &[u8]) -> (r: Result<Vec<u8>, Error>)
    ensures
        match r {
            Ok(bytes) => decoded(input@) == Some(bytes@),
            Err(e) => decoded(input@) is None && e@ == bad_token(),
        },
{
    if input.len() % 4 != 0 {
        proof {
            lemma_decoded_length(input@);
        }
        return Err(Error::protocol("invalid base64 token"));
    }
    let mut output: Vec<u8> = Vec::new();
    let mut i: usize = 0;
    proof {
        assert(input@.skip(0) =~= input@);
        if let Some(bytes) = decoded(input@) {
            assert(output@ + bytes =~= bytes);
        }
    }
    while i < input.len()
        invariant
            i <= input@.len(),
            input@.len() % 4 == 0,
            i % 4 == 0,
            decoded(input@) == match decoded(input@.skip(i as int)) {
                Some(bytes) => Some(output@ + bytes),
                None => None,
            },
        decreases input@.len() - i,
    {
        let ghost rest = input@.skip(i as int);
        let ghost before = output@;
        let last = input.len() - i == 4;
        let q2 = input[i + 2];
        let q3 = input[i + 3];
        let a = value_of(input[i]);
        let b = value_of(input[i + 1]);
        let c = value_of(q2);
        let d = value_of(q3);
        proof {
            let q = rest.take(4);
            assert(q[0] == input@[i as int] && q[1] == input@[i + 1] && q[2] == q2 && q[3] == q3);
            assert(input@.skip(i + 4) =~= rest.skip(4));
        }
        match (a, b, c, d) {
            (Some(a), Some(b), Some(c), Some(d)) => {
                output.push(a * 4 + b / 16);
                output.push((b % 16) * 16 + c / 4);
                output.push((c % 4) * 64 + d);
            },
            (Some(a), Some(b), Some(c), None) => {
                if !last || q3 != 61 {
                    return Err(Error::protocol("invalid base64 token"));
                }
                output.push(a * 4 + b / 16);
                output.push((b % 16) * 16 + c / 4);
            },
            (Some(a), Some(b), None, None) => {
                if !last || q2 != 61 || q3 != 61 {
                    return Err(Error::protocol("invalid base64 token"));
                }
                output.push(a * 4 + b / 16);
            },
            _ => {
                return Err(Error::protocol("invalid base64 token"));
            },
        }
        proof {
            let group = decode_group(rest.take(4), last)->0;
            assert(decode_group(rest.take(4), last) is Some);
            assert(output@ =~= before + group);
            if let Some(tail) = decoded(rest.skip(4)) {
                assert(before + (group + tail) =~= output@ + tail);
            }
        }
        i += 4;
    }
    assert(input@.skip(i as int) =~= Seq::<u8>::empty());
    assert(output@ + Seq::<u8>::empty() =~= output@);
    Ok(output)
}

} // verus!
