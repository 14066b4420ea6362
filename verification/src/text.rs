//! Text: UTF-8 conversions, trimming and the rendering of numbers and keys.

use vstd::prelude::*;
use vstd::string::*;

use crate::bytes;
use crate::decimal;

verus! {

/// The message `std::string::FromUtf8Error` shows for bytes that are not
/// UTF-8.
pub uninterp spec fn utf8_error_text(bytes: Seq<u8>) -> Seq<char>;

/// The text `String::from_utf8_lossy` gives: the bytes' UTF-8 text with
/// replacement characters in place of what is not UTF-8.
pub uninterp spec fn utf8_lossy(bytes: Seq<u8>) -> Seq<char>;

/// The quoted and escaped form that `{:?}` gives a text.
pub uninterp spec fn quoted(text: Seq<char>) -> Seq<char>;

/// Calls `String::from_utf8`, which accepts exactly the valid UTF-8 byte
/// strings and keeps their bytes. A rejected input comes back as the error's
/// message.
#[verifier::external_body]
pub(crate) fn from_utf8(bytes: Vec<u8>) -> (r: Result<String, String>)
    ensures
        match r {
            Ok(text) => vstd::utf8::valid_utf8(bytes@) && vstd::utf8::encode_utf8(text@) == bytes@,
            Err(message) => !vstd::utf8::valid_utf8(bytes@) && message@ == utf8_error_text(bytes@),
        },
{
    String::from_utf8(bytes).map_err(|error| error.to_string())
}

/// Calls `String::from_utf8_lossy`. Bytes that are valid UTF-8 are decoded
/// as they are; what stands in for others is only named.
#[verifier::external_body]
pub(crate) fn from_utf8_lossy(bytes: &[u8]) -> (r: String)
    ensures
        r@ == utf8_lossy(bytes@),
        vstd::utf8::valid_utf8(bytes@) ==> r@ == vstd::utf8::decode_utf8(bytes@),
{
    String::from_utf8_lossy(bytes).into_owned()
}

/// Calls `str::trim`, which removes the leading and trailing characters that
/// have the Unicode property `White_Space`.
#[verifier::external_body]
pub(crate) fn trim(text: &str) -> (r: String)
    ensures
        r@ == trimmed(text@),
{
    text.trim().to_string()
}

/// Formats a text with `{:?}`.
#[verifier::external_body]
pub(crate) fn quote(text: &str) -> (r: String)
    ensures
        r@ == quoted(text@),
{
    format!("{:?}", text)
}

/// The characters with the Unicode property `White_Space`.
pub open spec fn is_white_space(c: char) -> bool {
    let code = c as u32;
    ||| 0x09 <= code <= 0x0d
    ||| code == 0x20
    ||| code == 0x85
    ||| code == 0xa0
    ||| code == 0x1680
    ||| 0x2000 <= code <= 0x200a
    ||| code == 0x2028
    ||| code == 0x2029
    ||| code == 0x202f
    ||| code == 0x205f
    ||| code == 0x3000
}

pub open spec fn trim_start(text: Seq<char>) -> Seq<char>
    decreases text.len(),
{
    if text.len() > 0 && is_white_space(text[0]) {
        trim_start(text.skip(1))
    } else {
        text
    }
}

pub open spec fn trim_end(text: Seq<char>) -> Seq<char>
    decreases text.len(),
{
    if text.len() > 0 && is_white_space(text.last()) {
        trim_end(text.drop_last())
    } else {
        text
    }
}

/// A text without its leading and trailing white space.
pub open spec fn trimmed(text: Seq<char>) -> Seq<char> {
    trim_end(trim_start(text))
}

/// The text of a number.
pub open spec fn number(n: nat) -> Seq<char> {
    bytes::chars(decimal::decimal(n))
}

/// The text of a number.
pub fn number_text(n: u128) -> (r: String)
    ensures
        r@ == number(n as nat),
{
    let digits = decimal::format_unsigned(n);
    proof {
        decimal::lemma_signed_ascii(n as int);
        bytes::lemma_ascii_valid(digits@);
    }
    match from_utf8(digits) {
        Ok(text) => {
            proof {
                bytes::lemma_ascii_text(text@, decimal::decimal(n as nat));
            }
            text
        },
        Err(message) => message,
    }
}

/// The numbers of a byte string, separated by commas.
pub open spec fn byte_numbers(s: Seq<u8>) -> Seq<char>
    decreases s.len(),
{
    if s.len() == 0 {
        Seq::empty()
    } else if s.len() == 1 {
        number(s[0] as nat)
    } else {
        byte_numbers(s.drop_last()) + ", "@ + number(s.last() as nat)
    }
}

/// How a key is shown: quoted when it is text, as a list of byte values
/// otherwise.
pub open spec fn key_shown(key: Seq<u8>) -> Seq<char> {
    if vstd::utf8::valid_utf8(key) {
        quoted(vstd::utf8::decode_utf8(key))
    } else {
        "["@ + byte_numbers(key) + "]"@
    }
}

/// Render a key for a message: quoted when it is text, as a list of byte
/// values otherwise.
pub fn show_key(key: &[u8]) -> (r: String)
    ensures
        r@ == key_shown(key@),
{
    match from_utf8(bytes::copy(key)) {
        Ok(text) => {
            proof {
                vstd::utf8::encode_utf8_decode_utf8(text@);
            }
            quote(text.as_str())
        },
        Err(_) => {
            let mut out = "[".to_string();
            let mut i: usize = 0;
            while i < key.len()
                invariant
                    i <= key@.len(),
                    out@ == "["@ + byte_numbers(key@.take(i as int)),
                decreases key@.len() - i,
            {
                proof {
                    assert(key@.take(i + 1).drop_last() =~= key@.take(i as int));
                    if i == 0 {
                        assert(key@.take(0) =~= Seq::<u8>::empty());
                    }
                }
                let n = number_text(key[i] as u128);
                if i > 0 {
                    out.append(", ");
                }
                out.append(n.as_str());
                proof {
                    assert(out@ =~= "["@ + byte_numbers(key@.take(i + 1)));
                }
                i += 1;
            }
            assert(key@.take(key@.len() as int) =~= key@);
            out.append("]");
            out
        },
    }
}

/// The text of ASCII bytes.
pub fn from_ascii(ascii: Vec<u8>) -> (r: String)
    requires
        bytes::is_ascii_bytes(ascii@),
    ensures
        r@ == bytes::chars(ascii@),
{
    proof {
        bytes::lemma_ascii_valid(ascii@);
    }
    let r = from_utf8(ascii).unwrap();
    proof {
        bytes::lemma_ascii_text(r@, ascii@);
    }
    r
}

/// Join two texts.
pub fn join(first: &str, second: &str) -> (r: String)
    ensures
        r@ == first@ + second@,
{
    let mut out = first.to_string();
    out.append(second);
    out
}

} // verus!
