//! The object value model: [`Encode`] turns a value into the bytes and client
//! flags stored with an item, [`Decode`] turns them back into the type the
//! caller asks for.
//!
//! Both traits live on the value type, not on the client, so each call site
//! picks its own encoding by type inference and the client stays a single,
//! non-generic type. The built-in implementations store bytes verbatim
//! ([`FLAG_BYTES`], zero), strings verbatim tagged [`FLAG_STR`], and integers
//! as decimal ASCII tagged [`FLAG_INT`], which keeps them usable by `incr` /
//! `decr`. The flag values follow the sibling Python client so the same item
//! can be read by both.
//!
//! Decoding is type-driven. The built-in decoders ignore the stored flags and
//! decode whatever bytes parse, so an item written by another client under a
//! different flag convention still reads; flags are advisory metadata for
//! custom implementations (a compression marker, a format tag).
//!
//! References encode through a blanket impl, so a value can be borrowed or
//! moved into a write.

use vstd::prelude::*;
use vstd::string::*;

use crate::bytes;
use crate::decimal;
use crate::text;

verus! {

/// Untyped raw bytes (the protocol default of zero).
pub const FLAG_BYTES: u32 = 0;

/// An integer stored as decimal ASCII.
pub const FLAG_INT: u32 = 2;

/// A UTF-8 string.
pub const FLAG_STR: u32 = 16;

/// A JSON document (the [`Json`] wrapper).
pub const FLAG_JSON: u32 = 32;

/// An encoded value: the bytes stored and the client flags stored with them.
#[derive(Debug, Clone, PartialEq, Eq)]
pub struct Encoded {
    pub bytes: Vec<u8>,
    pub flags: u32,
}

/// What an [`Encoded`] holds.
pub struct EncodedView {
    pub bytes: Seq<u8>,
    pub flags: u32,
}

impl View for Encoded {
    type V = EncodedView;

    open spec fn view(&self) -> EncodedView {
        EncodedView { bytes: self.bytes@, flags: self.flags }
    }
}

impl Encoded {
    pub fn new(bytes: &[u8], flags: u32) -> (r: Encoded)
        ensures
            r@ == (EncodedView { bytes: bytes@, flags }),
    {
        Encoded { bytes: bytes::copy(bytes), flags }
    }
}

/// Encode a value for storage. Implement it for your own types.
pub trait Encode {
    /// The stored form of the value, or the message of the failure. Nothing is
    /// known of the form of a type that does not give it.
    open spec fn encoding(&self) -> Result<EncodedView, Seq<char>> {
        arbitrary()
    }

    fn encode(&self) -> (r: Result<Encoded, EncodeError>)
        ensures
            match r {
                Ok(encoded) => self.encoding() == Ok::<EncodedView, Seq<char>>(encoded@),
                Err(e) => self.encoding() == Err::<EncodedView, Seq<char>>(e.message@),
            },
    ;
}

/// Decode a stored value, driven by the requested type. Implement it for your
/// own types.
pub trait Decode: Sized {
    /// The message of the failure, where the bytes are not a value. Nothing is
    /// known of the values of a type that does not give it.
    open spec fn decode_fault(bytes: Seq<u8>, flags: u32) -> Option<Seq<char>> {
        arbitrary()
    }

    /// Whether the bytes stand for the value.
    open spec fn stands_for(bytes: Seq<u8>, flags: u32, value: Self) -> bool {
        arbitrary()
    }

    fn decode(bytes: Vec<u8>, flags: u32) -> (r: Result<Self, DecodeError>)
        ensures
            match r {
                Ok(value) => Self::decode_fault(bytes@, flags) is None && Self::stands_for(bytes@, flags, value),
                Err(e) => Self::decode_fault(bytes@, flags) == Some(e.message@),
            },
    ;
}

/// An [`Encode`] implementation failed.
#[derive(Debug)]
pub struct EncodeError {
    pub message: String,
}

impl EncodeError {
    pub fn new(source: &str) -> (r: EncodeError)
        ensures
            r.message@ == source@,
    {
        EncodeError { message: source.to_string() }
    }

    /// A copy with the same message.
    pub fn duplicate(&self) -> (r: EncodeError)
        ensures
            r.message@ == self.message@,
    {
        EncodeError { message: self.message.clone() }
    }

    /// The message that describes the error.
    pub fn to_string(&self) -> (r: String)
        ensures
            r@ == "encode failed: "@ + self.message@,
    {
        text::join("encode failed: ", self.message.as_str())
    }
}

/// A [`Decode`] implementation failed.
#[derive(Debug)]
pub struct DecodeError {
    pub message: String,
}

impl DecodeError {
    pub fn new(source: &str) -> (r: DecodeError)
        ensures
            r.message@ == source@,
    {
        DecodeError { message: source.to_string() }
    }

    /// A copy with the same message.
    pub fn duplicate(&self) -> (r: DecodeError)
        ensures
            r.message@ == self.message@,
    {
        DecodeError { message: self.message.clone() }
    }

    /// The message that describes the error.
    pub fn to_string(&self) -> (r: String)
        ensures
            r@ == "decode failed: "@ + self.message@,
    {
        text::join("decode failed: ", self.message.as_str())
    }
}

impl<T: Encode + ?Sized> Encode for &T {
    open spec fn encoding(&self) -> Result<EncodedView, Seq<char>> {
        (**self).encoding()
    }

    fn encode(&self) -> (r: Result<Encoded, EncodeError>) {
        (**self).encode()
    }
}

impl Encode for [u8] {
    open spec fn encoding(&self) -> Result<EncodedView, Seq<char>> {
        Ok(EncodedView { bytes: self@, flags: FLAG_BYTES })
    }

    fn encode(&self) -> (r: Result<Encoded, EncodeError>) {
        Ok(Encoded::new(self, FLAG_BYTES))
    }
}

impl Encode for Vec<u8> {
    open spec fn encoding(&self) -> Result<EncodedView, Seq<char>> {
        Ok(EncodedView { bytes: self@, flags: FLAG_BYTES })
    }

    fn encode(&self) -> (r: Result<Encoded, EncodeError>) {
        Ok(Encoded::new(self.as_slice(), FLAG_BYTES))
    }
}

impl<const N: usize> Encode for [u8; N] {
    open spec fn encoding(&self) -> Result<EncodedView, Seq<char>> {
        Ok(EncodedView { bytes: self@, flags: FLAG_BYTES })
    }

    fn encode(&self) -> (r: Result<Encoded, EncodeError>) {
        Ok(Encoded::new(self.as_slice(), FLAG_BYTES))
    }
}

impl Encode for str {
    open spec fn encoding(&self) -> Result<EncodedView, Seq<char>> {
        Ok(EncodedView { bytes: vstd::utf8::encode_utf8(self@), flags: FLAG_STR })
    }

    fn encode(&self) -> (r: Result<Encoded, EncodeError>) {
        Ok(Encoded::new(self.as_bytes(), FLAG_STR))
    }
}

impl Encode for String {
    open spec fn encoding(&self) -> Result<EncodedView, Seq<char>> {
        Ok(EncodedView { bytes: vstd::utf8::encode_utf8(self@), flags: FLAG_STR })
    }

    fn encode(&self) -> (r: Result<Encoded, EncodeError>) {
        Ok(Encoded::new(self.as_str().as_bytes(), FLAG_STR))
    }
}

/// A value that is encoded already passes as it is: this is how values whose
/// form is made elsewhere, such as [`Json`] documents, go through the verbs.
impl Encode for Encoded {
    open spec fn encoding(&self) -> Result<EncodedView, Seq<char>> {
        Ok(self@)
    }

    fn encode(&self) -> (r: Result<Encoded, EncodeError>) {
        Ok(Encoded::new(self.bytes.as_slice(), self.flags))
    }
}

/// The stored bytes and flags, unread.
impl Decode for Encoded {
    open spec fn decode_fault(bytes: Seq<u8>, flags: u32) -> Option<Seq<char>> {
        None
    }

    open spec fn stands_for(bytes: Seq<u8>, flags: u32, value: Encoded) -> bool {
        value@ == (EncodedView { bytes, flags })
    }

    fn decode(bytes: Vec<u8>, flags: u32) -> (r: Result<Encoded, DecodeError>) {
        Ok(Encoded { bytes, flags })
    }
}

impl Decode for Vec<u8> {
    open spec fn decode_fault(bytes: Seq<u8>, flags: u32) -> Option<Seq<char>> {
        None
    }

    open spec fn stands_for(bytes: Seq<u8>, flags: u32, value: Vec<u8>) -> bool {
        value@ == bytes
    }

    fn decode(bytes: Vec<u8>, flags: u32) -> (r: Result<Vec<u8>, DecodeError>) {
        Ok(bytes)
    }
}

/// The message of the failure to read bytes as text.
pub open spec fn text_fault(bytes: Seq<u8>) -> Option<Seq<char>> {
    if vstd::utf8::valid_utf8(bytes) {
        None
    } else {
        Some(text::utf8_error_text(bytes))
    }
}

impl Decode for String {
    open spec fn decode_fault(bytes: Seq<u8>, flags: u32) -> Option<Seq<char>> {
        text_fault(bytes)
    }

    open spec fn stands_for(bytes: Seq<u8>, flags: u32, value: String) -> bool {
        vstd::utf8::encode_utf8(value@) == bytes
    }

    fn decode(bytes: Vec<u8>, flags: u32) -> (r: Result<String, DecodeError>) {
        match text::from_utf8(bytes) {
            Ok(value) => Ok(value),
            Err(message) => Err(DecodeError { message }),
        }
    }
}

/// The message of the failure to read bytes as an unsigned number of at most
/// `max`.
pub open spec fn unsigned_fault(bytes: Seq<u8>, max: nat) -> Option<Seq<char>> {
    if !vstd::utf8::valid_utf8(bytes) {
        Some(text::utf8_error_text(bytes))
    } else {
        match decimal::parse_unsigned(bytes, max) {
            Ok(_) => None,
            Err(kind) => Some(kind.text()),
        }
    }
}

/// The message of the failure to read bytes as a number in the range
/// `min..=max`.
pub open spec fn signed_fault(bytes: Seq<u8>, min: int, max: int) -> Option<Seq<char>> {
    if !vstd::utf8::valid_utf8(bytes) {
        Some(text::utf8_error_text(bytes))
    } else {
        match decimal::parse_signed(bytes, min, max) {
            Ok(_) => None,
            Err(kind) => Some(kind.text()),
        }
    }
}

fn decode_unsigned(bytes: Vec<u8>, max: u128) -> (r: Result<u128, DecodeError>)
    requires
        max >= 9,
    ensures
        match r {
            Ok(n) => unsigned_fault(bytes@, max as nat) is None && decimal::parse_unsigned(bytes@, max as nat)
                == Ok::<nat, decimal::IntErrorKind>(n as nat) && n <= max,
            Err(e) => unsigned_fault(bytes@, max as nat) == Some(e.message@),
        },
{
    match text::from_utf8(bytes::copy(bytes.as_slice())) {
        Ok(_) => {},
        Err(message) => {
            return Err(DecodeError { message });
        },
    }
    match decimal::read_unsigned(bytes.as_slice(), max) {
        Ok(n) => Ok(n),
        Err(kind) => Err(DecodeError::new(kind.message())),
    }
}

fn decode_signed(bytes: Vec<u8>, min: i128, max: i128) -> (r: Result<i128, DecodeError>)
    requires
        min <= -9,
        max >= 9,
    ensures
        match r {
            Ok(n) => signed_fault(bytes@, min as int, max as int) is None && decimal::parse_signed(
                bytes@,
                min as int,
                max as int,
            ) == Ok::<int, decimal::IntErrorKind>(n as int) && min <= n <= max,
            Err(e) => signed_fault(bytes@, min as int, max as int) == Some(e.message@),
        },
{
    match text::from_utf8(bytes::copy(bytes.as_slice())) {
        Ok(_) => {},
        Err(message) => {
            return Err(DecodeError { message });
        },
    }
    match decimal::read_signed(bytes.as_slice(), min, max) {
        Ok(n) => Ok(n),
        Err(kind) => Err(DecodeError::new(kind.message())),
    }
}

fn encode_digits(digits: Vec<u8>) -> (r: Encoded)
    ensures
        r@ == (EncodedView { bytes: digits@, flags: FLAG_INT }),
{
    Encoded { bytes: digits, flags: FLAG_INT }
}

impl Encode for u8 {
    open spec fn encoding(&self) -> Result<EncodedView, Seq<char>> {
        Ok(EncodedView { bytes: decimal::decimal(*self as nat), flags: FLAG_INT })
    }

    fn encode(&self) -> (r: Result<Encoded, EncodeError>) {
        Ok(encode_digits(decimal::format_unsigned(*self as u128)))
    }
}

impl Decode for u8 {
    open spec fn decode_fault(bytes: Seq<u8>, flags: u32) -> Option<Seq<char>> {
        unsigned_fault(bytes, u8::MAX as nat)
    }

    open spec fn stands_for(bytes: Seq<u8>, flags: u32, value: u8) -> bool {
        decimal::parse_unsigned(bytes, u8::MAX as nat) == Ok::<nat, decimal::IntErrorKind>(value as nat)
    }

    fn decode(bytes: Vec<u8>, flags: u32) -> (r: Result<u8, DecodeError>) {
        match decode_unsigned(bytes, u8::MAX as u128) {
            Ok(n) => Ok(n as u8),
            Err(e) => Err(e),
        }
    }
}

impl Encode for u16 {
    open spec fn encoding(&self) -> Result<EncodedView, Seq<char>> {
        Ok(EncodedView { bytes: decimal::decimal(*self as nat), flags: FLAG_INT })
    }

    fn encode(&self) -> (r: Result<Encoded, EncodeError>) {
        Ok(encode_digits(decimal::format_unsigned(*self as u128)))
    }
}

impl Decode for u16 {
    open spec fn decode_fault(bytes: Seq<u8>, flags: u32) -> Option<Seq<char>> {
        unsigned_fault(bytes, u16::MAX as nat)
    }

    open spec fn stands_for(bytes: Seq<u8>, flags: u32, value: u16) -> bool {
        decimal::parse_unsigned(bytes, u16::MAX as nat) == Ok::<nat, decimal::IntErrorKind>(value as nat)
    }

    fn decode(bytes: Vec<u8>, flags: u32) -> (r: Result<u16, DecodeError>) {
        match decode_unsigned(bytes, u16::MAX as u128) {
            Ok(n) => Ok(n as u16),
            Err(e) => Err(e),
        }
    }
}

impl Encode for u32 {
    open spec fn encoding(&self) -> Result<EncodedView, Seq<char>> {
        Ok(EncodedView { bytes: decimal::decimal(*self as nat), flags: FLAG_INT })
    }

    fn encode(&self) -> (r: Result<Encoded, EncodeError>) {
        Ok(encode_digits(decimal::format_unsigned(*self as u128)))
    }
}

impl Decode for u32 {
    open spec fn decode_fault(bytes: Seq<u8>, flags: u32) -> Option<Seq<char>> {
        unsigned_fault(bytes, u32::MAX as nat)
    }

    open spec fn stands_for(bytes: Seq<u8>, flags: u32, value: u32) -> bool {
        decimal::parse_unsigned(bytes, u32::MAX as nat) == Ok::<nat, decimal::IntErrorKind>(value as nat)
    }

    fn decode(bytes: Vec<u8>, flags: u32) -> (r: Result<u32, DecodeError>) {
        match decode_unsigned(bytes, u32::MAX as u128) {
            Ok(n) => Ok(n as u32),
            Err(e) => Err(e),
        }
    }
}

impl Encode for u64 {
    open spec fn encoding(&self) -> Result<EncodedView, Seq<char>> {
        Ok(EncodedView { bytes: decimal::decimal(*self as nat), flags: FLAG_INT })
    }

    fn encode(&self) -> (r: Result<Encoded, EncodeError>) {
        Ok(encode_digits(decimal::format_unsigned(*self as u128)))
    }
}

impl Decode for u64 {
    open spec fn decode_fault(bytes: Seq<u8>, flags: u32) -> Option<Seq<char>> {
        unsigned_fault(bytes, u64::MAX as nat)
    }

    open spec fn stands_for(bytes: Seq<u8>, flags: u32, value: u64) -> bool {
        decimal::parse_unsigned(bytes, u64::MAX as nat) == Ok::<nat, decimal::IntErrorKind>(value as nat)
    }

    fn decode(bytes: Vec<u8>, flags: u32) -> (r: Result<u64, DecodeError>) {
        match decode_unsigned(bytes, u64::MAX as u128) {
            Ok(n) => Ok(n as u64),
            Err(e) => Err(e),
        }
    }
}

impl Encode for u128 {
    open spec fn encoding(&self) -> Result<EncodedView, Seq<char>> {
        Ok(EncodedView { bytes: decimal::decimal(*self as nat), flags: FLAG_INT })
    }

    fn encode(&self) -> (r: Result<Encoded, EncodeError>) {
        Ok(encode_digits(decimal::format_unsigned(*self as u128)))
    }
}

impl Decode for u128 {
    open spec fn decode_fault(bytes: Seq<u8>, flags: u32) -> Option<Seq<char>> {
        unsigned_fault(bytes, u128::MAX as nat)
    }

    open spec fn stands_for(bytes: Seq<u8>, flags: u32, value: u128) -> bool {
        decimal::parse_unsigned(bytes, u128::MAX as nat) == Ok::<nat, decimal::IntErrorKind>(value as nat)
    }

    fn decode(bytes: Vec<u8>, flags: u32) -> (r: Result<u128, DecodeError>) {
        match decode_unsigned(bytes, u128::MAX as u128) {
            Ok(n) => Ok(n as u128),
            Err(e) => Err(e),
        }
    }
}

impl Encode for usize {
    open spec fn encoding(&self) -> Result<EncodedView, Seq<char>> {
        Ok(EncodedView { bytes: decimal::decimal(*self as nat), flags: FLAG_INT })
    }

    fn encode(&self) -> (r: Result<Encoded, EncodeError>) {
        Ok(encode_digits(decimal::format_unsigned(*self as u128)))
    }
}

impl Decode for usize {
    open spec fn decode_fault(bytes: Seq<u8>, flags: u32) -> Option<Seq<char>> {
        unsigned_fault(bytes, usize::MAX as nat)
    }

    open spec fn stands_for(bytes: Seq<u8>, flags: u32, value: usize) -> bool {
        decimal::parse_unsigned(bytes, usize::MAX as nat) == Ok::<nat, decimal::IntErrorKind>(value as nat)
    }

    fn decode(bytes: Vec<u8>, flags: u32) -> (r: Result<usize, DecodeError>) {
        match decode_unsigned(bytes, usize::MAX as u128) {
            Ok(n) => Ok(n as usize),
            Err(e) => Err(e),
        }
    }
}

impl Encode for i8 {
    open spec fn encoding(&self) -> Result<EncodedView, Seq<char>> {
        Ok(EncodedView { bytes: decimal::signed_decimal(*self as int), flags: FLAG_INT })
    }

    fn encode(&self) -> (r: Result<Encoded, EncodeError>) {
        Ok(encode_digits(decimal::format_signed(*self as i128)))
    }
}

impl Decode for i8 {
    open spec fn decode_fault(bytes: Seq<u8>, flags: u32) -> Option<Seq<char>> {
        signed_fault(bytes, i8::MIN as int, i8::MAX as int)
    }

    open spec fn stands_for(bytes: Seq<u8>, flags: u32, value: i8) -> bool {
        decimal::parse_signed(bytes, i8::MIN as int, i8::MAX as int) == Ok::<int, decimal::IntErrorKind>(value as int)
    }

    fn decode(bytes: Vec<u8>, flags: u32) -> (r: Result<i8, DecodeError>) {
        match decode_signed(bytes, i8::MIN as i128, i8::MAX as i128) {
            Ok(n) => Ok(n as i8),
            Err(e) => Err(e),
        }
    }
}

impl Encode for i16 {
    open spec fn encoding(&self) -> Result<EncodedView, Seq<char>> {
        Ok(EncodedView { bytes: decimal::signed_decimal(*self as int), flags: FLAG_INT })
    }

    fn encode(&self) -> (r: Result<Encoded, EncodeError>) {
        Ok(encode_digits(decimal::format_signed(*self as i128)))
    }
}

impl Decode for i16 {
    open spec fn decode_fault(bytes: Seq<u8>, flags: u32) -> Option<Seq<char>> {
        signed_fault(bytes, i16::MIN as int, i16::MAX as int)
    }

    open spec fn stands_for(bytes: Seq<u8>, flags: u32, value: i16) -> bool {
        decimal::parse_signed(bytes, i16::MIN as int, i16::MAX as int) == Ok::<int, decimal::IntErrorKind>(value as int)
    }

    fn decode(bytes: Vec<u8>, flags: u32) -> (r: Result<i16, DecodeError>) {
        match decode_signed(bytes, i16::MIN as i128, i16::MAX as i128) {
            Ok(n) => Ok(n as i16),
            Err(e) => Err(e),
        }
    }
}

impl Encode for i32 {
    open spec fn encoding(&self) -> Result<EncodedView, Seq<char>> {
        Ok(EncodedView { bytes: decimal::signed_decimal(*self as int), flags: FLAG_INT })
    }

    fn encode(&self) -> (r: Result<Encoded, EncodeError>) {
        Ok(encode_digits(decimal::format_signed(*self as i128)))
    }
}

impl Decode for i32 {
    open spec fn decode_fault(bytes: Seq<u8>, flags: u32) -> Option<Seq<char>> {
        signed_fault(bytes, i32::MIN as int, i32::MAX as int)
    }

    open spec fn stands_for(bytes: Seq<u8>, flags: u32, value: i32) -> bool {
        decimal::parse_signed(bytes, i32::MIN as int, i32::MAX as int) == Ok::<int, decimal::IntErrorKind>(value as int)
    }

    fn decode(bytes: Vec<u8>, flags: u32) -> (r: Result<i32, DecodeError>) {
        match decode_signed(bytes, i32::MIN as i128, i32::MAX as i128) {
            Ok(n) => Ok(n as i32),
            Err(e) => Err(e),
        }
    }
}

impl Encode for i64 {
    open spec fn encoding(&self) -> Result<EncodedView, Seq<char>> {
        Ok(EncodedView { bytes: decimal::signed_decimal(*self as int), flags: FLAG_INT })
    }

    fn encode(&self) -> (r: Result<Encoded, EncodeError>) {
        Ok(encode_digits(decimal::format_signed(*self as i128)))
    }
}

impl Decode for i64 {
    open spec fn decode_fault(bytes: Seq<u8>, flags: u32) -> Option<Seq<char>> {
        signed_fault(bytes, i64::MIN as int, i64::MAX as int)
    }

    open spec fn stands_for(bytes: Seq<u8>, flags: u32, value: i64) -> bool {
        decimal::parse_signed(bytes, i64::MIN as int, i64::MAX as int) == Ok::<int, decimal::IntErrorKind>(value as int)
    }

    fn decode(bytes: Vec<u8>, flags: u32) -> (r: Result<i64, DecodeError>) {
        match decode_signed(bytes, i64::MIN as i128, i64::MAX as i128) {
            Ok(n) => Ok(n as i64),
            Err(e) => Err(e),
        }
    }
}

impl Encode for i128 {
    open spec fn encoding(&self) -> Result<EncodedView, Seq<char>> {
        Ok(EncodedView { bytes: decimal::signed_decimal(*self as int), flags: FLAG_INT })
    }

    fn encode(&self) -> (r: Result<Encoded, EncodeError>) {
        Ok(encode_digits(decimal::format_signed(*self as i128)))
    }
}

impl Decode for i128 {
    open spec fn decode_fault(bytes: Seq<u8>, flags: u32) -> Option<Seq<char>> {
        signed_fault(bytes, i128::MIN as int, i128::MAX as int)
    }

    open spec fn stands_for(bytes: Seq<u8>, flags: u32, value: i128) -> bool {
        decimal::parse_signed(bytes, i128::MIN as int, i128::MAX as int) == Ok::<int, decimal::IntErrorKind>(value as int)
    }

    fn decode(bytes: Vec<u8>, flags: u32) -> (r: Result<i128, DecodeError>) {
        match decode_signed(bytes, i128::MIN as i128, i128::MAX as i128) {
            Ok(n) => Ok(n as i128),
            Err(e) => Err(e),
        }
    }
}

impl Encode for isize {
    open spec fn encoding(&self) -> Result<EncodedView, Seq<char>> {
        Ok(EncodedView { bytes: decimal::signed_decimal(*self as int), flags: FLAG_INT })
    }

    fn encode(&self) -> (r: Result<Encoded, EncodeError>) {
        Ok(encode_digits(decimal::format_signed(*self as i128)))
    }
}

impl Decode for isize {
    open spec fn decode_fault(bytes: Seq<u8>, flags: u32) -> Option<Seq<char>> {
        signed_fault(bytes, isize::MIN as int, isize::MAX as int)
    }

    open spec fn stands_for(bytes: Seq<u8>, flags: u32, value: isize) -> bool {
        decimal::parse_signed(bytes, isize::MIN as int, isize::MAX as int) == Ok::<int, decimal::IntErrorKind>(value as int)
    }

    fn decode(bytes: Vec<u8>, flags: u32) -> (r: Result<isize, DecodeError>) {
        match decode_signed(bytes, isize::MIN as i128, isize::MAX as i128) {
            Ok(n) => Ok(n as isize),
            Err(e) => Err(e),
        }
    }
}

/// A value stored as a JSON document, tagged [`FLAG_JSON`].
#[derive(Debug, Clone, Copy, PartialEq, Eq)]
pub struct Json<T>(pub T);

impl<T> Json<T> {
    pub fn into_inner(self) -> (r: T)
        ensures
            r == self.0,
    {
        self.0
    }

    /// Tag the text of a JSON document as one.
    pub fn tag(document: Vec<u8>) -> (r: Encoded)
        ensures
            r@ == (EncodedView { bytes: document@, flags: FLAG_JSON }),
    {
        Encoded { bytes: document, flags: FLAG_JSON }
    }
}

/// A `u8` is read back as itself, whatever flags come with it.
pub proof fn lemma_u8_value_roundtrip(n: u8, flags: u32)
    ensures
        u8::decode_fault(n.encoding()->Ok_0.bytes, flags) is None,
        forall|m: u8| u8::stands_for(n.encoding()->Ok_0.bytes, flags, m) <==> m == n,
{
    decimal::lemma_unsigned_roundtrip(n as nat, u8::MAX as nat);
    decimal::lemma_signed_ascii(n as int);
    bytes::lemma_ascii_valid(decimal::decimal(n as nat));
}

/// A `u16` is read back as itself, whatever flags come with it.
pub proof fn lemma_u16_value_roundtrip(n: u16, flags: u32)
    ensures
        u16::decode_fault(n.encoding()->Ok_0.bytes, flags) is None,
        forall|m: u16| u16::stands_for(n.encoding()->Ok_0.bytes, flags, m) <==> m == n,
{
    decimal::lemma_unsigned_roundtrip(n as nat, u16::MAX as nat);
    decimal::lemma_signed_ascii(n as int);
    bytes::lemma_ascii_valid(decimal::decimal(n as nat));
}

/// A `u32` is read back as itself, whatever flags come with it.
pub proof fn lemma_u32_value_roundtrip(n: u32, flags: u32)
    ensures
        u32::decode_fault(n.encoding()->Ok_0.bytes, flags) is None,
        forall|m: u32| u32::stands_for(n.encoding()->Ok_0.bytes, flags, m) <==> m == n,
{
    decimal::lemma_unsigned_roundtrip(n as nat, u32::MAX as nat);
    decimal::lemma_signed_ascii(n as int);
    bytes::lemma_ascii_valid(decimal::decimal(n as nat));
}

/// A `u64` is read back as itself, whatever flags come with it.
pub proof fn lemma_u64_value_roundtrip(n: u64, flags: u32)
    ensures
        u64::decode_fault(n.encoding()->Ok_0.bytes, flags) is None,
        forall|m: u64| u64::stands_for(n.encoding()->Ok_0.bytes, flags, m) <==> m == n,
{
    decimal::lemma_unsigned_roundtrip(n as nat, u64::MAX as nat);
    decimal::lemma_signed_ascii(n as int);
    bytes::lemma_ascii_valid(decimal::decimal(n as nat));
}

/// A `u128` is read back as itself, whatever flags come with it.
pub proof fn lemma_u128_value_roundtrip(n: u128, flags: u32)
    ensures
        u128::decode_fault(n.encoding()->Ok_0.bytes, flags) is None,
        forall|m: u128| u128::stands_for(n.encoding()->Ok_0.bytes, flags, m) <==> m == n,
{
    decimal::lemma_unsigned_roundtrip(n as nat, u128::MAX as nat);
    decimal::lemma_signed_ascii(n as int);
    bytes::lemma_ascii_valid(decimal::decimal(n as nat));
}

/// A `usize` is read back as itself, whatever flags come with it.
pub proof fn lemma_usize_value_roundtrip(n: usize, flags: u32)
    ensures
        usize::decode_fault(n.encoding()->Ok_0.bytes, flags) is None,
        forall|m: usize| usize::stands_for(n.encoding()->Ok_0.bytes, flags, m) <==> m == n,
{
    decimal::lemma_unsigned_roundtrip(n as nat, usize::MAX as nat);
    decimal::lemma_signed_ascii(n as int);
    bytes::lemma_ascii_valid(decimal::decimal(n as nat));
}

/// An `i8` is read back as itself, whatever flags come with it.
pub proof fn lemma_i8_value_roundtrip(n: i8, flags: u32)
    ensures
        i8::decode_fault(n.encoding()->Ok_0.bytes, flags) is None,
        forall|m: i8| i8::stands_for(n.encoding()->Ok_0.bytes, flags, m) <==> m == n,
{
    decimal::lemma_signed_roundtrip(n as int, i8::MIN as int, i8::MAX as int);
    decimal::lemma_signed_ascii(n as int);
    bytes::lemma_ascii_valid(decimal::signed_decimal(n as int));
}

/// An `i16` is read back as itself, whatever flags come with it.
pub proof fn lemma_i16_value_roundtrip(n: i16, flags: u32)
    ensures
        i16::decode_fault(n.encoding()->Ok_0.bytes, flags) is None,
        forall|m: i16| i16::stands_for(n.encoding()->Ok_0.bytes, flags, m) <==> m == n,
{
    decimal::lemma_signed_roundtrip(n as int, i16::MIN as int, i16::MAX as int);
    decimal::lemma_signed_ascii(n as int);
    bytes::lemma_ascii_valid(decimal::signed_decimal(n as int));
}

/// An `i32` is read back as itself, whatever flags come with it.
pub proof fn lemma_i32_value_roundtrip(n: i32, flags: u32)
    ensures
        i32::decode_fault(n.encoding()->Ok_0.bytes, flags) is None,
        forall|m: i32| i32::stands_for(n.encoding()->Ok_0.bytes, flags, m) <==> m == n,
{
    decimal::lemma_signed_roundtrip(n as int, i32::MIN as int, i32::MAX as int);
    decimal::lemma_signed_ascii(n as int);
    bytes::lemma_ascii_valid(decimal::signed_decimal(n as int));
}

/// An `i64` is read back as itself, whatever flags come with it.
pub proof fn lemma_i64_value_roundtrip(n: i64, flags: u32)
    ensures
        i64::decode_fault(n.encoding()->Ok_0.bytes, flags) is None,
        forall|m: i64| i64::stands_for(n.encoding()->Ok_0.bytes, flags, m) <==> m == n,
{
    decimal::lemma_signed_roundtrip(n as int, i64::MIN as int, i64::MAX as int);
    decimal::lemma_signed_ascii(n as int);
    bytes::lemma_ascii_valid(decimal::signed_decimal(n as int));
}

/// An `i128` is read back as itself, whatever flags come with it.
pub proof fn lemma_i128_value_roundtrip(n: i128, flags: u32)
    ensures
        i128::decode_fault(n.encoding()->Ok_0.bytes, flags) is None,
        forall|m: i128| i128::stands_for(n.encoding()->Ok_0.bytes, flags, m) <==> m == n,
{
    decimal::lemma_signed_roundtrip(n as int, i128::MIN as int, i128::MAX as int);
    decimal::lemma_signed_ascii(n as int);
    bytes::lemma_ascii_valid(decimal::signed_decimal(n as int));
}

/// An `isize` is read back as itself, whatever flags come with it.
pub proof fn lemma_isize_value_roundtrip(n: isize, flags: u32)
    ensures
        isize::decode_fault(n.encoding()->Ok_0.bytes, flags) is None,
        forall|m: isize| isize::stands_for(n.encoding()->Ok_0.bytes, flags, m) <==> m == n,
{
    decimal::lemma_signed_roundtrip(n as int, isize::MIN as int, isize::MAX as int);
    decimal::lemma_signed_ascii(n as int);
    bytes::lemma_ascii_valid(decimal::signed_decimal(n as int));
}

/// A value that is encoded already is read back as it was stored, flags
/// included.
pub proof fn lemma_encoded_value_roundtrip(value: Encoded)
    ensures
        Encoded::decode_fault(value.encoding()->Ok_0.bytes, value.encoding()->Ok_0.flags) is None,
        forall|other: Encoded|
            Encoded::stands_for(value.encoding()->Ok_0.bytes, value.encoding()->Ok_0.flags, other) <==> other@ == value@,
{
}

/// A text is read back as itself, whatever flags come with it.
pub proof fn lemma_text_value_roundtrip(value: String, flags: u32)
    ensures
        String::decode_fault(value.encoding()->Ok_0.bytes, flags) is None,
        forall|other: String|
            String::stands_for(value.encoding()->Ok_0.bytes, flags, other) <==> other@ == value@,
{
    vstd::utf8::encode_utf8_valid_utf8(value@);
    vstd::utf8::encode_utf8_decode_utf8(value@);
    assert forall|other: String|
        String::stands_for(value.encoding()->Ok_0.bytes, flags, other) implies other@ == value@ by {
        vstd::utf8::encode_utf8_decode_utf8(other@);
    }
}

/// Bytes are read back as they were stored, whatever flags come with them.
pub proof fn lemma_bytes_value_roundtrip(value: Vec<u8>, flags: u32)
    ensures
        Vec::<u8>::decode_fault(value.encoding()->Ok_0.bytes, flags) is None,
        forall|other: Vec<u8>|
            Vec::<u8>::stands_for(value.encoding()->Ok_0.bytes, flags, other) <==> other@ == value@,
{
}

/// The decoders of bytes, texts and numbers do not look at the flags.
pub proof fn lemma_flags_are_advisory(bytes: Seq<u8>, flags: u32, other: u32)
    ensures
        Vec::<u8>::decode_fault(bytes, flags) == Vec::<u8>::decode_fault(bytes, other),
        String::decode_fault(bytes, flags) == String::decode_fault(bytes, other),
        u8::decode_fault(bytes, flags) == u8::decode_fault(bytes, other),
        u16::decode_fault(bytes, flags) == u16::decode_fault(bytes, other),
        u32::decode_fault(bytes, flags) == u32::decode_fault(bytes, other),
        u64::decode_fault(bytes, flags) == u64::decode_fault(bytes, other),
        u128::decode_fault(bytes, flags) == u128::decode_fault(bytes, other),
        usize::decode_fault(bytes, flags) == usize::decode_fault(bytes, other),
        i8::decode_fault(bytes, flags) == i8::decode_fault(bytes, other),
        i16::decode_fault(bytes, flags) == i16::decode_fault(bytes, other),
        i32::decode_fault(bytes, flags) == i32::decode_fault(bytes, other),
        i64::decode_fault(bytes, flags) == i64::decode_fault(bytes, other),
        i128::decode_fault(bytes, flags) == i128::decode_fault(bytes, other),
        isize::decode_fault(bytes, flags) == isize::decode_fault(bytes, other),
        forall|value: Vec<u8>| Vec::<u8>::stands_for(bytes, flags, value) == Vec::<u8>::stands_for(bytes, other, value),
        forall|value: String| String::stands_for(bytes, flags, value) == String::stands_for(bytes, other, value),
        forall|value: u8| u8::stands_for(bytes, flags, value) == u8::stands_for(bytes, other, value),
        forall|value: u16| u16::stands_for(bytes, flags, value) == u16::stands_for(bytes, other, value),
        forall|value: u32| u32::stands_for(bytes, flags, value) == u32::stands_for(bytes, other, value),
        forall|value: u64| u64::stands_for(bytes, flags, value) == u64::stands_for(bytes, other, value),
        forall|value: u128| u128::stands_for(bytes, flags, value) == u128::stands_for(bytes, other, value),
        forall|value: usize| usize::stands_for(bytes, flags, value) == usize::stands_for(bytes, other, value),
        forall|value: i8| i8::stands_for(bytes, flags, value) == i8::stands_for(bytes, other, value),
        forall|value: i16| i16::stands_for(bytes, flags, value) == i16::stands_for(bytes, other, value),
        forall|value: i32| i32::stands_for(bytes, flags, value) == i32::stands_for(bytes, other, value),
        forall|value: i64| i64::stands_for(bytes, flags, value) == i64::stands_for(bytes, other, value),
        forall|value: i128| i128::stands_for(bytes, flags, value) == i128::stands_for(bytes, other, value),
        forall|value: isize| isize::stands_for(bytes, flags, value) == isize::stands_for(bytes, other, value),
{
}

} // verus!
