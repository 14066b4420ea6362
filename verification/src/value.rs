//! How values of the classic client are written and read.

use vstd::prelude::*;
use vstd::string::*;

use crate::bytes;
use crate::decimal;
use crate::error::{MemcacheError, MemcacheErrorView, ParseError, ParseErrorView};
use crate::io::{IoError, IoErrorView};
use crate::text;

verus! {

/// What the flags stored with a value say of it.
#[derive(Debug, Clone, Copy, PartialEq, Eq, Structural)]
pub enum Flags {
    Bytes,
}

impl Flags {
    pub open spec fn code_spec(self) -> u32 {
        0
    }

    /// The flags as they are stored.
    pub fn code(self) -> (r: u32)
        ensures
            r == self.code_spec(),
    {
        match self {
            Flags::Bytes => 0,
        }
    }
}

/// Determine how the value is serialized to memcached. Nothing is known of the
/// form of a type that gives neither its flags nor its bytes for contracts.
pub trait ToMemcacheValue {
    /// The flags that are stored.
    open spec fn flags_spec(&self) -> u32 {
        arbitrary()
    }

    /// The bytes that are stored.
    open spec fn bytes_spec(&self) -> Seq<u8> {
        arbitrary()
    }

    /// Why the bytes cannot be written, if they cannot.
    open spec fn write_fault(&self) -> Option<IoErrorView> {
        arbitrary()
    }

    fn get_flags(&self) -> (r: u32)
        ensures
            r == self.flags_spec(),
    ;

    fn get_length(&self) -> (r: usize)
        ensures
            r == self.bytes_spec().len(),
    ;

    /// Write the bytes behind what the stream holds.
    fn write_to(&self, stream: &mut Vec<u8>) -> (r: Result<(), IoError>)
        ensures
            match r {
                Ok(_) => self.write_fault() is None && final(stream)@ == old(stream)@ + self.bytes_spec(),
                Err(e) => self.write_fault() == Some(e@),
            },
    ;
}

impl<'a> ToMemcacheValue for &'a [u8] {
    open spec fn flags_spec(&self) -> u32 {
        Flags::Bytes.code_spec()
    }

    open spec fn bytes_spec(&self) -> Seq<u8> {
        self@
    }

    open spec fn write_fault(&self) -> Option<IoErrorView> {
        None
    }

    fn get_flags(&self) -> (r: u32) {
        Flags::Bytes.code()
    }

    fn get_length(&self) -> (r: usize) {
        self.len()
    }

    fn write_to(&self, stream: &mut Vec<u8>) -> (r: Result<(), IoError>) {
        bytes::append(stream, self);
        Ok(())
    }
}

impl ToMemcacheValue for String {
    open spec fn flags_spec(&self) -> u32 {
        Flags::Bytes.code_spec()
    }

    open spec fn bytes_spec(&self) -> Seq<u8> {
        vstd::utf8::encode_utf8(self@)
    }

    open spec fn write_fault(&self) -> Option<IoErrorView> {
        None
    }

    fn get_flags(&self) -> (r: u32) {
        Flags::Bytes.code()
    }

    fn get_length(&self) -> (r: usize) {
        self.as_str().as_bytes().len()
    }

    fn write_to(&self, stream: &mut Vec<u8>) -> (r: Result<(), IoError>) {
        bytes::append(stream, self.as_str().as_bytes());
        Ok(())
    }
}

impl<'a> ToMemcacheValue for &'a String {
    open spec fn flags_spec(&self) -> u32 {
        Flags::Bytes.code_spec()
    }

    open spec fn bytes_spec(&self) -> Seq<u8> {
        vstd::utf8::encode_utf8((**self)@)
    }

    open spec fn write_fault(&self) -> Option<IoErrorView> {
        None
    }

    fn get_flags(&self) -> (r: u32) {
        Flags::Bytes.code()
    }

    fn get_length(&self) -> (r: usize) {
        self.as_str().as_bytes().len()
    }

    fn write_to(&self, stream: &mut Vec<u8>) -> (r: Result<(), IoError>) {
        bytes::append(stream, self.as_str().as_bytes());
        Ok(())
    }
}

impl<'a> ToMemcacheValue for &'a str {
    open spec fn flags_spec(&self) -> u32 {
        Flags::Bytes.code_spec()
    }

    open spec fn bytes_spec(&self) -> Seq<u8> {
        vstd::utf8::encode_utf8(self@)
    }

    open spec fn write_fault(&self) -> Option<IoErrorView> {
        None
    }

    fn get_flags(&self) -> (r: u32) {
        Flags::Bytes.code()
    }

    fn get_length(&self) -> (r: usize) {
        self.as_bytes().len()
    }

    fn write_to(&self, stream: &mut Vec<u8>) -> (r: Result<(), IoError>) {
        bytes::append(stream, self.as_bytes());
        Ok(())
    }
}

/// The bytes of a truth value.
pub open spec fn bool_bytes(value: bool) -> Seq<u8> {
    if value {
        bytes::utf8("true")
    } else {
        bytes::utf8("false")
    }
}

fn bool_text(value: bool) -> (r: &'static str)
    ensures
        bytes::utf8(r) == bool_bytes(value),
{
    if value {
        "true"
    } else {
        "false"
    }
}

impl ToMemcacheValue for bool {
    open spec fn flags_spec(&self) -> u32 {
        Flags::Bytes.code_spec()
    }

    open spec fn bytes_spec(&self) -> Seq<u8> {
        bool_bytes(*self)
    }

    open spec fn write_fault(&self) -> Option<IoErrorView> {
        None
    }

    fn get_flags(&self) -> (r: u32) {
        Flags::Bytes.code()
    }

    fn get_length(&self) -> (r: usize) {
        bool_text(*self).as_bytes().len()
    }

    fn write_to(&self, stream: &mut Vec<u8>) -> (r: Result<(), IoError>) {
        bytes::append(stream, bool_text(*self).as_bytes());
        Ok(())
    }
}

impl ToMemcacheValue for u8 {
    open spec fn flags_spec(&self) -> u32 {
        Flags::Bytes.code_spec()
    }

    open spec fn bytes_spec(&self) -> Seq<u8> {
        decimal::signed_decimal(*self as int)
    }

    open spec fn write_fault(&self) -> Option<IoErrorView> {
        None
    }

    fn get_flags(&self) -> (r: u32) {
        Flags::Bytes.code()
    }

    fn get_length(&self) -> (r: usize) {
        decimal::format_signed(*self as i128).len()
    }

    fn write_to(&self, stream: &mut Vec<u8>) -> (r: Result<(), IoError>) {
        let digits = decimal::format_signed(*self as i128);
        bytes::append(stream, digits.as_slice());
        Ok(())
    }
}

impl ToMemcacheValue for u16 {
    open spec fn flags_spec(&self) -> u32 {
        Flags::Bytes.code_spec()
    }

    open spec fn bytes_spec(&self) -> Seq<u8> {
        decimal::signed_decimal(*self as int)
    }

    open spec fn write_fault(&self) -> Option<IoErrorView> {
        None
    }

    fn get_flags(&self) -> (r: u32) {
        Flags::Bytes.code()
    }

    fn get_length(&self) -> (r: usize) {
        decimal::format_signed(*self as i128).len()
    }

    fn write_to(&self, stream: &mut Vec<u8>) -> (r: Result<(), IoError>) {
        let digits = decimal::format_signed(*self as i128);
        bytes::append(stream, digits.as_slice());
        Ok(())
    }
}

impl ToMemcacheValue for u32 {
    open spec fn flags_spec(&self) -> u32 {
        Flags::Bytes.code_spec()
    }

    open spec fn bytes_spec(&self) -> Seq<u8> {
        decimal::signed_decimal(*self as int)
    }

    open spec fn write_fault(&self) -> Option<IoErrorView> {
        None
    }

    fn get_flags(&self) -> (r: u32) {
        Flags::Bytes.code()
    }

    fn get_length(&self) -> (r: usize) {
        decimal::format_signed(*self as i128).len()
    }

    fn write_to(&self, stream: &mut Vec<u8>) -> (r: Result<(), IoError>) {
        let digits = decimal::format_signed(*self as i128);
        bytes::append(stream, digits.as_slice());
        Ok(())
    }
}

impl ToMemcacheValue for u64 {
    open spec fn flags_spec(&self) -> u32 {
        Flags::Bytes.code_spec()
    }

    open spec fn bytes_spec(&self) -> Seq<u8> {
        decimal::signed_decimal(*self as int)
    }

    open spec fn write_fault(&self) -> Option<IoErrorView> {
        None
    }

    fn get_flags(&self) -> (r: u32) {
        Flags::Bytes.code()
    }

    fn get_length(&self) -> (r: usize) {
        decimal::format_signed(*self as i128).len()
    }

    fn write_to(&self, stream: &mut Vec<u8>) -> (r: Result<(), IoError>) {
        let digits = decimal::format_signed(*self as i128);
        bytes::append(stream, digits.as_slice());
        Ok(())
    }
}

impl ToMemcacheValue for i8 {
    open spec fn flags_spec(&self) -> u32 {
        Flags::Bytes.code_spec()
    }

    open spec fn bytes_spec(&self) -> Seq<u8> {
        decimal::signed_decimal(*self as int)
    }

    open spec fn write_fault(&self) -> Option<IoErrorView> {
        None
    }

    fn get_flags(&self) -> (r: u32) {
        Flags::Bytes.code()
    }

    fn get_length(&self) -> (r: usize) {
        decimal::format_signed(*self as i128).len()
    }

    fn write_to(&self, stream: &mut Vec<u8>) -> (r: Result<(), IoError>) {
        let digits = decimal::format_signed(*self as i128);
        bytes::append(stream, digits.as_slice());
        Ok(())
    }
}

impl ToMemcacheValue for i16 {
    open spec fn flags_spec(&self) -> u32 {
        Flags::Bytes.code_spec()
    }

    open spec fn bytes_spec(&self) -> Seq<u8> {
        decimal::signed_decimal(*self as int)
    }

    open spec fn write_fault(&self) -> Option<IoErrorView> {
        None
    }

    fn get_flags(&self) -> (r: u32) {
        Flags::Bytes.code()
    }

    fn get_length(&self) -> (r: usize) {
        decimal::format_signed(*self as i128).len()
    }

    fn write_to(&self, stream: &mut Vec<u8>) -> (r: Result<(), IoError>) {
        let digits = decimal::format_signed(*self as i128);
        bytes::append(stream, digits.as_slice());
        Ok(())
    }
}

impl ToMemcacheValue for i32 {
    open spec fn flags_spec(&self) -> u32 {
        Flags::Bytes.code_spec()
    }

    open spec fn bytes_spec(&self) -> Seq<u8> {
        decimal::signed_decimal(*self as int)
    }

    open spec fn write_fault(&self) -> Option<IoErrorView> {
        None
    }

    fn get_flags(&self) -> (r: u32) {
        Flags::Bytes.code()
    }

    fn get_length(&self) -> (r: usize) {
        decimal::format_signed(*self as i128).len()
    }

    fn write_to(&self, stream: &mut Vec<u8>) -> (r: Result<(), IoError>) {
        let digits = decimal::format_signed(*self as i128);
        bytes::append(stream, digits.as_slice());
        Ok(())
    }
}

impl ToMemcacheValue for i64 {
    open spec fn flags_spec(&self) -> u32 {
        Flags::Bytes.code_spec()
    }

    open spec fn bytes_spec(&self) -> Seq<u8> {
        decimal::signed_decimal(*self as int)
    }

    open spec fn write_fault(&self) -> Option<IoErrorView> {
        None
    }

    fn get_flags(&self) -> (r: u32) {
        Flags::Bytes.code()
    }

    fn get_length(&self) -> (r: usize) {
        decimal::format_signed(*self as i128).len()
    }

    fn write_to(&self, stream: &mut Vec<u8>) -> (r: Result<(), IoError>) {
        let digits = decimal::format_signed(*self as i128);
        bytes::append(stream, digits.as_slice());
        Ok(())
    }
}

/// Determine how the value is read from what memcached stores.
pub trait FromMemcacheValue: Sized {
    /// Why the stored bytes are no such value, if they are none.
    open spec fn value_fault(bytes: Seq<u8>, flags: u32) -> Option<MemcacheErrorView> {
        arbitrary()
    }

    /// Whether the stored bytes stand for the value.
    open spec fn stands_for(bytes: Seq<u8>, flags: u32, value: Self) -> bool {
        arbitrary()
    }

    fn from_memcache_value(value: Vec<u8>, flags: u32) -> (r: Result<Self, MemcacheError>)
        ensures
            match r {
                Ok(read) => Self::value_fault(value@, flags) is None && Self::stands_for(value@, flags, read),
                Err(e) => Self::value_fault(value@, flags) == Some(e@),
            },
    ;
}

/// Like [`FromMemcacheValue`], for values that also take the CAS token.
pub trait FromMemcacheValueExt: Sized {
    /// Why the stored bytes are no such value, if they are none.
    open spec fn value_fault_ext(bytes: Seq<u8>, flags: u32, cas: Option<u64>) -> Option<MemcacheErrorView> {
        arbitrary()
    }

    /// Whether the stored bytes stand for the value.
    open spec fn stands_for_ext(bytes: Seq<u8>, flags: u32, cas: Option<u64>, value: Self) -> bool {
        arbitrary()
    }

    fn from_memcache_value(value: Vec<u8>, flags: u32, cas: Option<u64>) -> (r: Result<Self, MemcacheError>)
        ensures
            match r {
                Ok(read) => Self::value_fault_ext(value@, flags, cas) is None && Self::stands_for_ext(
                    value@,
                    flags,
                    cas,
                    read,
                ),
                Err(e) => Self::value_fault_ext(value@, flags, cas) == Some(e@),
            },
    ;
}

impl<V: FromMemcacheValue> FromMemcacheValueExt for V {
    open spec fn value_fault_ext(bytes: Seq<u8>, flags: u32, cas: Option<u64>) -> Option<MemcacheErrorView> {
        <V as FromMemcacheValue>::value_fault(bytes, flags)
    }

    open spec fn stands_for_ext(bytes: Seq<u8>, flags: u32, cas: Option<u64>, value: V) -> bool {
        <V as FromMemcacheValue>::stands_for(bytes, flags, value)
    }

    fn from_memcache_value(value: Vec<u8>, flags: u32, cas: Option<u64>) -> (r: Result<V, MemcacheError>) {
        <V as FromMemcacheValue>::from_memcache_value(value, flags)
    }
}

/// Why bytes are no text, if they are none.
pub open spec fn text_fault(bytes: Seq<u8>) -> Option<MemcacheErrorView> {
    if vstd::utf8::valid_utf8(bytes) {
        None
    } else {
        Some(MemcacheErrorView::ParseError(ParseErrorView::String(text::utf8_error_text(bytes))))
    }
}

/// Read bytes as text.
pub fn read_text(value: Vec<u8>) -> (r: Result<String, MemcacheError>)
    ensures
        match r {
            Ok(read) => text_fault(value@) is None && vstd::utf8::encode_utf8(read@) == value@,
            Err(e) => text_fault(value@) == Some(e@),
        },
{
    match text::from_utf8(value) {
        Ok(read) => Ok(read),
        Err(message) => Err(MemcacheError::ParseError(ParseError::String(message))),
    }
}

impl FromMemcacheValueExt for (Vec<u8>, u32, Option<u64>) {
    open spec fn value_fault_ext(bytes: Seq<u8>, flags: u32, cas: Option<u64>) -> Option<MemcacheErrorView> {
        None
    }

    open spec fn stands_for_ext(
        bytes: Seq<u8>,
        flags: u32,
        cas: Option<u64>,
        value: (Vec<u8>, u32, Option<u64>),
    ) -> bool {
        value.0@ == bytes && value.1 == flags && value.2 == cas
    }

    fn from_memcache_value(value: Vec<u8>, flags: u32, cas: Option<u64>) -> (r: Result<
        (Vec<u8>, u32, Option<u64>),
        MemcacheError,
    >) {
        Ok((value, flags, cas))
    }
}

impl FromMemcacheValueExt for (String, u32, Option<u64>) {
    open spec fn value_fault_ext(bytes: Seq<u8>, flags: u32, cas: Option<u64>) -> Option<MemcacheErrorView> {
        text_fault(bytes)
    }

    open spec fn stands_for_ext(
        bytes: Seq<u8>,
        flags: u32,
        cas: Option<u64>,
        value: (String, u32, Option<u64>),
    ) -> bool {
        vstd::utf8::encode_utf8(value.0@) == bytes && value.1 == flags && value.2 == cas
    }

    fn from_memcache_value(value: Vec<u8>, flags: u32, cas: Option<u64>) -> (r: Result<
        (String, u32, Option<u64>),
        MemcacheError,
    >) {
        match read_text(value) {
            Ok(read) => Ok((read, flags, cas)),
            Err(e) => Err(e),
        }
    }
}

impl FromMemcacheValue for (Vec<u8>, u32) {
    open spec fn value_fault(bytes: Seq<u8>, flags: u32) -> Option<MemcacheErrorView> {
        None
    }

    open spec fn stands_for(bytes: Seq<u8>, flags: u32, value: (Vec<u8>, u32)) -> bool {
        value.0@ == bytes && value.1 == flags
    }

    fn from_memcache_value(value: Vec<u8>, flags: u32) -> (r: Result<(Vec<u8>, u32), MemcacheError>) {
        Ok((value, flags))
    }
}

impl FromMemcacheValue for (String, u32) {
    open spec fn value_fault(bytes: Seq<u8>, flags: u32) -> Option<MemcacheErrorView> {
        text_fault(bytes)
    }

    open spec fn stands_for(bytes: Seq<u8>, flags: u32, value: (String, u32)) -> bool {
        vstd::utf8::encode_utf8(value.0@) == bytes && value.1 == flags
    }

    fn from_memcache_value(value: Vec<u8>, flags: u32) -> (r: Result<(String, u32), MemcacheError>) {
        match read_text(value) {
            Ok(read) => Ok((read, flags)),
            Err(e) => Err(e),
        }
    }
}

impl FromMemcacheValue for Vec<u8> {
    open spec fn value_fault(bytes: Seq<u8>, flags: u32) -> Option<MemcacheErrorView> {
        None
    }

    open spec fn stands_for(bytes: Seq<u8>, flags: u32, value: Vec<u8>) -> bool {
        value@ == bytes
    }

    fn from_memcache_value(value: Vec<u8>, flags: u32) -> (r: Result<Vec<u8>, MemcacheError>) {
        Ok(value)
    }
}

impl FromMemcacheValue for String {
    open spec fn value_fault(bytes: Seq<u8>, flags: u32) -> Option<MemcacheErrorView> {
        text_fault(bytes)
    }

    open spec fn stands_for(bytes: Seq<u8>, flags: u32, value: String) -> bool {
        vstd::utf8::encode_utf8(value@) == bytes
    }

    fn from_memcache_value(value: Vec<u8>, flags: u32) -> (r: Result<String, MemcacheError>) {
        read_text(value)
    }
}

impl FromMemcacheValue for bool {
    open spec fn value_fault(bytes: Seq<u8>, flags: u32) -> Option<MemcacheErrorView> {
        match text_fault(bytes) {
            Some(e) => Some(e),
            None => if bytes == bool_bytes(true) || bytes == bool_bytes(false) {
                None
            } else {
                Some(MemcacheErrorView::ParseError(ParseErrorView::Bool))
            },
        }
    }

    open spec fn stands_for(bytes: Seq<u8>, flags: u32, value: bool) -> bool {
        bytes == bool_bytes(value)
    }

    fn from_memcache_value(value: Vec<u8>, flags: u32) -> (r: Result<bool, MemcacheError>) {
        match read_text(value) {
            Err(e) => Err(e),
            Ok(read) => {
                let wire = read.as_str().as_bytes();
                if bytes::equal(wire, "true".as_bytes()) {
                    Ok(true)
                } else if bytes::equal(wire, "false".as_bytes()) {
                    Ok(false)
                } else {
                    Err(MemcacheError::ParseError(ParseError::Bool))
                }
            },
        }
    }
}

impl FromMemcacheValue for u8 {
    open spec fn value_fault(bytes: Seq<u8>, flags: u32) -> Option<MemcacheErrorView> {
        match text_fault(bytes) {
            Some(e) => Some(e),
            None => match decimal::parse_unsigned(bytes, u8::MAX as nat) {
                Ok(_) => None,
                Err(kind) => Some(MemcacheErrorView::ParseError(ParseErrorView::Int(kind))),
            },
        }
    }

    open spec fn stands_for(bytes: Seq<u8>, flags: u32, value: u8) -> bool {
        decimal::parse_unsigned(bytes, u8::MAX as nat) == Ok::<nat, decimal::IntErrorKind>(value as nat)
    }

    fn from_memcache_value(value: Vec<u8>, flags: u32) -> (r: Result<u8, MemcacheError>) {
        match read_text(value) {
            Err(e) => Err(e),
            Ok(read) => match decimal::read_unsigned(read.as_str().as_bytes(), u8::MAX as u128) {
                Ok(n) => Ok(n as u8),
                Err(kind) => Err(MemcacheError::ParseError(ParseError::Int(kind))),
            },
        }
    }
}

impl FromMemcacheValue for u16 {
    open spec fn value_fault(bytes: Seq<u8>, flags: u32) -> Option<MemcacheErrorView> {
        match text_fault(bytes) {
            Some(e) => Some(e),
            None => match decimal::parse_unsigned(bytes, u16::MAX as nat) {
                Ok(_) => None,
                Err(kind) => Some(MemcacheErrorView::ParseError(ParseErrorView::Int(kind))),
            },
        }
    }

    open spec fn stands_for(bytes: Seq<u8>, flags: u32, value: u16) -> bool {
        decimal::parse_unsigned(bytes, u16::MAX as nat) == Ok::<nat, decimal::IntErrorKind>(value as nat)
    }

    fn from_memcache_value(value: Vec<u8>, flags: u32) -> (r: Result<u16, MemcacheError>) {
        match read_text(value) {
            Err(e) => Err(e),
            Ok(read) => match decimal::read_unsigned(read.as_str().as_bytes(), u16::MAX as u128) {
                Ok(n) => Ok(n as u16),
                Err(kind) => Err(MemcacheError::ParseError(ParseError::Int(kind))),
            },
        }
    }
}

impl FromMemcacheValue for u32 {
    open spec fn value_fault(bytes: Seq<u8>, flags: u32) -> Option<MemcacheErrorView> {
        match text_fault(bytes) {
            Some(e) => Some(e),
            None => match decimal::parse_unsigned(bytes, u32::MAX as nat) {
                Ok(_) => None,
                Err(kind) => Some(MemcacheErrorView::ParseError(ParseErrorView::Int(kind))),
            },
        }
    }

    open spec fn stands_for(bytes: Seq<u8>, flags: u32, value: u32) -> bool {
        decimal::parse_unsigned(bytes, u32::MAX as nat) == Ok::<nat, decimal::IntErrorKind>(value as nat)
    }

    fn from_memcache_value(value: Vec<u8>, flags: u32) -> (r: Result<u32, MemcacheError>) {
        match read_text(value) {
            Err(e) => Err(e),
            Ok(read) => match decimal::read_unsigned(read.as_str().as_bytes(), u32::MAX as u128) {
                Ok(n) => Ok(n as u32),
                Err(kind) => Err(MemcacheError::ParseError(ParseError::Int(kind))),
            },
        }
    }
}

impl FromMemcacheValue for u64 {
    open spec fn value_fault(bytes: Seq<u8>, flags: u32) -> Option<MemcacheErrorView> {
        match text_fault(bytes) {
            Some(e) => Some(e),
            None => match decimal::parse_unsigned(bytes, u64::MAX as nat) {
                Ok(_) => None,
                Err(kind) => Some(MemcacheErrorView::ParseError(ParseErrorView::Int(kind))),
            },
        }
    }

    open spec fn stands_for(bytes: Seq<u8>, flags: u32, value: u64) -> bool {
        decimal::parse_unsigned(bytes, u64::MAX as nat) == Ok::<nat, decimal::IntErrorKind>(value as nat)
    }

    fn from_memcache_value(value: Vec<u8>, flags: u32) -> (r: Result<u64, MemcacheError>) {
        match read_text(value) {
            Err(e) => Err(e),
            Ok(read) => match decimal::read_unsigned(read.as_str().as_bytes(), u64::MAX as u128) {
                Ok(n) => Ok(n as u64),
                Err(kind) => Err(MemcacheError::ParseError(ParseError::Int(kind))),
            },
        }
    }
}

impl FromMemcacheValue for i8 {
    open spec fn value_fault(bytes: Seq<u8>, flags: u32) -> Option<MemcacheErrorView> {
        match text_fault(bytes) {
            Some(e) => Some(e),
            None => match decimal::parse_signed(bytes, i8::MIN as int, i8::MAX as int) {
                Ok(_) => None,
                Err(kind) => Some(MemcacheErrorView::ParseError(ParseErrorView::Int(kind))),
            },
        }
    }

    open spec fn stands_for(bytes: Seq<u8>, flags: u32, value: i8) -> bool {
        decimal::parse_signed(bytes, i8::MIN as int, i8::MAX as int) == Ok::<int, decimal::IntErrorKind>(value as int)
    }

    fn from_memcache_value(value: Vec<u8>, flags: u32) -> (r: Result<i8, MemcacheError>) {
        match read_text(value) {
            Err(e) => Err(e),
            Ok(read) => match decimal::read_signed(read.as_str().as_bytes(), i8::MIN as i128, i8::MAX as i128) {
                Ok(n) => Ok(n as i8),
                Err(kind) => Err(MemcacheError::ParseError(ParseError::Int(kind))),
            },
        }
    }
}

impl FromMemcacheValue for i16 {
    open spec fn value_fault(bytes: Seq<u8>, flags: u32) -> Option<MemcacheErrorView> {
        match text_fault(bytes) {
            Some(e) => Some(e),
            None => match decimal::parse_signed(bytes, i16::MIN as int, i16::MAX as int) {
                Ok(_) => None,
                Err(kind) => Some(MemcacheErrorView::ParseError(ParseErrorView::Int(kind))),
            },
        }
    }

    open spec fn stands_for(bytes: Seq<u8>, flags: u32, value: i16) -> bool {
        decimal::parse_signed(bytes, i16::MIN as int, i16::MAX as int) == Ok::<int, decimal::IntErrorKind>(value as int)
    }

    fn from_memcache_value(value: Vec<u8>, flags: u32) -> (r: Result<i16, MemcacheError>) {
        match read_text(value) {
            Err(e) => Err(e),
            Ok(read) => match decimal::read_signed(read.as_str().as_bytes(), i16::MIN as i128, i16::MAX as i128) {
                Ok(n) => Ok(n as i16),
                Err(kind) => Err(MemcacheError::ParseError(ParseError::Int(kind))),
            },
        }
    }
}

impl FromMemcacheValue for i32 {
    open spec fn value_fault(bytes: Seq<u8>, flags: u32) -> Option<MemcacheErrorView> {
        match text_fault(bytes) {
            Some(e) => Some(e),
            None => match decimal::parse_signed(bytes, i32::MIN as int, i32::MAX as int) {
                Ok(_) => None,
                Err(kind) => Some(MemcacheErrorView::ParseError(ParseErrorView::Int(kind))),
            },
        }
    }

    open spec fn stands_for(bytes: Seq<u8>, flags: u32, value: i32) -> bool {
        decimal::parse_signed(bytes, i32::MIN as int, i32::MAX as int) == Ok::<int, decimal::IntErrorKind>(value as int)
    }

    fn from_memcache_value(value: Vec<u8>, flags: u32) -> (r: Result<i32, MemcacheError>) {
        match read_text(value) {
            Err(e) => Err(e),
            Ok(read) => match decimal::read_signed(read.as_str().as_bytes(), i32::MIN as i128, i32::MAX as i128) {
                Ok(n) => Ok(n as i32),
                Err(kind) => Err(MemcacheError::ParseError(ParseError::Int(kind))),
            },
        }
    }
}

impl FromMemcacheValue for i64 {
    open spec fn value_fault(bytes: Seq<u8>, flags: u32) -> Option<MemcacheErrorView> {
        match text_fault(bytes) {
            Some(e) => Some(e),
            None => match decimal::parse_signed(bytes, i64::MIN as int, i64::MAX as int) {
                Ok(_) => None,
                Err(kind) => Some(MemcacheErrorView::ParseError(ParseErrorView::Int(kind))),
            },
        }
    }

    open spec fn stands_for(bytes: Seq<u8>, flags: u32, value: i64) -> bool {
        decimal::parse_signed(bytes, i64::MIN as int, i64::MAX as int) == Ok::<int, decimal::IntErrorKind>(value as int)
    }

    fn from_memcache_value(value: Vec<u8>, flags: u32) -> (r: Result<i64, MemcacheError>) {
        match read_text(value) {
            Err(e) => Err(e),
            Ok(read) => match decimal::read_signed(read.as_str().as_bytes(), i64::MIN as i128, i64::MAX as i128) {
                Ok(n) => Ok(n as i64),
                Err(kind) => Err(MemcacheError::ParseError(ParseError::Int(kind))),
            },
        }
    }
}

/// A text reads back as it was written.
pub proof fn lemma_text_roundtrip(value: String, read: String, flags: u32)
    requires
        <String as FromMemcacheValue>::stands_for(value.bytes_spec(), flags, read),
    ensures
        read@ == value@,
        <String as FromMemcacheValue>::value_fault(value.bytes_spec(), flags) is None,
{
    vstd::utf8::encode_utf8_valid_utf8(value@);
    vstd::utf8::encode_utf8_decode_utf8(value@);
    vstd::utf8::encode_utf8_decode_utf8(read@);
}

/// A truth value reads back as it was written.
pub proof fn lemma_bool_roundtrip(value: bool, read: bool, flags: u32)
    requires
        <bool as FromMemcacheValue>::stands_for(value.bytes_spec(), flags, read),
    ensures
        read == value,
        <bool as FromMemcacheValue>::value_fault(value.bytes_spec(), flags) is None,
{
    reveal_strlit("true");
    reveal_strlit("false");
    bytes::lemma_ascii_literal("true");
    bytes::lemma_ascii_literal("false");
    assert(bool_bytes(true).len() == 4);
    assert(bool_bytes(false).len() == 5);
    bytes::lemma_ascii_valid(bool_bytes(true));
    bytes::lemma_ascii_valid(bool_bytes(false));
}

/// A number reads back as it was written.
pub proof fn lemma_u8_roundtrip(value: u8, read: u8, flags: u32)
    requires
        <u8 as FromMemcacheValue>::stands_for(value.bytes_spec(), flags, read),
    ensures
        read == value,
        <u8 as FromMemcacheValue>::value_fault(value.bytes_spec(), flags) is None,
{
    decimal::lemma_unsigned_roundtrip(value as nat, u8::MAX as nat);
    decimal::lemma_signed_ascii(value as int);
    bytes::lemma_ascii_valid(value.bytes_spec());
}

/// A number reads back as it was written.
pub proof fn lemma_u16_roundtrip(value: u16, read: u16, flags: u32)
    requires
        <u16 as FromMemcacheValue>::stands_for(value.bytes_spec(), flags, read),
    ensures
        read == value,
        <u16 as FromMemcacheValue>::value_fault(value.bytes_spec(), flags) is None,
{
    decimal::lemma_unsigned_roundtrip(value as nat, u16::MAX as nat);
    decimal::lemma_signed_ascii(value as int);
    bytes::lemma_ascii_valid(value.bytes_spec());
}

/// A number reads back as it was written.
pub proof fn lemma_u32_roundtrip(value: u32, read: u32, flags: u32)
    requires
        <u32 as FromMemcacheValue>::stands_for(value.bytes_spec(), flags, read),
    ensures
        read == value,
        <u32 as FromMemcacheValue>::value_fault(value.bytes_spec(), flags) is None,
{
    decimal::lemma_unsigned_roundtrip(value as nat, u32::MAX as nat);
    decimal::lemma_signed_ascii(value as int);
    bytes::lemma_ascii_valid(value.bytes_spec());
}

/// A number reads back as it was written.
pub proof fn lemma_u64_roundtrip(value: u64, read: u64, flags: u32)
    requires
        <u64 as FromMemcacheValue>::stands_for(value.bytes_spec(), flags, read),
    ensures
        read == value,
        <u64 as FromMemcacheValue>::value_fault(value.bytes_spec(), flags) is None,
{
    decimal::lemma_unsigned_roundtrip(value as nat, u64::MAX as nat);
    decimal::lemma_signed_ascii(value as int);
    bytes::lemma_ascii_valid(value.bytes_spec());
}

/// A number reads back as it was written.
pub proof fn lemma_i8_roundtrip(value: i8, read: i8, flags: u32)
    requires
        <i8 as FromMemcacheValue>::stands_for(value.bytes_spec(), flags, read),
    ensures
        read == value,
        <i8 as FromMemcacheValue>::value_fault(value.bytes_spec(), flags) is None,
{
    decimal::lemma_signed_roundtrip(value as int, i8::MIN as int, i8::MAX as int);
    decimal::lemma_signed_ascii(value as int);
    bytes::lemma_ascii_valid(value.bytes_spec());
}

/// A number reads back as it was written.
pub proof fn lemma_i16_roundtrip(value: i16, read: i16, flags: u32)
    requires
        <i16 as FromMemcacheValue>::stands_for(value.bytes_spec(), flags, read),
    ensures
        read == value,
        <i16 as FromMemcacheValue>::value_fault(value.bytes_spec(), flags) is None,
{
    decimal::lemma_signed_roundtrip(value as int, i16::MIN as int, i16::MAX as int);
    decimal::lemma_signed_ascii(value as int);
    bytes::lemma_ascii_valid(value.bytes_spec());
}

/// A number reads back as it was written.
pub proof fn lemma_i32_roundtrip(value: i32, read: i32, flags: u32)
    requires
        <i32 as FromMemcacheValue>::stands_for(value.bytes_spec(), flags, read),
    ensures
        read == value,
        <i32 as FromMemcacheValue>::value_fault(value.bytes_spec(), flags) is None,
{
    decimal::lemma_signed_roundtrip(value as int, i32::MIN as int, i32::MAX as int);
    decimal::lemma_signed_ascii(value as int);
    bytes::lemma_ascii_valid(value.bytes_spec());
}

/// A number reads back as it was written.
pub proof fn lemma_i64_roundtrip(value: i64, read: i64, flags: u32)
    requires
        <i64 as FromMemcacheValue>::stands_for(value.bytes_spec(), flags, read),
    ensures
        read == value,
        <i64 as FromMemcacheValue>::value_fault(value.bytes_spec(), flags) is None,
{
    decimal::lemma_signed_roundtrip(value as int, i64::MIN as int, i64::MAX as int);
    decimal::lemma_signed_ascii(value as int);
    bytes::lemma_ascii_valid(value.bytes_spec());
}

} // verus!
