//! Typed values of the classic client.

use memcache::error::{MemcacheError, ParseError};
use memcache::io::{IoError, IoErrorKind};
use memcache::protocol::ascii::{self, Options, StoreCommand};
use memcache::protocol::{Protocol, StoreVerb};
use memcache::reader::Reader;
use memcache::{FromMemcacheValue, FromMemcacheValueExt, ToMemcacheValue};

fn stored<V: ToMemcacheValue>(value: V) -> (Vec<u8>, u32, usize) {
    let mut bytes = Vec::new();
    value.write_to(&mut bytes).unwrap();
    (bytes, value.get_flags(), value.get_length())
}

#[test]
fn string() {
    assert_eq!(stored("foo"), (b"foo".to_vec(), 0, 3));
    assert_eq!(stored(&"foo".to_string()), (b"foo".to_vec(), 0, 3));
    let read: String = FromMemcacheValue::from_memcache_value(b"foo".to_vec(), 0).unwrap();
    assert_eq!(read, "foo");
    let broken: Result<String, MemcacheError> = FromMemcacheValue::from_memcache_value(vec![0xff], 0);
    assert!(matches!(broken, Err(MemcacheError::ParseError(ParseError::String(_)))));
}

#[test]
fn bytes() {
    assert_eq!(stored(&b"foo"[..]), (b"foo".to_vec(), 0, 3));
    let read: Vec<u8> = FromMemcacheValue::from_memcache_value(vec![0, 255], 0).unwrap();
    assert_eq!(read, vec![0, 255]);
}

#[test]
fn number() {
    assert_eq!(stored(1u8), (b"1".to_vec(), 0, 1));
    assert_eq!(stored(-321i64), (b"-321".to_vec(), 0, 4));
    let read: i32 = FromMemcacheValue::from_memcache_value(b"-42".to_vec(), 0).unwrap();
    assert_eq!(read, -42);
    let broken: Result<u8, MemcacheError> = FromMemcacheValue::from_memcache_value(b"256".to_vec(), 0);
    assert!(matches!(broken, Err(MemcacheError::ParseError(ParseError::Int(_)))));
}

#[test]
fn bool() {
    assert_eq!(stored(true), (b"true".to_vec(), 0, 4));
    assert_eq!(stored(false), (b"false".to_vec(), 0, 5));
    let read: bool = FromMemcacheValue::from_memcache_value(b"true".to_vec(), 0).unwrap();
    assert!(read);
    let broken: Result<bool, MemcacheError> = FromMemcacheValue::from_memcache_value(b"yes".to_vec(), 0);
    assert!(matches!(broken, Err(MemcacheError::ParseError(ParseError::Bool))));
}

#[test]
fn values_come_with_flags_and_cas() {
    let read: (String, u32) = FromMemcacheValue::from_memcache_value(b"foo".to_vec(), 9).unwrap();
    assert_eq!(read, ("foo".to_string(), 9));
    let read: (Vec<u8>, u32, Option<u64>) =
        FromMemcacheValueExt::from_memcache_value(b"foo".to_vec(), 9, Some(7)).unwrap();
    assert_eq!(read, (b"foo".to_vec(), 9, Some(7)));
}

#[derive(Debug, PartialEq)]
struct Point(u8, u8);

impl ToMemcacheValue for Point {
    fn get_flags(&self) -> u32 {
        5
    }

    fn get_length(&self) -> usize {
        2
    }

    fn write_to(&self, stream: &mut Vec<u8>) -> Result<(), IoError> {
        if self.0 == 0 {
            return Err(IoError::new(IoErrorKind::InvalidInput, "no such point"));
        }
        stream.extend_from_slice(&[self.0, self.1]);
        Ok(())
    }
}

impl FromMemcacheValue for Point {
    fn from_memcache_value(value: Vec<u8>, _: u32) -> Result<Point, MemcacheError> {
        Ok(Point(value[0], value[1]))
    }
}

#[test]
fn own_types_are_values_too() {
    assert_eq!(
        Protocol::Ascii.store_request(StoreVerb::Store, "k", &Point(65, 66), 9).unwrap(),
        b"set k 5 9 2\r\nAB\r\n"
    );
    let mut reader = Reader::new(b"VALUE k 5 2 1\r\nAB\r\nEND\r\n".to_vec());
    assert_eq!(Protocol::Ascii.parse_get::<Point>(&mut reader, "k").unwrap(), Some(Point(65, 66)));
}

#[test]
fn a_value_that_cannot_be_written_is_an_error() {
    for protocol in [Protocol::Ascii, Protocol::Binary] {
        let requests = [
            protocol.store_request(StoreVerb::Store, "k", &Point(0, 66), 9),
            protocol.cas_request("k", &Point(0, 66), 9, 7),
            protocol.append_request("k", &Point(0, 66)),
            protocol.prepend_request("k", &Point(0, 66)),
        ];
        for request in requests {
            let Err(MemcacheError::IOError(error)) = request else { panic!("{request:?}") };
            assert_eq!((error.kind, error.message.as_str()), (IoErrorKind::InvalidInput, "no such point"));
        }
    }
    // The first store that is refused says why.
    let long = "k".repeat(300);
    let entries = vec![("a".to_string(), Point(65, 66)), ("b".to_string(), Point(0, 1)), (long, Point(65, 66))];
    assert!(matches!(
        ascii::stores_request(StoreCommand::Store, &entries, &Options::default()),
        Err(MemcacheError::IOError(_))
    ));
}
