//! Responses that arrive in pieces.

use memcache::protocol::arrival::is_incomplete;
use memcache::protocol::Protocol;
use memcache::reader::Reader;
use memcache::MemcacheError;

/// What each prefix of a response gives, and what all of it gives with more
/// behind it.
fn check<T: PartialEq + std::fmt::Debug>(
    response: &[u8],
    expected: T,
    parse: impl Fn(&mut Reader) -> Result<T, MemcacheError>,
) {
    for length in 0..response.len() {
        let mut reader = Reader::new(response[..length].to_vec());
        let error = parse(&mut reader).unwrap_err();
        assert!(is_incomplete(&error), "{length}: {error:?}");
    }
    let mut whole = response.to_vec();
    whole.extend_from_slice(b"next");
    let mut reader = Reader::new(whole);
    assert_eq!(parse(&mut reader).unwrap(), expected);
    assert_eq!(reader.position, response.len());
}

#[test]
fn text_responses_do_not_depend_on_arrival() {
    let text = Protocol::Ascii;
    check(b"VERSION 1.6.22\r\n", "1.6.22".to_string(), |reader| text.parse_version(reader));
    check(b"STORED\r\n", (), |reader| text.parse_store(reader));
    check(b"NOT_FOUND\r\n", false, |reader| text.parse_delete(reader));
    check(b"EXISTS\r\n", false, |reader| text.parse_cas(reader));
    check(b"TOUCHED\r\n", true, |reader| text.parse_touch(reader));
    check(b"42\r\n", 42, |reader| text.parse_counter(reader));
    check(b"VALUE k 0 4 7\r\n\r\n\r\n\r\nEND\r\n", Some("\r\n\r\n".to_string()), |reader| {
        text.parse_get::<String>(reader, "k")
    });
    check(b"VALUE a 0 1 7\r\n1\r\nVALUE b 0 1 8\r\n2\r\nEND\r\n", vec![("a".to_string(), 1u8), ("b".to_string(), 2)], |reader| {
        text.parse_gets::<u8>(reader, 2)
    });
}

fn packet(opcode: u8, status: u16, extras: &[u8], key: &[u8], value: &[u8]) -> Vec<u8> {
    let total = (extras.len() + key.len() + value.len()) as u32;
    let mut wire = vec![0x81, opcode];
    wire.extend_from_slice(&(key.len() as u16).to_be_bytes());
    wire.extend_from_slice(&[extras.len() as u8, 0]);
    wire.extend_from_slice(&status.to_be_bytes());
    wire.extend_from_slice(&total.to_be_bytes());
    wire.extend_from_slice(&[0; 4]);
    wire.extend_from_slice(&7u64.to_be_bytes());
    wire.extend_from_slice(extras);
    wire.extend_from_slice(key);
    wire.extend_from_slice(value);
    wire
}

#[test]
fn packets_do_not_depend_on_arrival() {
    let binary = Protocol::Binary;
    check(&packet(0x0b, 0, b"", b"", b"1.6.22"), "1.6.22".to_string(), |reader| binary.parse_version(reader));
    check(&packet(0x04, 1, b"", b"", b"Not found"), false, |reader| binary.parse_delete(reader));
    check(&packet(0x00, 0, &[0; 4], b"", b"bar"), Some(("bar".to_string(), 0, Some(7))), |reader| {
        binary.parse_get::<(String, u32, Option<u64>)>(reader, "foo")
    });
    let mut items = packet(0x0d, 0, &[0; 4], b"a", b"1");
    items.extend_from_slice(&packet(0x0a, 0, b"", b"", b""));
    check(&items, vec![("a".to_string(), 1u8)], |reader| binary.parse_gets::<u8>(reader, 1));
    let mut stats = packet(0x10, 0, b"", b"pid", b"42");
    stats.extend_from_slice(&packet(0x10, 0, b"", b"", b""));
    check(&stats, vec![("pid".to_string(), "42".to_string())], |reader| binary.parse_stats(reader));
}

#[test]
fn a_broken_response_is_not_waited_for() {
    let mut reader = Reader::new(b"BOGUS\r\n".to_vec());
    assert!(!is_incomplete(&Protocol::Ascii.parse_store(&mut reader).unwrap_err()));
    let mut reader = Reader::new(vec![b'x'; 2048]);
    assert!(!is_incomplete(&Protocol::Ascii.parse_store(&mut reader).unwrap_err()));
    let mut reader = Reader::new(vec![0x42]);
    assert!(!is_incomplete(&Protocol::Binary.parse_store(&mut reader).unwrap_err()));
}
