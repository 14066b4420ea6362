//! The binary protocol of the classic client.

use memcache::error::{ClientError, CommandError, MemcacheError, ServerError};
use memcache::packet;
use memcache::protocol::binary_packet::{
    self, CounterExtras, Magic, Opcode, PacketHeader, Response, StoreExtras,
};
use memcache::protocol::{binary, Protocol, StoreVerb};
use memcache::reader::Reader;

fn reader(bytes: &[u8]) -> Reader {
    Reader::new(bytes.to_vec())
}

fn response(opcode: Opcode, status: u16, cas: u64, extras: &[u8], key: &[u8], value: &[u8]) -> Vec<u8> {
    let mut wire = Vec::new();
    let header = PacketHeader {
        magic: Magic::Response.code(),
        opcode: opcode.code(),
        key_length: key.len() as u16,
        extras_length: extras.len() as u8,
        vbucket_id_or_status: status,
        total_body_length: (extras.len() + key.len() + value.len()) as u32,
        cas,
        ..Default::default()
    };
    header.write(&mut wire);
    wire.extend_from_slice(extras);
    wire.extend_from_slice(key);
    wire.extend_from_slice(value);
    wire
}

#[test]
fn a_header_is_24_bytes_big_endian() {
    let header = PacketHeader {
        magic: 0x81,
        opcode: 1,
        key_length: 0x0203,
        extras_length: 4,
        data_type: 5,
        vbucket_id_or_status: 0x0607,
        total_body_length: 0x08090a0b,
        opaque: 0x0c0d0e0f,
        cas: 0x1011121314151617,
    };
    let mut wire = Vec::new();
    header.write(&mut wire);
    let expected: Vec<u8> =
        vec![0x81, 1, 2, 3, 4, 5, 6, 7, 8, 9, 10, 11, 12, 13, 14, 15, 16, 17, 18, 19, 20, 21, 22, 23];
    assert_eq!(wire, expected);
    assert_eq!(PacketHeader::read(&mut reader(&wire)).unwrap(), header);
    assert!(matches!(
        PacketHeader::read(&mut reader(&[0x80])),
        Err(MemcacheError::ServerError(ServerError::BadMagic(0x80)))
    ));
    assert!(matches!(PacketHeader::read(&mut reader(&wire[..23])), Err(MemcacheError::IOError(_))));
}

#[test]
fn requests_are_written_out() {
    let get = binary::get_request("foo");
    assert_eq!(get[..4], [0x80, 0x00, 0, 3]);
    assert_eq!(get[8..12], [0, 0, 0, 3]);
    assert_eq!(&get[24..], b"foo");

    let store = binary::store_request(Opcode::Store, "foo", &"bar", 60, Some(7)).unwrap();
    assert_eq!(store[..5], [0x80, 0x01, 0, 3, 8]);
    assert_eq!(store[8..12], [0, 0, 0, 14]);
    assert_eq!(store[16..24], [0, 0, 0, 0, 0, 0, 0, 7]);
    assert_eq!(&store[24..], b"\0\0\0\0\0\0\0\x3cfoobar");

    let count = binary::increment_request("n", 258);
    assert_eq!(count[..5], [0x80, 0x05, 0, 1, 20]);
    assert_eq!(&count[24..], b"\0\0\0\0\0\0\x01\x02\0\0\0\0\0\0\0\0\0\0\0\0n");

    let touch = binary::touch_request("n", 60);
    assert_eq!(touch[..5], [0x80, 0x1c, 0, 1, 4]);
    assert_eq!(&touch[24..], b"\0\0\0\x3cn");

    let flush = binary::flush_with_delay_request(1);
    assert_eq!(flush[..5], [0x80, 0x08, 0, 0, 4]);
    assert_eq!(flush[24..], [0, 0, 0, 1]);

    let keys = vec!["a".to_string(), "bc".to_string()];
    let gets = binary::gets_request(&keys);
    assert_eq!(gets.len(), 25 + 26 + 24);
    assert_eq!(gets[1], 0x0d);
    assert_eq!(gets[26], 0x0d);
    assert_eq!(gets[52], 0x0a);

    let auth = binary::auth_request("ann", "secret");
    assert_eq!(auth[..4], [0x80, 0x21, 0, 5]);
    assert_eq!(&auth[24..], b"PLAIN\0ann\0secret");

    assert_eq!(binary::version_request()[1], 0x0b);
    assert_eq!(binary::stats_request()[1], 0x10);
    assert_eq!(binary::delete_request("k")[1], 0x04);
    assert_eq!(&binary::append_request("k", &"v").unwrap()[24..], b"kv");
}

#[test]
fn extras_are_written_out() {
    let mut wire = Vec::new();
    StoreExtras { flags: 1, expiration: 2 }.write(&mut wire);
    CounterExtras { amount: 3, initial_value: 4, expiration: 5 }.write(&mut wire);
    assert_eq!(
        wire,
        vec![0, 0, 0, 1, 0, 0, 0, 2, 0, 0, 0, 0, 0, 0, 0, 3, 0, 0, 0, 0, 0, 0, 0, 4, 0, 0, 0, 5]
    );
}

#[test]
fn an_item_is_read_back() {
    let wire = response(Opcode::Get, 0, 42, &[0, 0, 0, 16], b"", b"bar");
    let value: Option<(Vec<u8>, u32, Option<u64>)> =
        binary_packet::parse_get_response(&mut reader(&wire)).unwrap();
    assert_eq!(value, Some((b"bar".to_vec(), 16, Some(42))));

    let wire = response(Opcode::Get, 1, 0, b"", b"", b"Not found");
    assert_eq!(binary_packet::parse_get_response::<String>(&mut reader(&wire)).unwrap(), None);

    let wire = response(Opcode::Get, 0x82, 0, b"", b"", b"");
    assert!(matches!(
        binary_packet::parse_get_response::<String>(&mut reader(&wire)),
        Err(MemcacheError::CommandError(CommandError::Unknown(0x82)))
    ));
}

#[test]
fn statuses_are_told_apart() {
    let status = |status: u16| {
        let wire = response(Opcode::Store, status, 0, b"", b"", b"");
        binary_packet::parse_status_response(&mut reader(&wire))
    };
    assert!(status(0).is_ok());
    assert!(matches!(status(2), Err(MemcacheError::CommandError(CommandError::KeyExists))));
    assert!(matches!(status(3), Err(MemcacheError::CommandError(CommandError::ValueTooLarge))));
    assert!(matches!(status(4), Err(MemcacheError::CommandError(CommandError::InvalidArguments))));
    assert!(matches!(status(0x20), Err(MemcacheError::CommandError(CommandError::AuthenticationRequired))));
    assert!(matches!(status(0x7777), Err(MemcacheError::CommandError(CommandError::Unknown(0x7777)))));
    let found = |status: u16| {
        let wire = response(Opcode::Delete, status, 0, b"", b"", b"");
        binary_packet::parse_delete_response(&mut reader(&wire))
    };
    assert!(found(0).unwrap());
    assert!(!found(1).unwrap());
    let swapped = |status: u16| {
        let wire = response(Opcode::Store, status, 0, b"", b"", b"");
        binary_packet::parse_cas_response(&mut reader(&wire))
    };
    assert!(swapped(0).unwrap());
    assert!(!swapped(1).unwrap());
    assert!(!swapped(2).unwrap());
    assert!(swapped(4).is_err());
}

#[test]
fn multi_gets_end_with_the_no_op() {
    let mut wire = response(Opcode::GetKQ, 0, 1, &[0, 0, 0, 0], b"a", b"x");
    wire.extend(response(Opcode::GetKQ, 0, 2, &[0, 0, 0, 0], b"c", b"y"));
    wire.extend(response(Opcode::Noop, 0, 0, b"", b"", b""));
    let items: Vec<(String, String)> = binary_packet::parse_gets_response(&mut reader(&wire), 3).unwrap();
    assert_eq!(items, vec![("a".to_string(), "x".to_string()), ("c".to_string(), "y".to_string())]);
}

#[test]
fn counters_versions_and_statistics() {
    let wire = response(Opcode::Increment, 0, 0, b"", b"", &[0, 0, 0, 0, 0, 0, 1, 188]);
    assert_eq!(binary_packet::parse_counter_response(&mut reader(&wire)).unwrap(), 444);
    let wire = response(Opcode::Version, 0, 0, b"", b"", b"1.6.21");
    assert_eq!(binary_packet::parse_version_response(&mut reader(&wire)).unwrap(), "1.6.21");
    let mut wire = response(Opcode::Stat, 0, 0, b"", b"pid", b"42");
    wire.extend(response(Opcode::Stat, 0, 0, b"", b"", b""));
    assert_eq!(
        binary_packet::parse_stats_response(&mut reader(&wire)).unwrap(),
        vec![("pid".to_string(), "42".to_string())]
    );
}

#[test]
fn a_response_shorter_than_its_parts_is_refused() {
    let mut wire = response(Opcode::Get, 0, 0, &[0, 0, 0, 0], b"k", b"");
    wire[11] = 2;
    assert!(matches!(
        binary_packet::parse_response(&mut reader(&wire)),
        Err(MemcacheError::ServerError(ServerError::BadResponse(_)))
    ));
    let given: Response =
        binary_packet::parse_response(&mut reader(&response(Opcode::Get, 1, 0, b"", b"k", b"v"))).unwrap();
    assert_eq!((given.key.as_slice(), given.value.as_slice()), (&b"k"[..], &b"v"[..]));
    assert!(given.err().is_err());
}

#[test]
fn the_protocol_speaks_packets() {
    let packets = Protocol::Binary;
    assert_eq!(packets.store_request(StoreVerb::Replace, "foo", &"bar", 0).unwrap()[1], 0x03);
    assert_eq!(packets.prepend_request("foo", &"bar").unwrap()[1], 0x0f);
    assert!(packets.delete_request(&"x".repeat(251)).is_err());
    let missing = response(Opcode::Prepend, 5, 0, b"", b"", b"");
    assert!(packets.parse_prepend(&mut reader(&missing)).is_ok());
    assert!(packets.parse_store(&mut reader(&missing)).is_err());
}

#[test]
fn plain_packets_are_read() {
    let ok = response(Opcode::Flush, 0, 0, b"", b"", b"");
    assert!(packet::parse_header_only_response(&mut reader(&ok)).is_ok());
    assert!(matches!(
        packet::parse_header_only_response(&mut reader(&[0u8; 24])),
        Err(MemcacheError::ClientError(ClientError::Error(message)))
            if message == "Bad magic number in response header"
    ));
    let version = response(Opcode::Version, 0, 0, b"", b"", b"1.4");
    assert_eq!(packet::parse_version_response(&mut reader(&version)).unwrap(), "1.4");
    let item = response(Opcode::Get, 0, 0, &[0, 0, 0, 9], b"", b"bar");
    assert_eq!(
        packet::parse_get_response::<(Vec<u8>, u32)>(&mut reader(&item)).unwrap(),
        Some((b"bar".to_vec(), 9))
    );
    let missing = response(Opcode::Get, 1, 0, b"", b"", b"");
    assert_eq!(packet::parse_get_response::<String>(&mut reader(&missing)).unwrap(), None);
    assert!(!packet::parse_delete_response(&mut reader(&missing)).unwrap());
    assert!(packet::parse_delete_response(&mut reader(&ok)).unwrap());
    assert_eq!(packet::Opcode::Repalce.code(), 3);
    assert_eq!(packet::ResponseStatus::InvalidArguments.code(), 4);
}
