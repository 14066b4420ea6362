//! Responses that come in datagrams.

use memcache::io::{IoError, IoErrorKind};
use memcache::stream::udp_stream::{bind_address, UdpStream};

fn datagram(request_id: u16, sequence_no: u16, total: u16, payload: &[u8]) -> Vec<u8> {
    let mut wire = Vec::new();
    wire.extend_from_slice(&request_id.to_be_bytes());
    wire.extend_from_slice(&sequence_no.to_be_bytes());
    wire.extend_from_slice(&total.to_be_bytes());
    wire.extend_from_slice(&[0, 0]);
    wire.extend_from_slice(payload);
    wire
}

fn flush(datagrams: Vec<(u16, u16, &'static [u8])>) -> Result<Vec<u8>, IoError> {
    let mut stream = UdpStream::with_request_id(7);
    stream.write(b"version\r\n");
    let request = stream.start_flush();
    assert_eq!(request, datagram(7, 0, 1, b"version\r\n"));
    stream.sent();
    for (sequence_no, total, payload) in datagrams {
        if stream.receive(&datagram(7, sequence_no, total, payload))? {
            break;
        }
    }
    Ok(stream.read(usize::MAX))
}

#[test]
fn flush_reassembles_datagrams_in_sequence_order() {
    assert_eq!(flush(vec![(1, 2, b"world"), (0, 2, b"hello ")]).unwrap(), b"hello world");
}

#[test]
fn flush_rejects_invalid_datagram_headers() {
    assert!(flush(vec![(0, 0, b"x")]).is_err());
    assert!(flush(vec![(2, 2, b"x"), (1, 2, b"x")]).is_err());
    assert!(flush(vec![(0, 2, b"x"), (1, 3, b"x")]).is_err());
}

#[test]
fn datagrams_of_other_requests_are_passed_over() {
    let mut stream = UdpStream::with_request_id(65535);
    stream.start_flush();
    stream.sent();
    assert!(!stream.receive(&datagram(1, 0, 1, b"late")).unwrap());
    assert!(stream.receive(&datagram(65535, 0, 1, b"answer")).unwrap());
    assert_eq!(stream.request_id, 1);
    assert_eq!(stream.read(3), b"ans".to_vec());
    assert_eq!(stream.read(100), b"wer".to_vec());
    assert_eq!(stream.read(100), Vec::<u8>::new());
}

#[test]
fn a_datagram_without_a_header_is_an_error() {
    let mut stream = UdpStream::new();
    stream.start_flush();
    stream.sent();
    let error = stream.receive(b"short").unwrap_err();
    assert_eq!(error.kind, IoErrorKind::Other);
    assert_eq!(error.message, "Invalid UDP header received");
    let id = stream.request_id;
    let error = stream.receive(&datagram(id, 0, 0, b"")).unwrap_err();
    assert_eq!(error.kind, IoErrorKind::InvalidData);
}

#[test]
fn a_datagram_that_comes_twice_counts_once() {
    let mut stream = UdpStream::with_request_id(7);
    stream.start_flush();
    stream.sent();
    assert!(!stream.receive(&datagram(7, 0, 2, b"a")).unwrap());
    assert!(!stream.receive(&datagram(7, 0, 2, b"a")).unwrap());
    assert!(stream.receive(&datagram(7, 1, 2, b"b")).unwrap());
    assert_eq!(stream.read(9), b"ab".to_vec());
}

#[test]
fn sockets_are_bound_near_the_server() {
    assert_eq!(bind_address(Some("10.0.0.1"), false), "10.0.0.1:0");
    assert_eq!(bind_address(None, true), "127.0.0.1:0");
    assert_eq!(bind_address(None, false), "0.0.0.0:0");
}

#[test]
fn a_request_that_was_not_sent_is_kept_with_its_header() {
    let mut stream = UdpStream::with_request_id(7);
    stream.start_flush();
    stream.sent();
    assert!(stream.receive(&datagram(7, 0, 1, b"answer")).unwrap());
    stream.write(b"version\r\n");
    let first = stream.start_flush();
    assert_eq!(first, datagram(8, 0, 1, b"version\r\n"));
    assert_eq!(stream.write_buf, first);
    assert_eq!(stream.read(100), b"answer".to_vec());
    let second = stream.start_flush();
    assert_eq!(second, datagram(8, 0, 1, &first));
    stream.sent();
    assert!(stream.write_buf.is_empty());
}
