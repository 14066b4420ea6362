//! The text protocol of the classic client.

use memcache::error::{ClientError, CommandError, MemcacheError, ParseError, ServerError};
use memcache::protocol::ascii::{self, Options, StoreCommand};
use memcache::protocol::{Protocol, StoreVerb};
use memcache::reader::Reader;

fn reader(bytes: &[u8]) -> Reader {
    Reader::new(bytes.to_vec())
}

fn left(reader: &Reader) -> &[u8] {
    &reader.received[reader.position..]
}

#[test]
fn store_requests_are_written_out() {
    let entries = vec![("foo".to_string(), "bar"), ("k".to_string(), "12345")];
    let wire = ascii::stores_request(StoreCommand::Store, &entries, &Options { exptime: 10, ..Default::default() });
    assert_eq!(wire.unwrap(), b"set foo 0 10 3\r\nbar\r\nset k 0 10 5\r\n12345\r\n".to_vec());

    let options = Options { cas: Some(7), noreply: true, ..Default::default() };
    let wire = ascii::store_request(StoreCommand::Cas, "foo", &"bar", &options).unwrap();
    assert_eq!(wire, b"cas foo 0 0 3 7 noreply\r\nbar\r\n".to_vec());

    assert!(matches!(
        ascii::store_request(StoreCommand::Cas, "foo", &"bar", &Options::default()),
        Err(MemcacheError::ClientError(ClientError::Error(message)))
            if message == "cas_id should be present when using cas command"
    ));
    let long = "x".repeat(251);
    assert!(matches!(
        ascii::store_request(StoreCommand::Add, &long, &"bar", &Options::default()),
        Err(MemcacheError::ClientError(ClientError::KeyTooLong))
    ));
    let entries = vec![("foo".to_string(), "bar"), (long, "baz")];
    assert!(ascii::stores_request(StoreCommand::Store, &entries, &Options::default()).is_err());
}

#[test]
fn every_command_has_its_word() {
    let word = |command: StoreCommand| command.code().to_string();
    assert_eq!(word(StoreCommand::Store), "set");
    assert_eq!(word(StoreCommand::Add), "add");
    assert_eq!(word(StoreCommand::Replace), "replace");
    assert_eq!(word(StoreCommand::Append), "append");
    assert_eq!(word(StoreCommand::Prepend), "prepend");
    assert_eq!(word(StoreCommand::Cas), "cas");
}

#[test]
fn store_answers_are_read() {
    let answer = |bytes: &[u8]| ascii::parse_store_response(&mut reader(bytes));
    assert!(answer(b"STORED\r\n").unwrap());
    assert!(!answer(b"NOT_STORED\r\n").unwrap());
    assert!(matches!(answer(b"EXISTS\r\n"), Err(MemcacheError::CommandError(CommandError::KeyExists))));
    assert!(matches!(answer(b"NOT_FOUND\r\n"), Err(MemcacheError::CommandError(CommandError::KeyNotFound))));
    assert!(matches!(
        answer(b"WHAT\r\n"),
        Err(MemcacheError::ServerError(ServerError::BadResponse(line))) if line == "WHAT\r\n"
    ));
    assert!(matches!(
        answer(b"CLIENT_ERROR bad data chunk\r\n"),
        Err(MemcacheError::ClientError(ClientError::Error(_)))
    ));
    assert!(matches!(
        answer(b"SERVER_ERROR out of memory\r\n"),
        Err(MemcacheError::ServerError(ServerError::Error(_)))
    ));
    assert!(matches!(answer(b"ERROR\r\n"), Err(MemcacheError::CommandError(CommandError::Error(_)))));
}

#[test]
fn all_store_answers_are_read_and_the_first_error_wins() {
    let mut all = reader(b"STORED\r\nNOT_STORED\r\nSTORED\r\nrest");
    assert!(!ascii::parse_stores_response(&mut all, 3).unwrap());
    assert_eq!(left(&all), b"rest");

    let mut all = reader(b"STORED\r\nEXISTS\r\nNOT_FOUND\r\nrest");
    assert!(matches!(
        ascii::parse_stores_response(&mut all, 3),
        Err(MemcacheError::CommandError(CommandError::KeyExists))
    ));
    assert_eq!(left(&all), b"rest");
}

#[test]
fn lines_are_bounded_and_have_to_be_text() {
    let mut short = reader(b"STORED");
    assert!(matches!(
        ascii::read_line(&mut short),
        Err(MemcacheError::ClientError(ClientError::Error(message))) if message == "Ascii protocol no line found"
    ));
    let mut long = reader(&vec![b'x'; 2048]);
    assert!(matches!(
        ascii::read_line(&mut long),
        Err(MemcacheError::ClientError(ClientError::Error(message))) if message == "Ascii protocol response too long"
    ));
    let mut broken = reader(b"\xff\r\nrest");
    assert!(matches!(
        ascii::read_line(&mut broken),
        Err(MemcacheError::ParseError(ParseError::String(_)))
    ));
    assert_eq!(left(&broken), b"\xff\r\nrest");
    let mut line = reader(b"a\rb\nc\r\nrest");
    assert_eq!(ascii::read_line(&mut line).unwrap(), "a\rb\nc\r\n");
    assert_eq!(left(&line), b"rest");
}

#[test]
fn test_get_with_flags() {
    let mut all = reader(b"VALUE flags_test 7 9 3\r\n{\"a\": 1}9\r\nEND\r\n");
    let result: Option<(Vec<u8>, u32)> = ascii::parse_get_response(&mut all, "flags_test").unwrap();
    assert_eq!(result, Some((b"{\"a\": 1}9".to_vec(), 7)));
}

#[test]
fn test_get_with_cas() {
    assert_eq!(ascii::get_request("ascii_foo"), b"gets ascii_foo\r\n".to_vec());
    let mut all = reader(b"VALUE ascii_foo 0 3 42\r\nbar\r\nEND\r\n");
    let result: Option<(Vec<u8>, u32, Option<u64>)> = ascii::parse_get_response(&mut all, "ascii_foo").unwrap();
    assert_eq!(result, Some((b"bar".to_vec(), 0, Some(42))));
}

#[test]
fn get_answers_are_read() {
    let get = |bytes: &[u8]| ascii::parse_get_response::<String>(&mut reader(bytes), "foo");
    assert_eq!(get(b"END\r\n").unwrap(), None);
    assert_eq!(get(b"VALUE foo 0 3 1\r\nb\r\n\r\nEND\r\n").unwrap(), Some("b\r\n".to_string()));
    assert!(matches!(
        get(b"VALUE bar 0 3 1\r\nbar\r\nEND\r\n"),
        Err(MemcacheError::ServerError(ServerError::BadResponse(message)))
            if message == "key doesn't match in the response"
    ));
    assert!(matches!(
        get(b"VALUE foo 0 3 1\r\nbar\r\nVALUE foo 0 3 1\r\nbar\r\n"),
        Err(MemcacheError::ServerError(ServerError::BadResponse(message)))
            if message == "Expected end of get response"
    ));
    assert!(matches!(
        get(b"VALUE foo 0 3 1\r\nbarxx"),
        Err(MemcacheError::ServerError(ServerError::BadResponse(message))) if message == "barxx"
    ));
    assert!(matches!(get(b"VALUE foo 0 x 1\r\n"), Err(MemcacheError::ParseError(ParseError::Int(_)))));
    assert!(matches!(
        get(b"VALUE foo 0 3\r\nbar\r\n"),
        Err(MemcacheError::ServerError(ServerError::BadResponse(_)))
    ));
    assert!(matches!(
        get(b"VALUE foo 0 3 1 9\r\nbar\r\n"),
        Err(MemcacheError::ServerError(ServerError::BadResponse(_)))
    ));
    assert!(matches!(get(b"VALUE foo 0 3 1\r\nba"), Err(MemcacheError::IOError(_))));
    assert!(matches!(
        get(b"STAT x\r\n"),
        Err(MemcacheError::ServerError(ServerError::BadResponse(_)))
    ));
}

#[test]
fn multi_gets_are_read_to_their_end() {
    let keys = vec!["a".to_string(), "b".to_string(), "c".to_string()];
    assert_eq!(ascii::gets_request(&keys).unwrap(), b"gets a b c\r\n".to_vec());
    let mut all = reader(b"VALUE a 0 1 1\r\nx\r\nVALUE c 0 1 2\r\ny\r\nEND\r\nrest");
    let result: Vec<(String, String)> = ascii::parse_gets_response(&mut all, 3).unwrap();
    assert_eq!(result, vec![("a".to_string(), "x".to_string()), ("c".to_string(), "y".to_string())]);
    assert_eq!(left(&all), b"rest");
    let mut more = reader(b"VALUE a 0 1 1\r\nx\r\nVALUE b 0 1 2\r\ny\r\n");
    assert!(matches!(
        ascii::parse_gets_response::<String>(&mut more, 1),
        Err(MemcacheError::ServerError(ServerError::BadResponse(message)))
            if message == "Expected end of gets response"
    ));
}

#[test]
fn a_swap_that_lost_is_no_error() {
    let cas = |bytes: &[u8]| ascii::parse_cas_response(&mut reader(bytes));
    assert!(cas(b"STORED\r\n").unwrap());
    assert!(!cas(b"EXISTS\r\n").unwrap());
    assert!(!cas(b"NOT_FOUND\r\n").unwrap());
    assert!(cas(b"ERROR\r\n").is_err());
}

#[test]
fn versions_and_flushes() {
    assert_eq!(ascii::version_request(), b"version\r\n".to_vec());
    assert_eq!(ascii::parse_version_response(&mut reader(b"VERSION 1.6.21\r\n")).unwrap(), "1.6.21");
    assert!(ascii::parse_version_response(&mut reader(b"1.6.21\r\n")).is_err());
    assert_eq!(ascii::flush_request(), b"flush_all\r\n".to_vec());
    assert_eq!(ascii::flush_with_delay_request(10), b"flush_all 10\r\n".to_vec());
    assert!(ascii::parse_ok_response(&mut reader(b"OK\r\n")).is_ok());
    assert!(ascii::parse_ok_response(&mut reader(b"NO\r\n")).is_err());
}

#[test]
fn deletes_counters_and_touches() {
    let keys = vec!["a".to_string(), "b".to_string()];
    assert_eq!(ascii::deletes_request(&keys).unwrap(), b"delete a\r\ndelete b\r\n".to_vec());
    assert_eq!(
        ascii::parse_deletes_response(&mut reader(b"DELETED\r\nNOT_FOUND\r\n"), 2).unwrap(),
        vec![true, false]
    );
    assert!(ascii::parse_deletes_response(&mut reader(b"OOPS\r\nDELETED\r\n"), 2).is_err());
    assert_eq!(ascii::increment_request("n", 5).unwrap(), b"incr n 5\r\n".to_vec());
    assert_eq!(ascii::decrement_request("n", 5).unwrap(), b"decr n 5\r\n".to_vec());
    assert_eq!(ascii::parse_u64_response(&mut reader(b"444\r\n")).unwrap(), 444);
    assert!(matches!(
        ascii::parse_u64_response(&mut reader(b"NOT_FOUND\r\n")),
        Err(MemcacheError::CommandError(CommandError::KeyNotFound))
    ));
    assert_eq!(ascii::touch_request("n", 60).unwrap(), b"touch n 60\r\n".to_vec());
    assert!(ascii::parse_touch_response(&mut reader(b"TOUCHED\r\n")).unwrap());
    assert!(!ascii::parse_touch_response(&mut reader(b"NOT_FOUND\r\n")).unwrap());
}

#[test]
fn statistics_are_read_to_their_end() {
    assert_eq!(ascii::stats_request(), b"stats\r\n".to_vec());
    let mut all = reader(b"STAT pid 42\r\nSTAT version 1.6\r\nEND\r\nrest");
    assert_eq!(
        ascii::parse_stats_response(&mut all).unwrap(),
        vec![
            ("pid".to_string(), " 42\r\n".to_string()),
            ("version".to_string(), " 1.6\r\n".to_string()),
        ]
    );
    assert_eq!(left(&all), b"rest");
    assert!(ascii::parse_stats_response(&mut reader(b"STAT pid\r\n")).is_err());
    assert!(ascii::parse_stats_response(&mut reader(b"OOPS\r\n")).is_err());
}

#[test]
fn credentials_are_stored_under_auth() {
    assert_eq!(ascii::auth_request("ann", "secret"), b"set auth 0 0 10\r\nann secret\r\n".to_vec());
    assert!(Protocol::Ascii.parse_auth(&mut reader(b"STORED\r\n")).is_ok());
}

#[test]
fn the_protocol_speaks_text() {
    let text = Protocol::Ascii;
    assert_eq!(
        text.store_request(StoreVerb::Add, "foo", &"bar", 60).unwrap(),
        b"add foo 0 60 3\r\nbar\r\n".to_vec()
    );
    assert_eq!(text.cas_request("foo", &"bar", 60, 9).unwrap(), b"cas foo 0 60 3 9\r\nbar\r\n".to_vec());
    assert_eq!(text.append_request("foo", &"bar").unwrap(), b"append foo 0 0 3\r\nbar\r\n".to_vec());
    assert_eq!(text.delete_request("foo").unwrap(), b"delete foo\r\n".to_vec());
    assert!(text.parse_store(&mut reader(b"NOT_STORED\r\n")).is_ok());
    assert!(text.get_request(&"x".repeat(251)).is_err());
    assert_eq!(text.parse_counter(&mut reader(b"7\r\n")).unwrap(), 7);
}

#[test]
fn a_line_that_is_no_text_stays_where_it_is() {
    let mut reader = Reader::new(b"VERSION \xff\r\nOK\r\n".to_vec());
    for _ in 0..2 {
        assert!(matches!(ascii::read_line(&mut reader), Err(MemcacheError::ParseError(_))));
        assert_eq!(reader.position, 0);
    }
    let mut reader = Reader::new(b"VERSION 1\r\nOK\r\n".to_vec());
    assert_eq!(ascii::read_line(&mut reader).unwrap(), "VERSION 1\r\n");
    assert_eq!(ascii::read_line(&mut reader).unwrap(), "OK\r\n");
}
