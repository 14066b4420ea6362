//! Commands and responses on the wire.

use memcache::exp::base64::{base64_decode, base64_encode};
use memcache::exp::meta_command::{encode_key, is_legacy_safe, MAX_VALUE_LENGTH};
use memcache::exp::{Error, MetaCommand, MetaOp, MetaResponse, ReturnCode, MAX_KEY_LENGTH};

#[test]
fn va_length_is_bounded() {
    assert_eq!(MetaResponse::parse_header(b"VA 3 c7").unwrap().datalen, Some(3));
    assert_eq!(
        MetaResponse::parse_header(b"VA 1073741824").unwrap().datalen,
        Some(MAX_VALUE_LENGTH)
    );
    for header in [
        b"VA 1073741825".as_slice(),
        b"VA 18446744073709551615",
        b"VA 99999999999999999999",
    ] {
        let error = MetaResponse::parse_header(header).unwrap_err();
        assert!(matches!(error, Error::Protocol(_)), "{header:?}: {error:?}");
    }
}

#[test]
fn base64_roundtrip() {
    let cases: &[&[u8]] = &[b"", b"f", b"fo", b"foo", b"foob", b"fooba", b"foobar", b"\x00\xff\x10"];
    for case in cases {
        let encoded = base64_encode(case);
        assert_eq!(base64_decode(&encoded).unwrap(), case.to_vec());
    }
    assert_eq!(base64_encode(b"foobar"), b"Zm9vYmFy".to_vec());
    assert_eq!(base64_encode(b"foob"), b"Zm9vYg==".to_vec());
    assert!(base64_decode(b"Zm9vY").is_err());
    assert!(base64_decode(b"Zm=vYg==").is_err());
}

#[test]
fn encode_binary_key_adds_base64_flag() {
    let command = MetaCommand::new(MetaOp::Get, b"a key").flag(b"v");
    assert_eq!(command.encode().unwrap(), b"mg YSBrZXk= v b\r\n".to_vec());
}

#[test]
fn encode_rejects_bad_keys() {
    assert!(matches!(MetaCommand::new(MetaOp::Get, b"").encode(), Err(Error::Usage(_))));
    let long_key = vec![b'x'; MAX_KEY_LENGTH + 1];
    assert!(matches!(MetaCommand::new(MetaOp::Get, &long_key).encode(), Err(Error::Usage(_))));
    // The base64 form is what must fit in 250 bytes.
    let binary_key = vec![b' '; 200];
    assert!(matches!(MetaCommand::new(MetaOp::Get, &binary_key).encode(), Err(Error::Usage(_))));
}

#[test]
fn parse_header_hd_with_flags() {
    let response = MetaResponse::parse_header(b"HD c1234 t42").unwrap();
    assert_eq!(response.rc, ReturnCode::Hd);
    assert_eq!(response.datalen, None);
    assert_eq!(response.flags, vec![b"c1234".to_vec(), b"t42".to_vec()]);
}

#[test]
fn parse_header_va_datalen() {
    let response = MetaResponse::parse_header(b"VA 5 f0 c1").unwrap();
    assert_eq!(response.rc, ReturnCode::Va);
    assert_eq!(response.datalen, Some(5));
    assert_eq!(response.flags, vec![b"f0".to_vec(), b"c1".to_vec()]);
    assert!(MetaResponse::parse_header(b"VA").is_err());
}

#[test]
fn parse_header_errors() {
    assert!(matches!(MetaResponse::parse_header(b"ERROR"), Err(Error::Rejected(_))));
    assert!(matches!(
        MetaResponse::parse_header(b"CLIENT_ERROR bad data chunk"),
        Err(Error::Rejected(message)) if message == "bad data chunk"
    ));
    assert!(matches!(
        MetaResponse::parse_header(b"SERVER_ERROR out of memory"),
        Err(Error::Server(message)) if message == "out of memory"
    ));
    assert!(matches!(MetaResponse::parse_header(b"XX"), Err(Error::Protocol(_))));
    assert!(matches!(MetaResponse::parse_header(b""), Err(Error::Protocol(_))));
    assert!(matches!(MetaResponse::parse_header(b"VA x"), Err(Error::Protocol(_))));
}

#[test]
fn a_server_message_that_is_no_text_is_shown_with_replacements() {
    assert!(matches!(
        MetaResponse::parse_header(b"SERVER_ERROR \xff oops "),
        Err(Error::Server(message)) if message == "\u{fffd} oops"
    ));
}

#[test]
fn an_unknown_return_code_is_quoted() {
    assert!(matches!(
        MetaResponse::parse_header(b"QQ\t1"),
        Err(Error::Protocol(message)) if message == "unknown return code \"QQ\\t1\""
    ));
}

#[test]
fn the_longest_binary_key_has_186_bytes() {
    let fits = vec![b' '; 186];
    let (token, base64) = encode_key(&fits).unwrap();
    assert!(base64);
    assert_eq!(token.len(), 248);
    assert_eq!(base64_decode(&token).unwrap(), fits);
    assert!(encode_key(&vec![b' '; 187]).is_err());
    assert!(is_legacy_safe(b"plain"));
    assert!(!is_legacy_safe(b"a\x7f"));
}

#[test]
fn a_data_block_follows_the_request_line() {
    let command = MetaCommand::new(MetaOp::Store, b"k").flag(b"T60").value(b"hello");
    assert_eq!(command.encode().unwrap(), b"ms k 5 T60\r\nhello\r\n".to_vec());
    let mut buffer = b"mn\r\n".to_vec();
    command.encode_with_opaque(3, &mut buffer).unwrap();
    assert_eq!(buffer, b"mn\r\nms k 5 T60 O3\r\nhello\r\n".to_vec());
}

#[test]
fn reads_with_effects_count_as_writes() {
    assert!(!MetaCommand::new(MetaOp::Get, b"k").flag(b"v").has_side_effect());
    assert!(MetaCommand::new(MetaOp::Get, b"k").flag(b"v").flag(b"T60").has_side_effect());
    assert!(MetaCommand::new(MetaOp::Delete, b"k").has_side_effect());
    assert!(!MetaCommand::new(MetaOp::Noop, b"").has_side_effect());
}
