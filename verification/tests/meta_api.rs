//! Commands from options, and what responses say.

use memcache::exp::{
    build_arithmetic, build_debug, build_delete, build_get, build_noop, build_set, parse_debug_result,
    parse_meta_result, ArithmeticMode, ArithmeticOptions, DeleteOptions, Error, GetOptions, MetaResponse, ReturnCode,
    SetMode, SetOptions,
};

#[test]
fn build_get_default() {
    let command = build_get(b"foo", &GetOptions::default()).unwrap();
    assert_eq!(command.encode().unwrap(), b"mg foo v\r\n".to_vec());
}

#[test]
fn build_get_all_flags() {
    let options = GetOptions {
        value: true,
        return_client_flags: true,
        return_cas: true,
        return_ttl: true,
        return_size: true,
        return_last_access: true,
        return_hit_before: true,
        return_key: true,
        no_lru_bump: true,
        touch: Some(60),
        vivify_ttl: Some(30),
        recache_ttl: Some(10),
        unless_cas: Some(7),
        new_cas: Some(8),
        opaque: Some(b"tok".to_vec()),
    };
    let command = build_get(b"foo", &options).unwrap();
    assert_eq!(
        command.encode().unwrap(),
        b"mg foo v f c t s l h k u T60 N30 R10 C7 E8 Otok\r\n".to_vec()
    );
}

#[test]
fn build_get_validation() {
    let options = GetOptions { recache_ttl: Some(0), ..GetOptions::default() };
    assert!(build_get(b"foo", &options).is_err());
}

#[test]
fn build_set_modes() {
    let command = build_set(b"foo", b"bar", &SetOptions::default()).unwrap();
    assert_eq!(command.encode().unwrap(), b"ms foo 3\r\nbar\r\n".to_vec());

    let options = SetOptions {
        mode: SetMode::Add,
        ttl: Some(60),
        client_flags: Some(1),
        return_cas: true,
        ..SetOptions::default()
    };
    let command = build_set(b"foo", b"bar", &options).unwrap();
    assert_eq!(command.encode().unwrap(), b"ms foo 3 ME c F1 T60\r\nbar\r\n".to_vec());
}

#[test]
fn build_set_validation() {
    let append_with_ttl = SetOptions { mode: SetMode::Append, ttl: Some(60), ..SetOptions::default() };
    assert!(build_set(b"foo", b"bar", &append_with_ttl).is_err());

    let set_with_vivify = SetOptions { vivify_ttl: Some(60), ..SetOptions::default() };
    assert!(build_set(b"foo", b"bar", &set_with_vivify).is_err());

    let add_with_cas = SetOptions { mode: SetMode::Add, compare_cas: Some(1), ..SetOptions::default() };
    assert!(build_set(b"foo", b"bar", &add_with_cas).is_err());
}

#[test]
fn build_delete_flags() {
    let command = build_delete(b"foo", &DeleteOptions::default()).unwrap();
    assert_eq!(command.encode().unwrap(), b"md foo\r\n".to_vec());

    let options = DeleteOptions {
        invalidate: true,
        ttl: Some(30),
        compare_cas: Some(5),
        ..DeleteOptions::default()
    };
    let command = build_delete(b"foo", &options).unwrap();
    assert_eq!(command.encode().unwrap(), b"md foo I C5 T30\r\n".to_vec());

    let ttl_without_invalidate = DeleteOptions { ttl: Some(30), ..DeleteOptions::default() };
    assert!(build_delete(b"foo", &ttl_without_invalidate).is_err());
}

#[test]
fn build_arithmetic_flags() {
    let command = build_arithmetic(b"counter", &ArithmeticOptions::default()).unwrap();
    assert_eq!(command.encode().unwrap(), b"ma counter v\r\n".to_vec());

    let options = ArithmeticOptions {
        mode: ArithmeticMode::Decrement,
        delta: Some(2),
        initial: Some(0),
        initial_ttl: Some(60),
        ..ArithmeticOptions::default()
    };
    let command = build_arithmetic(b"counter", &options).unwrap();
    assert_eq!(command.encode().unwrap(), b"ma counter MD v D2 N60 J0\r\n".to_vec());

    let initial_without_ttl = ArithmeticOptions { initial: Some(0), ..ArithmeticOptions::default() };
    assert!(build_arithmetic(b"counter", &initial_without_ttl).is_err());
}

#[test]
fn build_noop_and_debug() {
    assert_eq!(build_noop().encode().unwrap(), b"mn\r\n".to_vec());
    assert_eq!(build_debug(b"foo").unwrap().encode().unwrap(), b"me foo\r\n".to_vec());
    assert!(build_debug(b"a key").is_err());
}

#[test]
fn opaque_validation() {
    for opaque in [&b""[..], &[b'x'; 33][..], b"a b", b"a\x7f"] {
        let options = GetOptions { opaque: Some(opaque.to_vec()), ..GetOptions::default() };
        assert!(build_get(b"foo", &options).is_err(), "opaque {:?} should fail", opaque);
    }
}

#[test]
fn parse_meta_result_flags() {
    let mut response = MetaResponse::parse_header(b"VA 3 f1 c42 t-1 h1 l5 s3 W Otok kZm9v b").unwrap();
    response.value = Some(b"bar".to_vec());
    let result = parse_meta_result(response).unwrap();
    assert!(result.ok());
    assert_eq!(result.rc, ReturnCode::Va);
    assert_eq!(result.value, Some(b"bar".to_vec()));
    assert_eq!(result.client_flags, Some(1));
    assert_eq!(result.cas, Some(42));
    assert_eq!(result.ttl, Some(-1));
    assert_eq!(result.hit_before, Some(true));
    assert_eq!(result.last_access, Some(5));
    assert_eq!(result.size, Some(3));
    assert!(result.won);
    assert!(!result.busy);
    assert!(!result.stale);
    assert_eq!(result.opaque, Some(b"tok".to_vec()));
    assert_eq!(result.key, Some(b"foo".to_vec()));
}

#[test]
fn parse_meta_result_miss() {
    let response = MetaResponse::parse_header(b"EN").unwrap();
    let result = parse_meta_result(response).unwrap();
    assert!(!result.ok());
    assert_eq!(result.rc, ReturnCode::En);
}

#[test]
fn parse_debug_result_fields() {
    let response = MetaResponse::parse_header(b"ME foo exp=-1 la=2 cas=3").unwrap();
    let fields = parse_debug_result(&response).unwrap().unwrap();
    let get = |name: &str| fields.iter().find(|field| field.0 == name).map(|field| field.1.as_str());
    assert_eq!(get("exp"), Some("-1"));
    assert_eq!(get("la"), Some("2"));
    assert_eq!(get("cas"), Some("3"));

    let miss = MetaResponse::parse_header(b"EN").unwrap();
    assert!(parse_debug_result(&miss).unwrap().is_none());

    let unexpected = MetaResponse::parse_header(b"HD").unwrap();
    assert!(parse_debug_result(&unexpected).is_err());
}

#[test]
fn a_flag_that_is_no_number_is_a_protocol_error() {
    let response = MetaResponse::parse_header(b"HD cx").unwrap();
    assert!(matches!(
        parse_meta_result(response),
        Err(Error::Protocol(message)) if message == "invalid digit found in string"
    ));
    let response = MetaResponse::parse_header(b"HD f4294967296").unwrap();
    assert!(matches!(
        parse_meta_result(response),
        Err(Error::Protocol(message)) if message == "number too large to fit in target type"
    ));
    let response = MetaResponse::parse_header(b"HD c\xff").unwrap();
    assert!(matches!(
        parse_meta_result(response),
        Err(Error::Protocol(message)) if message == "invalid utf-8 sequence of 1 bytes from index 0"
    ));
}
