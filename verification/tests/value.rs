//! Typed values of the meta-protocol client.

use memcache::exp::scenario::encode_value;
use memcache::exp::{Decode, DecodeError, Encode, EncodeError, Encoded, Json, FLAG_BYTES, FLAG_INT, FLAG_JSON, FLAG_STR};

fn encoded<V: Encode>(value: V) -> (Vec<u8>, u32) {
    let Encoded { bytes, flags } = value.encode().unwrap();
    (bytes, flags)
}

#[test]
fn encode_builtin_types() {
    assert_eq!(encoded("bar"), (b"bar".to_vec(), FLAG_STR));
    assert_eq!(encoded(String::from("bar")), (b"bar".to_vec(), FLAG_STR));
    assert_eq!(encoded(&String::from("bar")), (b"bar".to_vec(), FLAG_STR));
    assert_eq!(encoded(b"bar"), (b"bar".to_vec(), FLAG_BYTES));
    assert_eq!(encoded(*b"bar"), (b"bar".to_vec(), FLAG_BYTES));
    assert_eq!(encoded(&b"bar"[..]), (b"bar".to_vec(), FLAG_BYTES));
    assert_eq!(encoded(vec![1u8, 2]), (vec![1, 2], FLAG_BYTES));
    assert_eq!(encoded(&vec![1u8, 2]), (vec![1, 2], FLAG_BYTES));
    assert_eq!(encoded(42u64), (b"42".to_vec(), FLAG_INT));
    assert_eq!(encoded(&-1i32), (b"-1".to_vec(), FLAG_INT));
    // Empty encodings are produced here; the high-level layer rejects them.
    assert_eq!(encoded(""), (Vec::new(), FLAG_STR));
}

#[test]
fn decode_is_type_driven() {
    assert_eq!(String::decode(b"bar".to_vec(), FLAG_STR).unwrap(), "bar");
    assert_eq!(u64::decode(b"42".to_vec(), FLAG_INT).unwrap(), 42);
    assert_eq!(i8::decode(b"-5".to_vec(), FLAG_INT).unwrap(), -5);
    assert!(u64::decode(b"x".to_vec(), FLAG_INT).is_err());
    assert!(String::decode(vec![0xff], FLAG_STR).is_err());

    // Flags are advisory: any value decodes as long as the bytes parse.
    assert_eq!(String::decode(b"42".to_vec(), FLAG_INT).unwrap(), "42");
    assert_eq!(String::decode(b"\"x\"".to_vec(), FLAG_JSON).unwrap(), "\"x\"");
    assert_eq!(u64::decode(b"42".to_vec(), FLAG_STR).unwrap(), 42);
    assert_eq!(Vec::<u8>::decode(b"x".to_vec(), 1).unwrap(), b"x".to_vec());
}

#[test]
fn errors_render_their_source() {
    let error = u8::decode(b"300".to_vec(), FLAG_INT).unwrap_err();
    assert!(error.to_string().starts_with("decode failed: "));
    assert_eq!(error.message, "number too large to fit in target type");
    let error = EncodeError::new("custom");
    assert_eq!(error.to_string(), "encode failed: custom");
}

#[test]
fn numbers_are_read_back() {
    for n in [0u64, 9, 10, 4096, u64::MAX] {
        assert_eq!(u64::decode(encoded(n).0, FLAG_INT).unwrap(), n);
    }
    for n in [i64::MIN, -1, 0, 1, i64::MAX] {
        assert_eq!(i64::decode(encoded(n).0, FLAG_INT).unwrap(), n);
    }
    assert_eq!(u128::decode(encoded(u128::MAX).0, 0).unwrap(), u128::MAX);
    assert_eq!(i128::decode(encoded(i128::MIN).0, 0).unwrap(), i128::MIN);
}

#[test]
fn broken_numbers_say_what_is_wrong_with_them() {
    let message = |bytes: &[u8]| i8::decode(bytes.to_vec(), 0).unwrap_err().message;
    assert_eq!(message(b""), "cannot parse integer from empty string");
    assert_eq!(message(b"x"), "invalid digit found in string");
    assert_eq!(message(b"-"), "invalid digit found in string");
    assert_eq!(message(b"128"), "number too large to fit in target type");
    assert_eq!(message(b"-129"), "number too small to fit in target type");
    assert_eq!(i8::decode(b"+5".to_vec(), 0).unwrap(), 5);
}

#[test]
fn a_document_is_tagged_as_json() {
    let tagged = Json::<u8>::tag(b"{\"name\":\"ann\"}".to_vec());
    assert_eq!(tagged, Encoded::new(b"{\"name\":\"ann\"}", FLAG_JSON));
    assert_eq!(Json(5).into_inner(), 5);
}

#[derive(Debug, PartialEq)]
struct Celsius(i32);

impl Encode for Celsius {
    fn encode(&self) -> Result<Encoded, EncodeError> {
        Ok(Encoded::new(format!("{}C", self.0).as_bytes(), FLAG_STR))
    }
}

impl Decode for Celsius {
    fn decode(bytes: Vec<u8>, _: u32) -> Result<Celsius, DecodeError> {
        let text = String::from_utf8(bytes).map_err(|error| DecodeError::new(&error.to_string()))?;
        let degrees = text.trim_end_matches('C').parse();
        degrees.map(Celsius).map_err(|_| DecodeError::new("not a temperature"))
    }
}

#[test]
fn own_types_can_be_stored() {
    assert_eq!(encode_value(Celsius(-4)).unwrap(), Encoded::new(b"-4C", FLAG_STR));
    assert_eq!(Celsius::decode(b"21C".to_vec(), FLAG_STR).unwrap(), Celsius(21));
    assert!(matches!(Celsius::decode(b"warm".to_vec(), 0), Err(e) if e.to_string() == "decode failed: not a temperature"));
}

#[test]
fn json_roundtrip() {
    let mut user = serde_json::Map::new();
    user.insert("name".to_string(), serde_json::Value::from("ann"));
    let user = serde_json::Value::Object(user);
    let (bytes, flags) = encoded(Json::<()>::tag(serde_json::to_vec(&user).unwrap()));
    assert_eq!(flags, FLAG_JSON);
    assert_eq!(bytes, br#"{"name":"ann"}"#);
    let stored = Encoded::decode(bytes, FLAG_JSON).unwrap();
    let decoded: Json<serde_json::Value> = Json(serde_json::from_slice(&stored.bytes).unwrap());
    assert_eq!(decoded.0["name"], "ann");
    assert_eq!(decoded.into_inner(), user);
}
