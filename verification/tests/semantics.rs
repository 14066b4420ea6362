//! Operations on their way to the wire and back.

use memcache::exp::meta_command::MetaResponse;
use memcache::exp::semantics::{
    parse_arithmetic, parse_delete, parse_get, parse_set, prepare_arithmetic, prepare_delete, prepare_get, prepare_set,
    Operation,
};
use memcache::exp::{
    parse_meta_result, Arithmetic, Delete, Error, Get, GetStatus, Meta, MetaCommandResult, MutationStatus, Op,
    OpResult, SetMode, Store, Ttl, ValueState,
};

fn wire(header: &[u8], value: Option<&[u8]>) -> MetaCommandResult {
    let mut response = MetaResponse::parse_header(header).unwrap();
    response.value = value.map(|value| value.to_vec());
    parse_meta_result(response).unwrap()
}

#[test]
fn prepare_get_wire_format() {
    let command = prepare_get(&Get::new(b"foo")).unwrap();
    assert_eq!(command.encode().unwrap(), b"mg foo v f\r\n".to_vec());

    let operation = Get {
        meta: Meta { cas: true, ttl: true, ..Meta::none() },
        touch: Some(Ttl::secs(60)),
        ..Get::new(b"foo")
    };
    let command = prepare_get(&operation).unwrap();
    assert_eq!(command.encode().unwrap(), b"mg foo v f c t T60\r\n".to_vec());

    // A lease read implies the CAS even when not requested.
    let operation = Get { lease_ttl: Some(30), ..Get::new(b"foo") };
    let command = prepare_get(&operation).unwrap();
    assert_eq!(command.encode().unwrap(), b"mg foo v f c N30\r\n".to_vec());
}

#[test]
fn prepare_get_validation() {
    assert!(prepare_get(&Get { lease_ttl: Some(0), ..Get::new(b"k") }).is_err());
    assert!(prepare_get(&Get { refresh_before: Some(5), ..Get::new(b"k") }).is_err());
    assert!(prepare_get(&Get { unless_cas: Some(1), value: false, ..Get::new(b"k") }).is_err());
}

#[test]
fn prepare_set_wire_format() {
    // The protocol layer stores bytes as given, flags default to zero.
    let command = prepare_set(&Store::new(b"foo", b"bar")).unwrap();
    assert_eq!(command.encode().unwrap(), b"ms foo 3\r\nbar\r\n".to_vec());

    let operation = Store {
        mode: SetMode::Add,
        ttl: Some(Ttl::secs(60)),
        return_cas: true,
        ..Store::new(b"foo", b"bar")
    };
    let command = prepare_set(&operation).unwrap();
    assert_eq!(command.encode().unwrap(), b"ms foo 3 ME c T60\r\nbar\r\n".to_vec());

    // A zero ttl is a usage error, never a silent "keep forever".
    let operation = Store { ttl: Some(Ttl::secs(0)), ..Store::new(b"foo", b"bar") };
    assert!(matches!(prepare_set(&operation), Err(Error::Usage(_))));
    let operation = Store { ttl: Some(Ttl::never()), ..Store::new(b"foo", b"bar") };
    assert_eq!(prepare_set(&operation).unwrap().encode().unwrap(), b"ms foo 3 T0\r\nbar\r\n".to_vec());

    // Non-zero client flags go on the wire as F.
    let operation = Store { client_flags: 5, ..Store::new(b"foo", b"bar") };
    let command = prepare_set(&operation).unwrap();
    assert_eq!(command.encode().unwrap(), b"ms foo 3 F5\r\nbar\r\n".to_vec());
}

#[test]
fn prepare_delete_validation() {
    let command = prepare_delete(&Delete::new(b"foo")).unwrap();
    assert_eq!(command.encode().unwrap(), b"md foo\r\n".to_vec());
    assert!(prepare_delete(&Delete { stale_for: Some(Ttl::secs(30)), ..Delete::new(b"foo") }).is_err());
}

#[test]
fn prepare_arithmetic_validation() {
    let command = prepare_arithmetic(&Arithmetic::new(b"counter")).unwrap();
    assert_eq!(command.encode().unwrap(), b"ma counter v D1\r\n".to_vec());
    assert!(prepare_arithmetic(&Arithmetic { initial_ttl: Some(60), ..Arithmetic::new(b"counter") }).is_err());
    assert!(prepare_arithmetic(&Arithmetic { initial: Some(0), ..Arithmetic::new(b"counter") }).is_err());
}

#[test]
fn parse_get_hit_and_miss() {
    let operation = Get::new(b"foo");
    let result = parse_get(&operation, wire(b"VA 3 f0 c42", Some(b"bar"))).unwrap();
    assert_eq!(result.status, GetStatus::Hit);
    assert!(result.hit());
    assert_eq!(result.value.as_deref(), Some(&b"bar"[..]));
    assert_eq!(result.item.cas, Some(42));
    assert_eq!(result.value_state, ValueState::Fresh);

    let result = parse_get(&operation, wire(b"EN", None)).unwrap();
    assert_eq!(result.status, GetStatus::Miss);
    assert_eq!(result.value, None);

    assert!(parse_get(&operation, wire(b"NS", None)).is_err());
}

#[test]
fn parse_get_lease_placeholder() {
    // Our own vivify: empty placeholder with the won flag is a miss with
    // a granted lease.
    let operation = Get { lease_ttl: Some(30), ..Get::new(b"foo") };
    let result = parse_get(&operation, wire(b"VA 0 c7 W", Some(b""))).unwrap();
    assert_eq!(result.status, GetStatus::Miss);
    assert!(result.won_lease());
    assert_eq!(result.value_state, ValueState::Missing);

    // Someone else's placeholder: pending.
    let result = parse_get(&Get::new(b"foo"), wire(b"VA 0 c7 Z", Some(b""))).unwrap();
    assert_eq!(result.status, GetStatus::Pending);
    assert!(result.lease_busy());
}

#[test]
fn parse_get_stale_and_unchanged() {
    let operation = Get { lease_ttl: Some(30), ..Get::new(b"foo") };
    let result = parse_get(&operation, wire(b"VA 3 c7 X Z", Some(b"old"))).unwrap();
    assert_eq!(result.status, GetStatus::Hit);
    assert!(result.is_stale());
    assert_eq!(result.value.as_deref(), Some(&b"old"[..]));

    let operation = Get { unless_cas: Some(42), ..Get::new(b"foo") };
    let result = parse_get(&operation, wire(b"HD c42", None)).unwrap();
    assert_eq!(result.status, GetStatus::Unchanged);
    assert_eq!(result.value, None);
}

#[test]
fn parse_mutation_statuses() {
    let set = Store::new(b"foo", b"bar");
    assert_eq!(parse_set(&set, wire(b"HD", None)).unwrap().status, MutationStatus::Applied);
    assert_eq!(parse_set(&set, wire(b"EX", None)).unwrap().status, MutationStatus::CasMismatch);
    assert_eq!(parse_set(&set, wire(b"NS", None)).unwrap().status, MutationStatus::NotFound);
    let add = Store { mode: SetMode::Add, ..Store::new(b"foo", b"bar") };
    assert_eq!(parse_set(&add, wire(b"NS", None)).unwrap().status, MutationStatus::AlreadyExists);
    assert_eq!(
        parse_delete(&Delete::new(b"foo"), wire(b"NF", None)).unwrap().status,
        MutationStatus::NotFound
    );
}

#[test]
fn parse_arithmetic_value() {
    let operation = Arithmetic::new(b"counter");
    let result = parse_arithmetic(&operation, wire(b"VA 2 c9 t60", Some(b"42"))).unwrap();
    assert!(result.applied());
    assert_eq!(result.value, Some(42));
    assert_eq!(result.item.cas, Some(9));
    assert_eq!(result.item.ttl, Some(60));

    let result = parse_arithmetic(&operation, wire(b"NF", None)).unwrap();
    assert_eq!(result.status, MutationStatus::NotFound);
    assert_eq!(result.value, None);
}

#[test]
fn mixed_operations_answer_by_their_kind() {
    let get: Op = Get::new(b"a").into();
    let answer = get.parse(wire(b"VA 1 f0", Some(b"1"))).unwrap();
    assert_eq!(answer.as_get().unwrap().value.as_deref(), Some(&b"1"[..]));
    assert!(answer.as_mutation().is_none());

    let store: Op = Store::new(b"a", b"1").into();
    let answer = store.parse(wire(b"HD", None)).unwrap();
    assert!(answer.as_mutation().unwrap().applied());
    assert!(matches!(answer, OpResult::Mutation(_)));

    let count: Op = Arithmetic::new(b"a").decrement().into();
    assert_eq!(count.key(), b"a");
    let answer = count.parse(wire(b"VA 1", Some(b"7"))).unwrap();
    assert_eq!(answer.as_arithmetic().unwrap().value, Some(7));
}

#[test]
fn a_counter_that_is_no_number_is_a_protocol_error() {
    let operation = Arithmetic::new(b"counter");
    assert!(matches!(
        parse_arithmetic(&operation, wire(b"VA 1", Some(b"x"))),
        Err(Error::Protocol(_))
    ));
}
