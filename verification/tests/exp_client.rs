//! The protocol client, with the bytes of the servers written down.

use memcache::exp::batch::{
    attribute_command, batch_step, check_batch, exchange_step, parse_all, plan, plan_at, plan_exchange, Batch, BatchPlan, BatchStep,
    ExchangeStep, Failure, Reply,
};
use memcache::exp::client::{check_noop, check_resolved, check_servers, finish_operation, Engine};
use memcache::exp::connection::{
    dial_step, encode_payload, end_of_stream, frame, is_reusable, socket_error, time_left, DialStep, Frame, Probe, Sending,
};
use memcache::exp::pool::{IdleStack, SlotStep, Slots};
use memcache::exp::request::Request;
use memcache::exp::router::{route, HashFunction, Rendezvous, Router};
use memcache::exp::semantics::{prepare, Operation};
use memcache::exp::{
    build_delete, build_noop, parse_meta_result, Arithmetic, Delete, DeleteOptions, Error, Get, GetStatus, Meta, MetaClientBuilder, MetaResponse,
    MutationStatus, Op, OpResult, SetMode, Store, Ttl,
};
use memcache::io::{IoError, IoErrorKind};
use memcache::time::{Duration, SystemTime};

fn wire<O: Operation>(operation: &O) -> String {
    String::from_utf8(prepare(operation).unwrap().encode().unwrap()).unwrap()
}

/// The responses in what a server sent before it closed the stream.
fn responses(mut received: &[u8], count: usize) -> (Vec<MetaResponse>, Option<Error>) {
    let mut found = Vec::new();
    while found.len() < count {
        match frame(received) {
            Frame::Complete { response, used } => {
                found.push(response);
                received = &received[used..];
            }
            Frame::Partial => return (found, Some(end_of_stream())),
            Frame::Broken { error, .. } => return (found, Some(error)),
        }
    }
    (found, None)
}

fn response(received: &[u8]) -> MetaResponse {
    let (mut found, error) = responses(received, 1);
    assert!(error.is_none());
    found.pop().unwrap()
}

fn answered<O: Operation>(operation: &O, received: &[u8]) -> O::Output {
    finish_operation(operation, response(received)).unwrap()
}

fn timed_out() -> Error {
    Error::Io(IoError::from_kind(IoErrorKind::TimedOut))
}

/// What a server that sends `received` and then closes makes of a batch of
/// which all was written.
fn reply(batch: &Batch, received: &[u8]) -> Reply {
    let (responses, error) = responses(received, batch.len());
    match batch_step(false, responses, error, batch.payload.len()) {
        BatchStep::Done(responses) => Reply { responses, failure: None },
        BatchStep::Fail(responses, failure) => Reply { responses, failure: Some(failure) },
        BatchStep::Redial => panic!("a fresh connection is not dialed again"),
    }
}

fn run_batch(operations: Vec<Op>, received: &[u8]) -> (String, Vec<Result<OpResult, Error>>) {
    let plan: BatchPlan = plan(&operations, 1, |_: &[u8]| 0).unwrap();
    let payload = String::from_utf8(plan.batches[0].payload.clone()).unwrap();
    let reply = reply(&plan.batches[0], received);
    (payload, parse_all(&operations, plan.collect(vec![reply])))
}

struct FirstByte;

impl Router for FirstByte {
    fn route(&self, key: &[u8], servers: &Vec<String>) -> usize {
        key[0] as usize % servers.len()
    }
}

fn char_for(bucket: usize) -> char {
    (b'0'..=b'z').find(|&byte| byte as usize % 2 == bucket).unwrap() as char
}

fn two() -> Vec<String> {
    vec!["10.0.0.1:11211".to_string(), "10.0.0.2:11211".to_string()]
}

#[test]
fn client_roundtrip() {
    let stored = Store::new(b"foo", b"bar");
    assert_eq!(wire(&stored), "ms foo 3\r\nbar\r\n");
    assert_eq!(answered(&stored, b"HD\r\n").status, MutationStatus::Applied);

    let fetched = Get::new(b"foo");
    assert_eq!(wire(&fetched), "mg foo v f\r\n");
    let fetched = answered(&fetched, b"VA 3 f0\r\nbar\r\n");
    assert_eq!(fetched.status, GetStatus::Hit);
    assert_eq!(fetched.value.as_deref(), Some(&b"bar"[..]));

    let added = Store::new(b"foo", b"baz").add();
    assert_eq!(wire(&added), "ms foo 3 ME\r\nbaz\r\n");
    assert_eq!(answered(&added, b"NS\r\n").status, MutationStatus::AlreadyExists);

    let counter = Arithmetic::new(b"counter").delta(2);
    assert_eq!(wire(&counter), "ma counter v D2\r\n");
    assert_eq!(answered(&counter, b"VA 2\r\n42\r\n").value, Some(42));

    let deleted = Delete::new(b"foo");
    assert_eq!(wire(&deleted), "md foo\r\n");
    assert!(answered(&deleted, b"HD\r\n").applied());

    assert_eq!(build_noop().encode().unwrap(), b"mn\r\n");
    assert!(check_noop(&response(b"MN\r\n")).is_ok());
    assert!(matches!(check_noop(&response(b"HD\r\n")), Err(Error::Protocol(_))));
}

#[test]
fn run_batch_mixed_operations() {
    let (payload, results) = run_batch(
        vec![
            Store::new(b"a", b"1").ttl(Ttl::secs(60)).into(),
            Get::new(b"a").into(),
            Delete::new(b"c").into(),
        ],
        b"HD O0\r\nVA 1 f0 O1\r\n1\r\nNF O2\r\n",
    );
    assert_eq!(payload, "ms a 1 T60 O0\r\n1\r\nmg a v f O1\r\nmd c O2\r\n");
    let results: Vec<_> = results.into_iter().map(Result::unwrap).collect();
    assert_eq!(results.len(), 3);
    assert!(results[0].as_mutation().unwrap().applied());
    assert_eq!(results[1].as_get().unwrap().value.as_deref(), Some(&b"1"[..]));
    assert_eq!(results[2].as_mutation().unwrap().status, MutationStatus::NotFound);
    assert!(results[0].as_get().is_none() && results[0].as_arithmetic().is_none());
}

#[test]
fn run_batch_validates_before_writing() {
    let operations: Vec<Op> =
        vec![Store::new(b"a", b"1").into(), Delete::new(b"b").stale_for(Ttl::secs(30)).into()];
    assert!(plan(&operations, 1, |_: &[u8]| 0).is_err());
    let operations: Vec<Op> = vec![Store::new(b"a", b"1").into(), Get::new(b"").into()];
    assert!(matches!(plan(&operations, 1, |_: &[u8]| 0), Err(Error::Usage(_))));
}

#[test]
fn a_batch_that_cannot_be_prepared_is_not_routed() {
    let asked = std::cell::Cell::new(0);
    let index_for = |_: &[u8]| {
        asked.set(asked.get() + 1);
        0
    };
    let operations: Vec<Op> =
        vec![Store::new(b"a", b"1").into(), Delete::new(b"b").stale_for(Ttl::secs(30)).into()];
    assert!(plan(&operations, 1, index_for).is_err());
    assert_eq!(asked.get(), 0);
    let operations: Vec<Op> = vec![Store::new(b"a", b"1").into(), Delete::new(b"b").into()];
    assert_eq!(plan(&operations, 1, index_for).unwrap().routes, vec![0, 0]);
    assert_eq!(asked.get(), 2);
}

#[test]
fn a_batch_is_planned_as_of_a_moment() {
    let now = SystemTime::unix_epoch().saturating_add(Duration::from_secs(1_000_000_000));
    let store = Request::new(&(), Store::new(b"a", b"1")).ttl(Ttl::secs(40 * 24 * 3600)).into_operation();
    let plan = plan_at(&vec![store], vec![0], 1, now).unwrap();
    assert_eq!(plan.batches[0].payload, b"ms a 1 T1003456000 O0\r\n1\r\n".to_vec());
}

#[test]
fn only_what_can_be_sent_is_routed() {
    let entry = |key: &[u8]| (key.to_vec(), build_delete(key, &DeleteOptions::default()).unwrap());
    let entries = vec![entry(b"b"), entry(b""), entry(b"a")];
    let servers = two();
    // The router looks at the first byte of a key, which the second entry lacks.
    let plan = plan_exchange(entries, 2, |key: &[u8]| route(&FirstByte, key, &servers));
    assert_eq!(plan.groups, vec![vec![0], vec![2]]);
    let replies = vec![reply(&plan.batches[0], b"HD O0\r\n"), reply(&plan.batches[1], b"NF O0\r\n")];
    let results = plan.collect(replies);
    assert!(results[0].is_ok() && results[2].is_ok());
    assert!(matches!(results[1], Err(Error::Usage(_))));
}

#[test]
fn run_executes_standalone_operations() {
    let operation = Request::new(&(), Store::new(b"foo", b"bar")).ttl(Ttl::secs(60)).into_operation();
    assert_eq!(wire(&operation), "ms foo 3 T60\r\nbar\r\n");
    assert!(answered(&operation, b"HD\r\n").applied());

    let operation = Arithmetic::new(b"counter").decrement();
    assert_eq!(wire(&operation), "ma counter MD v D1\r\n");
    assert_eq!(answered(&operation, b"VA 1\r\n1\r\n").value, Some(1));
}

#[test]
fn multi_server_routes_by_key() {
    let key0 = format!("{}a", char_for(0));
    let key1 = format!("{}b", char_for(1));
    let builder = MetaClientBuilder::new().router(FirstByte);
    assert_eq!(route(&builder.router, key0.as_bytes(), &two()), 0);
    assert_eq!(route(&builder.router, key1.as_bytes(), &two()), 1);
}

#[test]
fn multi_server_batch_splits_and_reorders() {
    let key_set = format!("{}a", char_for(1));
    let key_get = format!("{}b", char_for(0));
    let key_delete = format!("{}c", char_for(1));
    // Interleaved across servers; results must come back in input order.
    let operations: Vec<Op> = vec![
        Store::new(key_set.as_bytes(), b"v").into(),
        Get::new(key_get.as_bytes()).into(),
        Delete::new(key_delete.as_bytes()).into(),
    ];
    let servers = two();
    let plan = plan(&operations, 2, |key: &[u8]| route(&FirstByte, key, &servers)).unwrap();
    assert_eq!(plan.batches[0].payload, format!("mg {key_get} v f O0\r\n").into_bytes());
    assert_eq!(
        plan.batches[1].payload,
        format!("ms {key_set} 1 O0\r\nv\r\nmd {key_delete} O1\r\n").into_bytes()
    );
    assert_eq!(plan.groups, vec![vec![1], vec![0, 2]]);
    let replies = vec![reply(&plan.batches[0], b"EN O0\r\n"), reply(&plan.batches[1], b"HD O0\r\nNF O1\r\n")];
    let results: Vec<_> =
        parse_all(&operations, plan.collect(replies)).into_iter().map(Result::unwrap).collect();
    assert!(results[0].as_mutation().unwrap().applied());
    assert_eq!(results[1].as_get().unwrap().status, GetStatus::Miss);
    assert_eq!(results[2].as_mutation().unwrap().status, MutationStatus::NotFound);
}

#[test]
fn run_batch_continues_after_group_failure() {
    let key_live = format!("{}a", char_for(0));
    let key_dead = format!("{}b", char_for(1));
    let operations: Vec<Op> =
        vec![Get::new(key_live.as_bytes()).into(), Store::new(key_dead.as_bytes(), b"v").into()];
    let servers = two();
    let plan = plan(&operations, 2, |key: &[u8]| route(&FirstByte, key, &servers)).unwrap();
    let refused = Error::Io(IoError::from_kind(IoErrorKind::ConnectionRefused));
    let replies = vec![
        reply(&plan.batches[0], b"VA 1 f0 O0\r\nx\r\n"),
        Reply { responses: Vec::new(), failure: Some(Failure::before_write(refused)) },
    ];
    let results = parse_all(&operations, plan.collect(replies));
    let live = results[0].as_ref().unwrap().as_get().unwrap();
    assert_eq!(live.value.as_deref(), Some(&b"x"[..]));
    // Nothing was written, so nothing is ambiguous.
    assert!(matches!(&results[1], Err(Error::Io(e)) if e.kind == IoErrorKind::ConnectionRefused));
}

#[test]
fn connect_multiple_rejects_empty() {
    assert!(matches!(check_servers(0), Err(Error::Usage("at least one server address is required"))));
    assert!(check_servers(1).is_ok());
    assert!(matches!(check_resolved(0), Err(Error::Usage("address resolved to no socket addresses"))));
    assert!(check_resolved(2).is_ok());
}

#[test]
fn client_io_timeout_poisons_connection() {
    let command = prepare(&Delete::new(b"foo")).unwrap();
    let payload = command.encode().unwrap().len();
    // The delete was written before the timeout struck: ambiguous.
    let failure = Failure { error: timed_out(), written: payload };
    let error = attribute_command(&failure, b"foo", &command, payload);
    assert!(
        matches!(&error, Error::Ambiguous { key, source } if key == b"foo" && matches!(**source, Error::Timeout { .. })),
        "{error:?}"
    );
    assert!(error.is_ambiguous() && !error.is_retryable());
    // A request cut short was never parsed by the server.
    let failure = Failure { error: timed_out(), written: payload - 1 };
    let error = attribute_command(&failure, b"foo", &command, payload);
    assert!(matches!(&error, Error::Timeout { key } if key == b"foo"));
    // The failed connection is dropped, whether it was pooled or not.
    assert!(matches!(exchange_step(true, payload, timed_out()), ExchangeStep::Fail(f) if f.written == payload));
    assert!(matches!(exchange_step(false, 0, timed_out()), ExchangeStep::Fail(_)));
}

#[test]
fn io_timeout_bounds_whole_batch_exchange() {
    let start = SystemTime::unix_epoch().saturating_add(Duration::from_secs(1000));
    let deadline = Some(start.saturating_add(Duration::from_millis(100)));
    // Each read on its own stays under the limit, the third does not start.
    let second = start.saturating_add(Duration::from_millis(60));
    assert_eq!(time_left(deadline, second).unwrap(), Some(Duration::from_millis(40)));
    let third = start.saturating_add(Duration::from_millis(120));
    assert!(matches!(time_left(deadline, third), Err(Error::Io(e)) if e.kind == IoErrorKind::TimedOut));
    let spent = start.saturating_add(Duration::from_millis(100));
    assert!(time_left(deadline, spent).is_err());
    assert_eq!(time_left(None, third).unwrap(), None);
}

#[test]
fn connect_timeout_fails_fast() {
    let start = SystemTime::unix_epoch().saturating_add(Duration::from_secs(1000));
    let deadline = Some(start.saturating_add(Duration::from_millis(100)));
    let within = |step: DialStep, at: usize, limit: Option<Duration>| matches!(step, DialStep::Try { address, left } if address == at && left == limit);
    assert!(within(dial_step(2, 0, deadline, start, None), 0, Some(Duration::from_millis(100))));
    let refused = || Some(IoError::from_kind(IoErrorKind::ConnectionRefused));
    let later = start.saturating_add(Duration::from_millis(30));
    assert!(within(dial_step(2, 1, deadline, later, refused()), 1, Some(Duration::from_millis(70))));
    // Out of addresses, the last failure is the answer.
    assert!(
        matches!(dial_step(2, 2, deadline, later, refused()), DialStep::Fail(Error::Io(e)) if e.kind == IoErrorKind::ConnectionRefused)
    );
    // Out of time, a dial that never failed has timed out.
    let late = start.saturating_add(Duration::from_millis(100));
    assert!(
        matches!(dial_step(2, 0, deadline, late, None), DialStep::Fail(Error::Io(e)) if e.kind == IoErrorKind::TimedOut)
    );
    assert!(within(dial_step(1, 0, None, late, None), 0, None));
}

#[test]
fn poisoned_connection_is_not_reused() {
    assert!(matches!(frame(b"BOGUS\r\nHD\r\n"), Frame::Broken { error: Error::Protocol(_), used: 7 }));
    let (found, error) = responses(b"BOGUS\r\nHD\r\n", 2);
    assert!(found.is_empty() && matches!(error, Some(Error::Protocol(_))));
}

#[test]
fn framed_parse_error_keeps_connection() {
    // "cabc" is a complete response line with an unparsable CAS flag: the
    // decode fails but the stream stays synchronized.
    let received = b"HD cabc\r\nHD\r\n";
    let Frame::Complete { response, used } = frame(received) else { panic!("not framed") };
    let operation = Delete::new(b"foo");
    assert!(finish_operation(&operation, response).is_err());
    assert!(answered(&operation, &received[used..]).applied());
}

#[test]
fn client_stale_pooled_connection_is_discarded() {
    assert!(is_reusable(0, Probe::Quiet));
    // Closed by the server, a stray byte, a broken socket or left-over bytes.
    assert!(!is_reusable(0, Probe::Closed));
    assert!(!is_reusable(0, Probe::Stray));
    assert!(!is_reusable(0, Probe::Failed));
    assert!(!is_reusable(1, Probe::Quiet));
    // A pooled connection that dies before the first byte is dialed again
    // once; the fresh one is not.
    let reset = || Error::Io(IoError::from_kind(IoErrorKind::ConnectionReset));
    assert!(matches!(exchange_step(true, 0, reset()), ExchangeStep::Redial));
    assert!(matches!(exchange_step(false, 0, reset()), ExchangeStep::Fail(f) if f.written == 0));
    assert!(matches!(exchange_step(true, 1, reset()), ExchangeStep::Fail(f) if f.written == 1));
    assert!(matches!(exchange_step(true, 0, Error::protocol("x")), ExchangeStep::Fail(_)));
    assert!(matches!(batch_step(true, Vec::new(), Some(reset()), 0), BatchStep::Redial));
}

#[test]
fn max_idle_zero_never_reuses() {
    let now = SystemTime::unix_epoch();
    let mut idle: IdleStack<u32> = IdleStack::new();
    assert_eq!(idle.put_back(7, now, 0), Some(7));
    assert_eq!(idle.take(now, Duration::from_secs(90)), None);
    assert_eq!(idle.put_back(7, now, 1), None);
    assert_eq!(idle.put_back(8, now, 1), Some(8));
    assert_eq!(idle.take(now, Duration::from_secs(90)), Some(7));
    assert_eq!(idle.take(now, Duration::from_secs(90)), None);
}

#[test]
fn plain_read_timeout_is_not_ambiguous() {
    let command = prepare(&Get::new(b"foo")).unwrap();
    let payload = command.encode().unwrap().len();
    let failure = Failure { error: timed_out(), written: payload };
    let error = attribute_command(&failure, b"foo", &command, payload);
    assert!(matches!(error, Error::Timeout { .. }), "{error:?}");
    assert!(error.is_retryable());
    // A socket may say that it would block when its limit is reached.
    let error = socket_error(IoError::from_kind(IoErrorKind::WouldBlock));
    assert!(matches!(error.for_key(b"foo"), Error::Timeout { .. }));
    let error = socket_error(IoError::from_kind(IoErrorKind::ConnectionReset));
    assert!(matches!(error, Error::Io(e) if e.kind == IoErrorKind::ConnectionReset));
}

#[test]
fn batch_failure_is_attributed_per_command() {
    // The first command is answered, then the stream closes: the rest were
    // written in full, so the side-effecting ones are ambiguous and the plain
    // read is not.
    let (_, results) = run_batch(
        vec![Delete::new(b"a").into(), Delete::new(b"b").into(), Get::new(b"c").into()],
        b"HD O0\r\n",
    );
    assert!(results[0].as_ref().unwrap().as_mutation().unwrap().applied());
    let second = results[1].as_ref().unwrap_err();
    assert!(matches!(second, Error::Ambiguous { key, .. } if key == b"b"), "{second:?}");
    let third = results[2].as_ref().unwrap_err();
    assert!(matches!(third, Error::Io(_)), "{third:?}");
}

#[test]
fn misordered_batch_response_poisons_the_connection() {
    let (_, results) = run_batch(
        vec![Delete::new(b"a").into(), Delete::new(b"b").into()],
        b"HD O1\r\nNF O0\r\n",
    );
    for result in &results {
        let error = result.as_ref().unwrap_err();
        assert!(error.is_ambiguous(), "{error:?}");
        assert!(matches!(error, Error::Ambiguous { source, .. } if source.to_string().contains("opaque")));
        assert!(error.has_source());
    }
}

#[test]
fn responses_in_order_are_kept() {
    let (found, error) = responses(b"HD O0\r\nNF O1\r\n", 3);
    let (kept, error) = check_batch(found, error);
    assert_eq!(kept.len(), 2);
    assert!(matches!(error, Some(Error::Io(_))));
    let (found, error) = responses(b"HD O0\r\nNF\r\n", 2);
    assert!(error.is_none());
    let (kept, error) = check_batch(found, error);
    assert!(kept.is_empty() && matches!(error, Some(Error::Protocol(_))));
}

#[test]
fn partial_batch_responses_are_order_checked() {
    // Two swapped responses, then the connection drops: the two must not be
    // paired with the wrong commands just because the third never came.
    let (_, results) = run_batch(
        vec![Delete::new(b"a").into(), Delete::new(b"b").into(), Delete::new(b"c").into()],
        b"HD O1\r\nNF O0\r\n",
    );
    for result in &results {
        let error = result.as_ref().unwrap_err();
        assert!(error.is_ambiguous(), "{error:?}");
        assert!(matches!(error, Error::Ambiguous { source, .. } if source.to_string().contains("opaque")));
    }
}

#[test]
fn old_idle_connections_are_not_reused() {
    let start = SystemTime::unix_epoch().saturating_add(Duration::from_secs(1000));
    let age = Duration::from_millis(50);
    let mut idle: IdleStack<u32> = IdleStack::new();
    assert_eq!(idle.put_back(1, start, 8), None);
    assert_eq!(idle.take(start.saturating_add(Duration::from_millis(100)), age), None);
    // The old one is gone for good.
    assert_eq!(idle.take(start, age), None);
    assert_eq!(idle.put_back(2, start, 8), None);
    assert_eq!(idle.take(start.saturating_add(age), age), Some(2));
}

#[test]
fn max_connections_bounds_the_pool() {
    let mut slots = Slots::new();
    let left = Some(Duration::from_millis(200));
    assert!(matches!(slots.acquire(Some(1), left), SlotStep::Take));
    // Exhausted: the second checkout waits instead of dialing.
    assert!(matches!(slots.acquire(Some(1), left), SlotStep::Wait(l) if l == left));
    assert!(matches!(slots.acquire(Some(1), None), SlotStep::Wait(None)));
    let SlotStep::Exhausted(error) = slots.acquire(Some(1), Some(Duration::zero())) else { panic!("not exhausted") };
    assert!(matches!(&error, Error::Io(e) if e.kind == IoErrorKind::TimedOut && e.message == "connection pool exhausted"));
    assert!(matches!(error.for_key(b"b"), Error::Timeout { key } if key == b"b"));
    // A slot freed is a slot taken.
    slots.release();
    assert!(matches!(slots.acquire(Some(1), left), SlotStep::Take));
    assert!(matches!(slots.acquire(None, None), SlotStep::Take));
}

#[test]
fn framing_waits_for_the_whole_block() {
    assert!(matches!(frame(b""), Frame::Partial));
    assert!(matches!(frame(b"VA 3 f0\r\nba"), Frame::Partial));
    assert!(matches!(frame(b"VA 3 f0\r\nbar\r"), Frame::Partial));
    assert!(
        matches!(frame(b"VA 3 f0\r\nbar\r\nHD\r\n"), Frame::Complete { response, used: 14 } if response.value() == Some(&b"bar"[..]))
    );
    assert!(
        matches!(frame(b"VA 3 f0\r\nbarXX"), Frame::Broken { error: Error::Protocol(m), used: 14 } if m == "data block missing CRLF terminator")
    );
    // A bare line feed ends a line too.
    assert!(matches!(frame(b"HD\n"), Frame::Complete { used: 3, .. }));
    assert!(matches!(end_of_stream(), Error::Io(e) if e.kind == IoErrorKind::UnexpectedEof));
}

#[test]
fn sending_counts_what_the_socket_took() {
    let mut sending = Sending::new(10);
    assert!(!sending.is_done());
    sending.advance(4).unwrap();
    assert_eq!(sending.written, 4);
    assert!(matches!(sending.advance(0), Err(Error::Io(e)) if e.kind == IoErrorKind::WriteZero));
    sending.advance(6).unwrap();
    assert!(sending.is_done() && sending.written == 10);
    assert!(Sending::new(0).is_done());
}

#[test]
fn payloads_follow_each_other() {
    let commands = vec![prepare(&Get::new(b"a")).unwrap(), prepare(&Delete::new(b"b")).unwrap()];
    assert_eq!(encode_payload(&commands).unwrap(), b"mg a v f\r\nmd b\r\n");
    let commands = vec![prepare(&Delete::new(b"")).unwrap()];
    assert!(matches!(encode_payload(&commands), Err(Error::Usage(_))));
    assert!(matches!(Batch::new(&commands), Err(Error::Usage(_))));
}

#[test]
fn unsendable_commands_fail_alone() {
    let entries = vec![
        (b"a".to_vec(), prepare(&Delete::new(b"a")).unwrap()),
        (b"".to_vec(), prepare(&Delete::new(b"")).unwrap()),
        (b"c".to_vec(), prepare(&Delete::new(b"c")).unwrap()),
    ];
    let plan = BatchPlan::new(entries, vec![0, 0, 0], 1);
    assert_eq!(plan.groups, vec![vec![0, 2]]);
    assert_eq!(plan.batches[0].payload, b"md a O0\r\nmd c O1\r\n");
    let reply = reply(&plan.batches[0], b"HD O0\r\nNF O1\r\n");
    let results = plan.collect(vec![reply]);
    assert!(results[0].as_ref().unwrap().ok());
    assert!(matches!(results[1], Err(Error::Usage(_))));
    assert!(!results[2].as_ref().unwrap().ok());
    // A server that was not asked has nothing to say.
    assert!(Reply::none().responses.is_empty() && Reply::none().failure.is_none());
}

#[test]
fn failures_stay_with_their_server() {
    let entries = || {
        vec![
            (b"a".to_vec(), prepare(&Delete::new(b"a")).unwrap()),
            (b"b".to_vec(), prepare(&Delete::new(b"b")).unwrap()),
        ]
    };
    let failed = || Reply { responses: Vec::new(), failure: Some(Failure { error: timed_out(), written: 0 }) };
    let healthy = BatchPlan::new(entries(), vec![0, 1], 2);
    let first = reply(&healthy.batches[0], b"HD O0\r\n");
    let second = reply(&healthy.batches[1], b"HD O0\r\n");
    assert!(healthy.collect(vec![first, second]).iter().all(Result::is_ok));
    let broken = BatchPlan::new(entries(), vec![0, 1], 2);
    let first = reply(&broken.batches[0], b"HD O0\r\n");
    let results = broken.collect(vec![first, failed()]);
    assert!(results[0].is_ok());
    assert!(matches!(&results[1], Err(Error::Timeout { key }) if key == b"b"));
}

struct Length;

impl HashFunction for Length {
    fn hash(&self, key: &[u8]) -> u64 {
        key.len() as u64
    }
}

#[test]
fn builders_change_one_setting_at_a_time() {
    let engine = MetaClientBuilder::default().engine;
    assert_eq!(engine, Engine::default());
    assert_eq!(engine.connect_timeout, Some(Duration::from_secs(1)));
    assert_eq!(engine.io_timeout, Some(Duration::from_secs(1)));
    assert_eq!((engine.max_idle, engine.max_idle_age), (8, Duration::from_secs(90)));
    assert_eq!(engine.max_connections, None);

    let builder = MetaClientBuilder::new()
        .max_idle(16)
        .max_idle_age(Duration::from_secs(5))
        .max_connections(Some(4))
        .connect_timeout(None)
        .io_timeout(Some(Duration::from_millis(200)))
        .hash_function(Length);
    assert_eq!(
        builder.engine,
        Engine {
            connect_timeout: None,
            io_timeout: Some(Duration::from_millis(200)),
            max_idle: 16,
            max_idle_age: Duration::from_secs(5),
            max_connections: Some(4),
        }
    );
    assert_eq!(builder.router.hash_function.hash(b"abc"), 3);
    // A cap of zero is no cap.
    assert_eq!(builder.max_connections(Some(0)).engine.max_connections, None);
    assert_eq!(
        Rendezvous::with_hash_function(Length).route(b"abc", &two()),
        Rendezvous::with_hash_function(Length).route(b"xyz", &two())
    );
}

#[test]
fn requests_forward_to_their_operations() {
    let client = ();
    let get = Request::new(&client, Get::new(b"k"))
        .meta(Meta::all())
        .touch(Ttl::secs(9))
        .no_lru_bump()
        .unless_cas(5)
        .into_operation();
    assert_eq!(wire(&get), wire(&Get::new(b"k").meta(Meta::all()).touch(Ttl::secs(9)).no_lru_bump().unless_cas(5)));
    let lease = Request::new(&client, Get::new(b"k")).lease_ttl(30).refresh_before(10).into_operation();
    assert_eq!(wire(&lease), wire(&Get::new(b"k").lease_ttl(30).refresh_before(10)));
    let probe = Request::new(&client, Get::new(b"k")).without_value().meta(Meta::none().cas()).into_operation();
    assert_eq!(wire(&probe), "mg k f c\r\n");

    let store = Request::new(&client, Store::new(b"k", b"v"))
        .ttl(Ttl::secs(9))
        .client_flags(16)
        .compare_cas(7)
        .force_cas(8)
        .return_cas()
        .into_operation();
    assert_eq!(
        wire(&store),
        wire(&Store::new(b"k", b"v").ttl(Ttl::secs(9)).client_flags(16).compare_cas(7).force_cas(8).return_cas())
    );
    for (request, mode) in [
        (Request::new(&client, Store::new(b"k", b"v")).add(), SetMode::Add),
        (Request::new(&client, Store::new(b"k", b"v")).replace(), SetMode::Replace),
        (Request::new(&client, Store::new(b"k", b"v")).append(), SetMode::Append),
        (Request::new(&client, Store::new(b"k", b"v")).prepend(), SetMode::Prepend),
        (Request::new(&client, Store::new(b"k", b"v")).mode(SetMode::Store), SetMode::Store),
    ] {
        assert_eq!(request.into_operation().mode, mode);
    }
    let vivify = Request::new(&client, Store::new(b"k", b"v")).append().vivify_ttl(60).into_operation();
    assert_eq!(vivify.vivify_ttl, Some(60));

    let delete = Request::new(&client, Delete::new(b"k")).compare_cas(7).invalidate().stale_for(Ttl::secs(3));
    assert_eq!(wire(&delete.into_operation()), "md k I C7 T3\r\n");

    let counter = Request::new(&client, Arithmetic::new(b"k"))
        .delta(3)
        .decrement()
        .initial(5, 60)
        .ttl(Ttl::secs(9))
        .compare_cas(7)
        .force_cas(8)
        .return_cas()
        .return_ttl()
        .into_operation();
    assert_eq!(
        wire(&counter),
        wire(
            &Arithmetic::new(b"k")
                .delta(3)
                .decrement()
                .initial(5, 60)
                .ttl(Ttl::secs(9))
                .compare_cas(7)
                .force_cas(8)
                .return_cas()
                .return_ttl()
        )
    );
}

#[test]
fn a_stored_value_is_read() {
    let store = Store::new(b"k\x00y", &[0, 1, 2, 13, 10]).client_flags(3);
    assert_eq!(
        prepare(&store).unwrap().encode().unwrap(),
        b"ms awB5 5 F3 b\r\n\x00\x01\x02\r\n\r\n".to_vec()
    );
    let read = answered(&Get::new(b"k\x00y"), b"VA 5 f3 b\r\n\x00\x01\x02\r\n\r\n");
    assert_eq!(read.value, Some(vec![0, 1, 2, 13, 10]));
    assert_eq!(read.client_flags, Some(3));
    assert!(parse_meta_result(response(b"EN\r\n")).unwrap().value.is_none());
}

#[test]
fn raw_ttls_pass_untouched() {
    assert_eq!(wire(&Get::new(b"k").touch_raw(0)), "mg k v f T0\r\n");
    assert_eq!(wire(&Store::new(b"k", b"v").ttl_raw(0)), "ms k 1 T0\r\nv\r\n");
    assert_eq!(wire(&Delete::new(b"k").invalidate().stale_for_raw(4_000_000_000)), "md k I T4000000000\r\n");
    assert_eq!(wire(&Arithmetic::new(b"k").ttl_raw(7)), "ma k v D1 T7\r\n");
    // The checked form refuses what the raw one lets through.
    assert!(matches!(prepare(&Get::new(b"k").touch(Ttl::secs(0))), Err(Error::Usage(_))));
}

#[test]
fn responses_hand_over_their_value() {
    let read = response(b"VA 3 f0\r\nbar\r\n");
    assert_eq!(read.flags(), &vec![b"f0".to_vec()]);
    assert_eq!(read.duplicate().into_value(), Some(b"bar".to_vec()));
    assert_eq!(response(b"EN\r\n").into_value(), None);
}
