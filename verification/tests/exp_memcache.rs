//! The verbs of the scenario clients, with the bytes of the server written
//! down.

use std::sync::Arc;

use memcache::exp::error::CallbackError;
use memcache::exp::many::{plan_delete_many_at, plan_get_many_at, plan_set_many_at};
use memcache::exp::memcache::{
    fetch_action, finish_reads, finish_writes, lead_step, refresh_bound, refresh_step, take_probe, take_verdict,
    update_probe, update_verdict, update_write_at, write_back_report, FetchAction, Flights, Policy, RefreshStep,
    RefreshStart, Refreshed, Refreshes, Settled, TakeProbe, UpdateWrite, Verdict, WriteVerb,
};
use memcache::exp::scenario::{
    encode_value, finish_concat, finish_counter, finish_get, finish_inspect, finish_set, finish_store, grace_ttl,
    plan_concat, plan_counter, plan_election, plan_erase, plan_get, plan_give_back, plan_inspect, plan_probe,
    plan_release_lease, plan_store, plan_touch, plan_write_back, read_view, StaleWin, Token,
};
use memcache::exp::verb::Verb;
use memcache::exp::{
    parse_meta_result, Encoded, Error, ErrorEvent, ErrorKind, Json, MemcacheBuilder, MetaCommand, MetaCommandResult,
    MetaResponse, SetMode, Ttl, FLAG_INT, FLAG_JSON, FLAG_STR,
};
use memcache::io::{IoError, IoErrorKind};
use memcache::time::{Duration, SystemTime};

fn answer(header: &[u8], value: Option<&[u8]>) -> Result<MetaCommandResult, Error> {
    let mut response = MetaResponse::parse_header(header).unwrap();
    response.value = value.map(|value| value.to_vec());
    parse_meta_result(response)
}

fn wire(command: Result<MetaCommand, Error>) -> String {
    String::from_utf8(command.unwrap().encode().unwrap()).unwrap()
}

fn refused() -> Error {
    Error::Io(IoError::from_kind(IoErrorKind::ConnectionRefused))
}

fn callback(message: &str) -> Error {
    let cause = std::io::Error::other(message.to_string());
    Error::Callback(CallbackError::new(std::io::Error::other(cause)))
}

const DEGRADE: Policy = Policy { degrade: true };

const STRICT: Policy = Policy { degrade: false };

fn now() -> SystemTime {
    SystemTime::unix_epoch().saturating_add(Duration::from_secs(1_700_000_000))
}

fn read<T: memcache::exp::Decode>(header: &[u8], value: Option<&[u8]>) -> Result<Option<T>, Error> {
    finish_get(read_view(answer(header, value).unwrap()).unwrap())
}

#[test]
fn object_cache_roundtrip() {
    assert_eq!(wire(plan_get(b"k", None)), "mg k v f c t\r\n");
    assert_eq!(read::<String>(b"EN", None).unwrap(), None);
    let hello = encode_value("hello").unwrap();
    assert_eq!(hello.flags, FLAG_STR);
    assert_eq!(wire(plan_store(b"k", &hello, Ttl::secs(60), SetMode::Store, None)), "ms k 5 F16 T60\r\nhello\r\n");
    finish_set(&answer(b"HD", None).unwrap()).unwrap();
    assert_eq!(read::<String>(b"VA 5 f16 c1 t60", Some(b"hello")).unwrap().as_deref(), Some("hello"));

    let number = encode_value(42u64).unwrap();
    assert_eq!(number, Encoded::new(b"42", FLAG_INT));
    assert_eq!(read::<u64>(b"VA 2 f2 c2 t60", Some(b"42")).unwrap(), Some(42));
    assert!(matches!(read::<u8>(b"VA 2 f2 c2 t60", Some(b"42")), Ok(Some(42))));
    assert!(matches!(read::<u64>(b"VA 4 f16 c3 t60", Some(b"text")), Err(Error::Decode(_))));

    assert_eq!(wire(plan_erase(b"k", None, None)), "md k\r\n");
    assert_eq!(read::<Vec<u8>>(b"EN", None).unwrap(), None);
}

#[test]
fn zero_byte_rule() {
    assert!(matches!(encode_value(""), Err(Error::EmptyValue)));
    assert!(matches!(encode_value(Vec::<u8>::new()), Err(Error::EmptyValue)));
    // A zero-byte item stored through the protocol layer reads as a miss.
    assert_eq!(read::<String>(b"VA 0 f0 c9 t-1", Some(b"")).unwrap(), None);
    assert!(matches!(
        take_probe::<String>(answer(b"VA 0 f0 c9 t-1", Some(b""))).unwrap(),
        TakeProbe::Nothing(None)
    ));
}

#[test]
fn usage_errors() {
    let value = encode_value("x").unwrap();
    assert!(matches!(plan_store(b"k", &value, Ttl::secs(0), SetMode::Store, None), Err(Error::Usage(_))));
    let unnamed = plan_store(b"", &value, Ttl::secs(60), SetMode::Store, None).unwrap();
    assert!(matches!(unnamed.validate(), Err(Error::Usage(_))));
    assert!(matches!(plan_get(&[b'x'; 251], None).unwrap().validate(), Err(Error::Usage(_))));
    assert!(matches!(grace_ttl(Duration::zero()), Err(Error::Usage(_))));
    assert!(matches!(plan_concat(b"k", b"", Ttl::secs(60), false), Err(Error::Usage(_))));
    let freshness = Ttl::secs(10).refresh_ahead(Duration::from_secs(10));
    assert!(matches!(plan_election(b"k", freshness), Err(Error::Usage(_))));
}

#[test]
fn many_family() {
    let results = vec![
        answer(b"VA 1 f16 c1 t60", Some(b"a")),
        answer(b"EN", None),
        answer(b"VA 1 f16 c2 t60 X W", Some(b"b")),
    ];
    let reads = finish_reads::<String>(&STRICT, results);
    assert_eq!(reads.found, vec![(0, "a".to_string()), (2, "b".to_string())]);
    assert_eq!(reads.wins, vec![(2, StaleWin { cas: 2, ttl: Some(60) })]);
    assert!(reads.reports.is_empty() && reads.failed.is_none());

    let writes = vec![answer(b"HD", None), answer(b"HD", None)];
    assert!(finish_writes(&STRICT, WriteVerb::Store, &writes).failed.is_none());
    let deletes = vec![answer(b"HD", None), answer(b"NF", None)];
    assert!(finish_writes(&STRICT, WriteVerb::Delete, &deletes).failed.is_none());
    let unstored = vec![answer(b"HD", None), answer(b"NS", None)];
    assert!(matches!(finish_writes(&STRICT, WriteVerb::Store, &unstored).failed, Some(Error::Protocol(_))));
    assert!(matches!(encode_value(""), Err(Error::EmptyValue)));
}

fn wires(entries: Vec<(Vec<u8>, MetaCommand)>) -> Vec<(String, String)> {
    entries
        .into_iter()
        .map(|(key, command)| (String::from_utf8(key).unwrap(), wire(Ok(command))))
        .collect()
}

#[test]
fn many_keys_are_planned_in_order() {
    let keys = vec![b"a".to_vec(), b"b".to_vec()];
    let planned = wires(plan_get_many_at(&keys, now()).unwrap());
    assert_eq!(planned.len(), 2);
    assert_eq!(planned[0], ("a".to_string(), wire(plan_get(b"a", None))));
    assert_eq!(planned[1], ("b".to_string(), wire(plan_get(b"b", None))));
    let planned = wires(plan_delete_many_at(&keys, now()).unwrap());
    assert_eq!(planned[0], ("a".to_string(), "md a\r\n".to_string()));
    assert_eq!(planned[1].1, wire(plan_erase(b"b", None, None)));
    let pairs = vec![(b"a".to_vec(), "x"), (b"b".to_vec(), "y")];
    let planned = wires(plan_set_many_at(&pairs, Ttl::secs(60), now()).unwrap());
    let encoded = encode_value("y").unwrap();
    assert_eq!(planned[1].0, "b");
    assert_eq!(planned[1].1, wire(plan_store(b"b", &encoded, Ttl::secs(60), SetMode::Store, None)));
    assert!(plan_get_many_at(&Vec::new(), now()).unwrap().is_empty());
}

#[test]
fn the_first_refusal_stops_the_plan() {
    let pairs = vec![(b"a".to_vec(), "x"), (b"b".to_vec(), "")];
    assert!(matches!(plan_set_many_at(&pairs, Ttl::secs(60), now()), Err(Error::EmptyValue)));
    // The lifetime of the first pair is looked at before the second value.
    assert!(matches!(plan_set_many_at(&pairs, Ttl::secs(0), now()), Err(Error::Usage(_))));
    let pairs = vec![(b"a".to_vec(), ""), (b"b".to_vec(), "y")];
    assert!(matches!(plan_set_many_at(&pairs, Ttl::secs(0), now()), Err(Error::EmptyValue)));
}

#[test]
fn the_first_failure_fails_the_call() {
    let results = || vec![answer(b"HD", None), Err(refused()), Err(Error::Server("busy".to_string()))];
    let writes = finish_writes(&STRICT, WriteVerb::Delete, &results());
    assert!(writes.reports.is_empty());
    assert!(matches!(writes.failed, Some(Error::Io(_))));
    // In degrade mode both are reported and neither fails the call.
    let writes = finish_writes(&DEGRADE, WriteVerb::Delete, &results());
    assert_eq!(writes.reports.iter().map(|(position, _)| *position).collect::<Vec<_>>(), vec![1, 2]);
    assert!(writes.failed.is_none());

    let reads = finish_reads::<String>(&STRICT, results());
    assert!(matches!(reads.failed, Some(Error::Protocol(_)) | Some(Error::Io(_))));
    let reads = finish_reads::<u64>(&STRICT, vec![answer(b"VA 1 f16 c1 t60", Some(b"x"))]);
    assert!(matches!(reads.failed, Some(Error::Decode(_))));
    let failing = vec![Err(refused()), answer(b"VA 1 f2 c1 t60", Some(b"7"))];
    let reads = finish_reads::<u64>(&DEGRADE, failing);
    assert_eq!(reads.found, vec![(1, 7)]);
    assert_eq!(reads.reports.len(), 1);
    assert!(reads.failed.is_none());
}

#[test]
fn conditional_writes() {
    let value = encode_value("first").unwrap();
    assert_eq!(wire(plan_store(b"k", &value, Ttl::secs(60), SetMode::Add, None)), "ms k 5 ME F16 T60\r\nfirst\r\n");
    assert_eq!(
        wire(plan_store(b"k", &value, Ttl::secs(60), SetMode::Replace, None)),
        "ms k 5 MR F16 T60\r\nfirst\r\n"
    );
    assert!(finish_store(&answer(b"HD", None).unwrap()).unwrap());
    assert!(!finish_store(&answer(b"NS", None).unwrap()).unwrap());
}

#[test]
fn sessions_touch_and_inspect() {
    assert_eq!(wire(plan_get(b"k", Some(Ttl::secs(1000)))), "mg k v f c t T1000\r\n");
    assert_eq!(wire(plan_inspect(b"k")), "mg k c t s l h u\r\n");
    let inspect = |header: &[u8]| finish_inspect(&read_view(answer(header, None).unwrap()).unwrap());
    assert!(inspect(b"EN").is_none());
    let info = inspect(b"HD c1 t1000 s7 l3 h1").unwrap();
    assert_eq!(info.ttl, Some(Duration::from_secs(1000)));
    assert_eq!((info.size, info.last_access, info.hit_before), (7, Duration::from_secs(3), true));
    assert_eq!(wire(plan_touch(b"k", Ttl::never())), "mg k c t T0\r\n");
    assert_eq!(inspect(b"HD c1 t-1 s7 l3 h1").unwrap().ttl, None);
}

#[test]
fn counters() {
    assert_eq!(wire(plan_counter(b"k", 5, false, Ttl::secs(60))), "ma k v D5 N60 J5\r\n");
    assert_eq!(finish_counter(&answer(b"VA 1", Some(b"5")).unwrap()).unwrap(), 5);
    assert_eq!(wire(plan_counter(b"k", 10, true, Ttl::never())), "ma k MD v D10 N0 J0\r\n");
    assert_eq!(finish_counter(&answer(b"VA 1", Some(b"0")).unwrap()).unwrap(), 0);
    assert!(finish_counter(&answer(b"NF", None).unwrap()).is_err());
}

#[test]
fn byte_streams() {
    assert_eq!(wire(plan_concat(b"k", b"a;", Ttl::secs(60), false)), "ms k 2 MA N60\r\na;\r\n");
    assert_eq!(wire(plan_concat(b"k", b"0;", Ttl::secs(60), true)), "ms k 2 MP N60\r\n0;\r\n");
    finish_concat(&answer(b"HD", None).unwrap()).unwrap();
    let TakeProbe::Found { value, cas } =
        take_probe::<Vec<u8>>(answer(b"VA 6 f0 c8 t60", Some(b"0;a;b;"))).unwrap()
    else {
        panic!("nothing to take")
    };
    assert_eq!((value, cas), (b"0;a;b;".to_vec(), 8));
    assert_eq!(wire(plan_erase(b"k", None, Some(cas))), "md k C8\r\n");
    assert!(matches!(take_verdict(answer(b"HD", None), 0), Verdict::Done));
    assert!(matches!(take_probe::<Vec<u8>>(answer(b"EN", None)).unwrap(), TakeProbe::Nothing(None)));
}

#[test]
fn update_transforms() {
    assert_eq!(wire(plan_probe(b"k")), "mg k v f c t\r\n");
    // A miss is added to, an item is replaced through its version.
    let miss = update_probe::<u64>(answer(b"EN", None)).unwrap();
    assert_eq!((miss.current, miss.compare_cas, miss.stale_win), (None, None, None));
    let UpdateWrite::Send { command, next: 1 } = update_write_at(b"k", Ok(1u64), Ttl::secs(60), None, None, now()) else {
        panic!("refused")
    };
    assert_eq!(wire(Ok(command)), "ms k 1 ME F2 T60\r\n1\r\n");
    let hit = update_probe::<u64>(answer(b"VA 1 f2 c9 t60", Some(b"1"))).unwrap();
    assert_eq!((hit.current, hit.compare_cas), (Some(1), Some(9)));
    let UpdateWrite::Send { command, next: 2 } = update_write_at(b"k", Ok(2u64), Ttl::secs(60), Some(9), None, now()) else {
        panic!("refused")
    };
    assert_eq!(wire(Ok(command)), "ms k 1 F2 T60 C9\r\n2\r\n");
    let win = Some(StaleWin { cas: 9, ttl: Some(60) });

    assert!(matches!(
        update_write_at(b"k", Ok(""), Ttl::secs(60), Some(9), win, now()),
        UpdateWrite::Fail { error: Error::EmptyValue, give_back } if give_back == win
    ));
    assert!(matches!(
        update_write_at(b"k", Ok("x"), Ttl::secs(0), Some(9), win, now()),
        UpdateWrite::Fail { error: Error::Usage(_), give_back: None }
    ));
    // A transform that fails writes nothing, and the win of the probe goes back.
    let UpdateWrite::Fail { error, give_back } =
        update_write_at::<String>(b"k", Err(callback("nope")), Ttl::secs(60), Some(9), win, now())
    else {
        panic!("written")
    };
    assert!(error.callback::<std::io::Error>().is_some());
    assert_eq!(give_back, win);

    // Lost races are retried up to the bound.
    assert!(matches!(update_verdict(answer(b"HD", None), 0), Verdict::Done));
    for attempt in 0..7 {
        assert!(matches!(update_verdict(answer(b"EX", None), attempt), Verdict::Retry));
    }
    assert!(matches!(update_verdict(answer(b"EX", None), 7), Verdict::Fail(Error::Conflict)));
    assert!(matches!(update_verdict(Err(refused()), 0), Verdict::Fail(Error::Io(_))));
    assert!(matches!(take_verdict(answer(b"EX", None), 7), Verdict::Fail(Error::Conflict)));
}

#[test]
fn update_and_take_treat_stale_as_miss_and_return_the_token() {
    let stale = || answer(b"VA 3 f16 c7 t40 X W", Some(b"old"));
    // Plain reads keep serving the stale value.
    assert_eq!(read::<String>(b"VA 3 f16 c7 t40 X Z", Some(b"old")).unwrap().as_deref(), Some("old"));
    let TakeProbe::Nothing(Some(win)) = take_probe::<String>(stale()).unwrap() else { panic!("took stale data") };
    assert_eq!(wire(plan_give_back(b"k", Token::Win(win))), "md k I C7 T40\r\n");
    let probe = update_probe::<String>(stale()).unwrap();
    assert_eq!(probe.current, None);
    assert_eq!(probe.compare_cas, Some(7));
    assert_eq!(probe.stale_win, Some(win));
}

fn action(policy: &Policy, attempt: usize, header: &[u8], value: Option<&[u8]>) -> FetchAction {
    fetch_action(policy, attempt, false, answer(header, value))
}

#[test]
fn fetch_computes_once_and_writes_back() {
    let FetchAction::Lead { cas } = action(&STRICT, 0, b"VA 0 f0 c5 t30 W", Some(b"")) else { panic!("not elected") };
    let computed = encode_value("computed").unwrap();
    let step = lead_step(&Ok(computed.clone()), Some(cas), Some(Token::Lease { cas }));
    assert_eq!((step.write_back, step.give_back, step.report), (Some(5), None, false));
    assert_eq!(
        wire(plan_write_back(b"k", &computed, Ttl::secs(60), cas)),
        "ms k 8 F16 T60 C5\r\ncomputed\r\n"
    );
    assert!(write_back_report(answer(b"HD", None)).is_none());
    assert!(
        matches!(action(&STRICT, 0, b"VA 8 f16 c6 t60", Some(b"computed")), FetchAction::Serve { value, flags: 16 } if value == b"computed")
    );
}

#[test]
fn a_write_back_never_resurrects_dead_data() {
    // Deleted or rewritten during the recomputation: abandoned and reported.
    let abandoned = write_back_report(answer(b"NF", None)).unwrap();
    assert!(abandoned.to_string().contains("abandoned"), "{abandoned:?}");
    assert!(matches!(write_back_report(answer(b"EX", None)), Some(Error::Protocol(_))));
    assert!(matches!(write_back_report(Err(refused())), Some(Error::Io(_))));
}

#[test]
fn fetch_loader_error_releases_the_lease() {
    let step = lead_step(&Err(callback("db down")), Some(5), Some(Token::Lease { cas: 5 }));
    assert_eq!((step.write_back, step.give_back, step.report), (None, Some(Token::Lease { cas: 5 }), false));
    assert_eq!(wire(plan_give_back(b"k", Token::Lease { cas: 5 })), "md k C5\r\n");
    assert_eq!(wire(plan_release_lease(b"k", 5)), "md k C5\r\n");
}

#[test]
fn fetch_empty_loader_result() {
    let step = lead_step(&Err(Error::EmptyValue), Some(5), Some(Token::Lease { cas: 5 }));
    assert!(step.report);
    assert_eq!(step.give_back, Some(Token::Lease { cas: 5 }));
}

#[test]
fn fetch_in_process_singleflight() {
    let mut flights: Flights<u32> = Flights::new();
    let (first, ticket) = flights.claim(b"k", Arc::new(1));
    let ticket = ticket.expect("the first leads");
    assert_eq!(*first, 1);
    // The rest share the flight of the first.
    let (second, none) = flights.claim(b"k", Arc::new(2));
    assert!(none.is_none() && *second == 1);
    assert!(flights.claim(b"other", Arc::new(3)).1.is_some());
    assert_eq!(flights.existing(b"k").map(|flight| *flight), Some(1));
    flights.forget(b"k", ticket);
    assert!(flights.existing(b"k").is_none());
    assert_eq!(flights.existing(b"other").map(|flight| *flight), Some(3));
    // An old ticket ends no later flight.
    let (_, later) = flights.claim(b"k", Arc::new(4));
    flights.forget(b"k", ticket);
    assert_eq!(flights.existing(b"k").map(|flight| *flight), Some(4));
    flights.forget(b"k", later.expect("leads again"));
    assert!(flights.existing(b"k").is_none());
    // A loser of this process joins instead of waiting for the server.
    let busy = || answer(b"VA 0 f0 c5 t30 Z", Some(b""));
    assert!(matches!(fetch_action(&STRICT, 0, true, busy()), FetchAction::Join));
}

#[test]
fn fetch_waiters_share_the_loader_error_and_survive_a_panic() {
    let error = callback("fetch loader panicked");
    let shared = error.duplicate();
    assert!(matches!(shared, Error::Callback(_)));
    assert_eq!(shared.to_string(), error.to_string());
}

#[test]
fn fetch_stale_grace_elects_one_refresher() {
    // The winner recomputes, the rest keep the old value.
    let FetchAction::Refresh { value, win, .. } = action(&STRICT, 0, b"VA 3 f16 c7 t40 X W", Some(b"old")) else {
        panic!("not elected")
    };
    assert_eq!((value, win), (b"old".to_vec(), StaleWin { cas: 7, ttl: Some(40) }));
    assert!(
        matches!(action(&STRICT, 0, b"VA 3 f16 c7 t40 X Z", Some(b"old")), FetchAction::Serve { value, .. } if value == b"old")
    );
    // A refresh that failed leaves the token to run out on its own.
    let step = lead_step(&Err(callback("db down")), Some(7), None);
    assert_eq!((step.write_back, step.give_back), (None, None));
}

#[test]
fn fetch_refresh_ahead_recomputes_inside_the_window() {
    let freshness = Ttl::secs(100).refresh_ahead(Duration::from_secs(30));
    let (command, window) = plan_election(b"k", freshness).unwrap();
    assert_eq!(wire(Ok(command)), "mg k v f c t N30 R30\r\n");
    assert_eq!(refresh_bound(window), Duration::from_secs(30));
    assert_eq!(refresh_bound(Some(7)), Duration::from_secs(7));
    assert_eq!(refresh_bound(None), Duration::from_secs(30));
    assert!(matches!(action(&STRICT, 0, b"VA 1 f16 c7 t10 W", Some(b"v")), FetchAction::Refresh { .. }));
    assert!(matches!(action(&STRICT, 0, b"VA 1 f16 c8 t100", Some(b"v")), FetchAction::Serve { .. }));
}

#[test]
fn background_refreshes_report_what_went_wrong() {
    assert!(matches!(refresh_step(Refreshed::Shutdown), RefreshStep::Stop));
    assert!(matches!(
        refresh_step(Refreshed::Failed(callback("db down"))),
        RefreshStep::Report(ErrorKind::BackgroundLoader, Error::Callback(_))
    ));
    assert!(matches!(
        refresh_step(Refreshed::Loaded(Err(Error::EmptyValue))),
        RefreshStep::Report(ErrorKind::WriteBack, Error::EmptyValue)
    ));
    let value = encode_value("new").unwrap();
    assert!(matches!(refresh_step(Refreshed::Loaded(Ok(value.clone()))), RefreshStep::WriteBack(v) if v == value));
}

#[test]
fn fetch_replaces_a_real_zero_byte_item() {
    // Nobody holds the item and nobody was elected: it is replaced through
    // its version, without waiting.
    assert!(matches!(action(&STRICT, 0, b"VA 0 f0 c5 t-1", Some(b"")), FetchAction::Lead { cas: 5 }));
}

#[test]
fn test_memcache_fetch_waits_for_another_process_then_computes_locally() {
    let mut waited: u128 = 0;
    let mut attempt = 0;
    loop {
        match action(&STRICT, attempt, b"VA 0 f0 c5 t30 Z", Some(b"")) {
            FetchAction::Sleep(wait) => waited += wait.nanos / 1_000_000,
            FetchAction::Compute { report: None } => break,
            other => panic!("{other:?}"),
        }
        attempt += 1;
    }
    assert!((700..3000).contains(&waited), "{waited}");
    // Computed without a lease: nothing is written back.
    let step = lead_step(&encode_value("local"), None, None);
    assert_eq!((step.write_back, step.give_back, step.report), (None, None, false));
}

#[test]
fn test_memcache_degrade_folds_outages_into_misses() {
    let policy = MemcacheBuilder::new().degrade(true).policy;
    for error in [
        refused(),
        Error::Timeout { key: b"k".to_vec() },
        Error::protocol("x"),
        Error::Server("busy".to_string()),
    ] {
        assert!(policy.absorbs(&error), "{error:?}");
        assert!(!STRICT.absorbs(&error));
    }
    assert!(matches!(policy.settle(Verb::Get, Err(refused()), 5), Settled::Degraded { value: 5, error: Error::Io(_) }));
    assert!(matches!(policy.settle(Verb::Get, Ok(1), 5), Settled::Kept(Ok(1))));
    assert!(matches!(fetch_action(&policy, 0, false, Err(refused())), FetchAction::Compute { report: Some(Error::Io(_)) }));
    // Usage errors and unknown outcomes penetrate.
    let ambiguous = || Error::Ambiguous { key: b"k".to_vec(), source: Box::new(refused()) };
    for error in [
        Error::EmptyValue,
        Error::Usage("x"),
        Error::Conflict,
        Error::Rejected("x".to_string()),
        callback("x"),
        ambiguous(),
    ] {
        assert!(!policy.absorbs(&error), "{error:?}");
    }
    assert!(matches!(policy.settle::<u8>(Verb::Store, Err(Error::EmptyValue), 5), Settled::Kept(Err(Error::EmptyValue))));
    assert!(matches!(fetch_action(&policy, 0, false, Err(ambiguous())), FetchAction::Fail(Error::Ambiguous { .. })));
}

#[test]
fn without_degrade_outages_are_errors() {
    let policy = MemcacheBuilder::default().policy;
    assert!(!policy.degrade);
    let Settled::Kept(Err(error)) = policy.settle(Verb::Get, Err::<u8, Error>(refused()), 5) else { panic!("absorbed") };
    assert!(error.is_retryable(), "{error:?}");
    assert!(matches!(fetch_action(&policy, 0, false, Err(refused())), FetchAction::Fail(Error::Io(_))));
}

#[test]
fn encoded_values_pass_as_they_are() {
    let document = Json::<()>::tag(b"{\"name\":\"ann\"}".to_vec());
    assert_eq!(encode_value(document.clone()).unwrap(), document);
    assert_eq!(
        read::<Encoded>(b"VA 14 f32 c1 t60", Some(b"{\"name\":\"ann\"}")).unwrap(),
        Some(Encoded::new(b"{\"name\":\"ann\"}", FLAG_JSON))
    );
    assert!(matches!(encode_value(Encoded::new(b"", FLAG_JSON)), Err(Error::EmptyValue)));
}

#[test]
fn events_carry_what_happened() {
    let error = refused();
    let event = ErrorEvent::new(ErrorKind::Degraded, "get", b"k", &error);
    assert_eq!((event.kind, event.op, event.key), (ErrorKind::Degraded, "get", &b"k"[..]));
    assert!(matches!(event.error, Error::Io(_)));
    let builder = MemcacheBuilder::new()
        .timeout(None)
        .connect_timeout(Some(Duration::from_millis(200)))
        .max_idle(3);
    assert_eq!(builder.meta.engine.io_timeout, None);
    assert_eq!(builder.meta.engine.connect_timeout, Some(Duration::from_millis(200)));
    assert_eq!(builder.meta.engine.max_idle, 3);
}

#[test]
fn verbs_that_feed_a_decision_never_degrade() {
    let policy = MemcacheBuilder::new().degrade(true).policy;
    for verb in [Verb::Add, Verb::Replace, Verb::Update, Verb::Take, Verb::Incr, Verb::Decr] {
        assert!(!verb.degrades(), "{verb:?}");
        assert!(matches!(policy.settle(verb, Err(refused()), 5), Settled::Kept(Err(Error::Io(_)))));
    }
    for (verb, name) in [
        (Verb::Store, "set"),
        (Verb::StoreMany, "set_many"),
        (Verb::Delete, "delete"),
        (Verb::DeleteMany, "delete_many"),
        (Verb::Invalidate, "invalidate"),
        (Verb::Touch, "touch"),
        (Verb::Append, "append"),
        (Verb::Prepend, "prepend"),
        (Verb::GetMany, "get_many"),
        (Verb::Fetch, "fetch"),
    ] {
        assert!(verb.degrades(), "{verb:?}");
        assert_eq!(verb.name(), name);
        assert!(matches!(policy.settle(verb, Err(refused()), ()), Settled::Degraded { value: (), error: Error::Io(_) }));
    }
    for verb in [Verb::Get, Verb::GetTouch, Verb::GetAndTouch, Verb::Inspect] {
        let Settled::Degraded { value, error } = policy.settle_read(verb, Err(refused())) else { panic!("{verb:?}") };
        assert!(matches!(error, Error::Io(_)));
        assert!(finish_inspect(&value).is_none());
        assert_eq!(finish_get::<String>(value).unwrap(), None);
    }
    assert!(matches!(STRICT.settle_read(Verb::Get, Err(refused())), Settled::Kept(Err(Error::Io(_)))));
}

#[test]
fn one_background_refresh_per_key() {
    let mut refreshes = Refreshes::new();
    let win = |cas| StaleWin { cas, ttl: None };
    assert_eq!(refreshes.start(b"a", win(1)), RefreshStart::Run);
    assert_eq!(refreshes.start(b"a", win(2)), RefreshStart::HandBack(Token::Win(win(2))));
    assert_eq!(refreshes.start(b"b", win(3)), RefreshStart::Run);
    refreshes.end(b"b");
    assert_eq!(refreshes.start(b"a", win(4)), RefreshStart::HandBack(Token::Win(win(4))));
    refreshes.end(b"a");
    assert_eq!(refreshes.start(b"a", win(5)), RefreshStart::Run);
}
