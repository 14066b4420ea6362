//! The verbs of the scenario layer: plans, answers and state machines.

use memcache::exp::meta_command::MetaResponse;
use memcache::exp::scenario::{
    encode_value, fetch_step, finish_concat, finish_counter, finish_erase, finish_get, finish_inspect, finish_set,
    finish_store, grace_ttl, plan_concat, plan_counter, plan_election, plan_erase, plan_get, plan_give_back,
    plan_inspect, plan_probe, plan_release_lease, plan_return_win, plan_store, plan_touch, plan_write_back, read_view,
    take_step, update_step, wait_backoff, FetchStep, ReadView, TakeStep, Token,
};
use memcache::exp::{parse_meta_result, Encoded, Error, MetaCommand, MetaCommandResult, SetMode, Ttl};
use memcache::time::Duration;

fn view(header: &[u8], value: Option<&[u8]>) -> ReadView {
    let mut response = MetaResponse::parse_header(header).unwrap();
    response.value = value.map(|value| value.to_vec());
    read_view(parse_meta_result(response).unwrap()).unwrap()
}

fn wire(header: &[u8], value: Option<&[u8]>) -> MetaCommandResult {
    let mut response = MetaResponse::parse_header(header).unwrap();
    response.value = value.map(|value| value.to_vec());
    parse_meta_result(response).unwrap()
}

fn encoded(command: MetaCommand) -> String {
    String::from_utf8(command.encode().unwrap()).unwrap()
}

#[test]
fn plans_encode_expected_commands() {
    assert_eq!(encoded(plan_probe(b"k").unwrap()), "mg k v f c t\r\n");
    assert_eq!(encoded(plan_get(b"k", None).unwrap()), "mg k v f c t\r\n");
    assert_eq!(encoded(plan_get(b"k", Some(Ttl::secs(60))).unwrap()), "mg k v f c t T60\r\n");
    let value = Encoded::new(b"v", 16);
    assert_eq!(
        encoded(plan_store(b"k", &value, Ttl::secs(60), SetMode::Store, None).unwrap()),
        "ms k 1 F16 T60\r\nv\r\n"
    );
    assert_eq!(
        encoded(plan_store(b"k", &Encoded::new(b"v", 0), Ttl::never(), SetMode::Add, None).unwrap()),
        "ms k 1 ME T0\r\nv\r\n"
    );
    assert_eq!(
        encoded(plan_write_back(b"k", &value, Ttl::secs(5), 7).unwrap()),
        "ms k 1 F16 T5 C7\r\nv\r\n"
    );
    assert_eq!(encoded(plan_erase(b"k", None, None).unwrap()), "md k\r\n");
    assert_eq!(encoded(plan_erase(b"k", Some(Ttl::secs(30)), None).unwrap()), "md k I T30\r\n");
    assert_eq!(encoded(plan_release_lease(b"k", 7).unwrap()), "md k C7\r\n");
    assert_eq!(encoded(plan_touch(b"k", Ttl::secs(60)).unwrap()), "mg k c t T60\r\n");
    assert_eq!(encoded(plan_counter(b"k", 2, false, Ttl::secs(60)).unwrap()), "ma k v D2 N60 J2\r\n");
    assert_eq!(encoded(plan_counter(b"k", 2, true, Ttl::never()).unwrap()), "ma k MD v D2 N0 J0\r\n");
    assert_eq!(encoded(plan_concat(b"k", b"x", Ttl::secs(60), false).unwrap()), "ms k 1 MA N60\r\nx\r\n");
    assert_eq!(encoded(plan_concat(b"k", b"x", Ttl::secs(60), true).unwrap()), "ms k 1 MP N60\r\nx\r\n");
    assert!(matches!(plan_concat(b"k", b"", Ttl::secs(60), false), Err(Error::Usage(_))));
    assert_eq!(encoded(plan_inspect(b"k").unwrap()), "mg k c t s l h u\r\n");
}

#[test]
fn election_plan() {
    let (command, window) = plan_election(b"k", Ttl::secs(300).into()).unwrap();
    assert_eq!(encoded(command), "mg k v f c t N30\r\n");
    assert_eq!(window, None);
    let (command, window) = plan_election(b"k", Ttl::secs(300).refresh_ahead(Duration::from_secs(30))).unwrap();
    assert_eq!(encoded(command), "mg k v f c t N30 R30\r\n");
    assert_eq!(window, Some(30));
    assert!(matches!(
        plan_election(b"k", Ttl::never().refresh_ahead(Duration::from_secs(30))),
        Err(Error::Usage(_))
    ));
    assert!(matches!(plan_election(b"k", Ttl::secs(0).into()), Err(Error::Usage(_))));
}

#[test]
fn return_win_plan() {
    let win = view(b"VA 3 c7 t40 X W", Some(b"old")).stale_win().unwrap();
    assert_eq!(encoded(plan_return_win(b"k", win).unwrap()), "md k I C7 T40\r\n");
    assert_eq!(encoded(plan_give_back(b"k", Token::Win(win)).unwrap()), "md k I C7 T40\r\n");
    // An exhausted or unlimited remaining ttl sends no T.
    let win = view(b"VA 3 c7 t-1 X W", Some(b"old")).stale_win().unwrap();
    assert_eq!(encoded(plan_return_win(b"k", win).unwrap()), "md k I C7\r\n");
    assert!(view(b"VA 3 c7 t40 X Z", Some(b"old")).stale_win().is_none());
    assert!(view(b"VA 3 c7 t40 W", Some(b"old")).stale_win().is_none());
}

#[test]
fn get_folds_zero_bytes_to_miss() {
    assert_eq!(finish_get::<String>(view(b"EN", None)).unwrap(), None);
    assert_eq!(finish_get::<String>(view(b"VA 0 c7 W", Some(b""))).unwrap(), None);
    assert_eq!(finish_get::<String>(view(b"VA 0 c7", Some(b""))).unwrap(), None);
    assert_eq!(
        finish_get::<String>(view(b"VA 3 f16 c7", Some(b"bar"))).unwrap(),
        Some("bar".to_string())
    );
    // Stale values are served by plain reads.
    assert_eq!(
        finish_get::<String>(view(b"VA 3 c7 X Z", Some(b"old"))).unwrap(),
        Some("old".to_string())
    );
    assert!(matches!(finish_get::<u64>(view(b"VA 1 c7", Some(b"x"))), Err(Error::Decode(_))));
    assert!(matches!(read_view(wire(b"NS", None)), Err(Error::Protocol(_))));
}

#[test]
fn empty_value_rule() {
    assert!(matches!(encode_value(""), Err(Error::EmptyValue)));
    assert!(matches!(encode_value(Vec::<u8>::new()), Err(Error::EmptyValue)));
    assert_eq!(encode_value("x").unwrap(), Encoded::new(b"x", 16));
}

#[test]
fn store_and_erase_answers() {
    assert!(finish_store(&wire(b"HD", None)).unwrap());
    assert!(!finish_store(&wire(b"NS", None)).unwrap());
    assert!(!finish_store(&wire(b"EX", None)).unwrap());
    assert!(!finish_store(&wire(b"NF", None)).unwrap());
    assert!(finish_store(&wire(b"EN", None)).is_err());
    assert!(finish_erase(&wire(b"HD", None)).unwrap());
    assert!(!finish_erase(&wire(b"NF", None)).unwrap());
    assert!(!finish_erase(&wire(b"EX", None)).unwrap());
    assert!(finish_erase(&wire(b"VA 0", Some(b""))).is_err());
    assert_eq!(finish_counter(&wire(b"VA 2", Some(b"42"))).unwrap(), 42);
    assert!(finish_counter(&wire(b"NF", None)).is_err());
    assert!(finish_counter(&wire(b"VA 1", Some(b"x"))).is_err());
    assert!(finish_concat(&wire(b"HD", None)).is_ok());
    assert!(finish_concat(&wire(b"NS", None)).is_err());
    assert!(matches!(grace_ttl(Duration::zero()), Err(Error::Usage(_))));
    assert_eq!(grace_ttl(Duration::from_secs(60)).unwrap(), Ttl::secs(60));
}

#[test]
fn inspect_answer() {
    assert_eq!(finish_inspect(&view(b"EN", None)), None);
    let info = finish_inspect(&view(b"HD c1 t60 s3 l5 h1", None)).unwrap();
    assert_eq!(info.ttl, Some(Duration::from_secs(60)));
    assert_eq!(info.size, 3);
    assert_eq!(info.last_access, Duration::from_secs(5));
    assert!(info.hit_before);
    let info = finish_inspect(&view(b"HD c1 t-1 s3 l0 h0", None)).unwrap();
    assert_eq!(info.ttl, None);
    assert!(!info.hit_before);
}

#[test]
fn fetch_state_machine() {
    let serve = |header: &[u8], value: &[u8]| fetch_step(view(header, Some(value)));
    // Fresh hit.
    assert_eq!(
        serve(b"VA 3 f16 c7 t10", b"bar"),
        FetchStep::Serve { value: b"bar".to_vec(), flags: 16 }
    );
    // Refresh-ahead win and stale-grace win: this reader refreshes.
    assert_eq!(
        serve(b"VA 3 c7 t10 W", b"bar"),
        FetchStep::Refresh { value: b"bar".to_vec(), flags: 0, cas: 7 }
    );
    assert!(matches!(serve(b"VA 3 c7 t10 X W", b"old"), FetchStep::Refresh { cas: 7, .. }));
    // Stale value while another reader refreshes: keep serving it.
    assert!(matches!(serve(b"VA 3 c7 t10 X Z", b"old"), FetchStep::Serve { .. }));
    // Our own vivified placeholder: lead.
    assert_eq!(serve(b"VA 0 c7 W", b""), FetchStep::Lead { cas: 7 });
    // Someone else's placeholder: wait.
    assert_eq!(serve(b"VA 0 c7 Z", b""), FetchStep::Wait);
    // A real zero-byte item nobody is rewriting: lead (fifth branch).
    assert_eq!(serve(b"VA 0 c7", b""), FetchStep::Lead { cas: 7 });
    // A miss despite vivify: no coordination.
    assert_eq!(fetch_step(view(b"EN", None)), FetchStep::Local);
}

#[test]
fn update_state_machine() {
    let step = update_step(view(b"VA 3 f16 c7 t10", Some(b"bar")));
    assert_eq!(step.current, Some((b"bar".to_vec(), 16)));
    assert_eq!(step.compare_cas, Some(7));
    assert_eq!(step.stale_win, None);

    let step = update_step(view(b"EN", None));
    assert_eq!(step.current, None);
    assert_eq!(step.compare_cas, None);

    // Stale reads as a miss but the item exists: write by CAS and
    // remember the token to hand back.
    let step = update_step(view(b"VA 3 c7 t10 X W", Some(b"old")));
    assert_eq!(step.current, None);
    assert_eq!(step.compare_cas, Some(7));
    assert_eq!(step.stale_win.map(|win| win.cas), Some(7));

    // A placeholder has a CAS; an add would fail until it expires.
    let step = update_step(view(b"VA 0 c7 Z", Some(b"")));
    assert_eq!(step.current, None);
    assert_eq!(step.compare_cas, Some(7));
}

#[test]
fn take_state_machine() {
    assert_eq!(take_step(view(b"EN", None)).unwrap(), TakeStep::Nothing(None));
    assert_eq!(take_step(view(b"VA 0 c7 W", Some(b""))).unwrap(), TakeStep::Nothing(None));
    assert!(matches!(
        take_step(view(b"VA 3 c7 t10 X W", Some(b"old"))).unwrap(),
        TakeStep::Nothing(Some(_))
    ));
    assert_eq!(
        take_step(view(b"VA 3 f16 c7", Some(b"bar"))).unwrap(),
        TakeStep::Take { value: b"bar".to_vec(), flags: 16, cas: 7 }
    );
    assert!(take_step(view(b"VA 3 f16", Some(b"bar"))).is_err());
}

#[test]
fn a_lease_token_is_given_back_by_deleting_the_placeholder() {
    assert_eq!(encoded(plan_give_back(b"k", Token::Lease { cas: 7 }).unwrap()), "md k C7\r\n");
}

#[test]
fn an_unconditional_store_has_to_succeed() {
    assert!(finish_set(&wire(b"HD", None)).is_ok());
    assert!(finish_set(&wire(b"NS", None)).is_err());
}

#[test]
fn the_wait_schedule_doubles_and_ends() {
    let waits: Vec<_> = (0..6).map(|attempt| wait_backoff(attempt)).collect();
    assert_eq!(
        waits,
        vec![
            Some(Duration::from_millis(25)),
            Some(Duration::from_millis(50)),
            Some(Duration::from_millis(100)),
            Some(Duration::from_millis(200)),
            Some(Duration::from_millis(400)),
            None,
        ]
    );
}

#[test]
fn a_stored_value_is_read_back() {
    let value = encode_value("hello world").unwrap();
    let command = plan_store(b"k", &value, Ttl::secs(60), SetMode::Store, None).unwrap();
    assert_eq!(command.encode().unwrap(), b"ms k 11 F16 T60\r\nhello world\r\n".to_vec());
    let read = view(b"VA 11 f16 c3 t60", Some(b"hello world"));
    assert_eq!(finish_get::<String>(read).unwrap(), Some("hello world".to_string()));
}
