//! Expiration times.

use memcache::exp::ttl::MAX_RELATIVE_SECS;
use memcache::exp::{Error, Freshness, Ttl};
use memcache::time::{Duration, SystemTime, NANOS_PER_SEC};

fn unix_now() -> u64 {
    (SystemTime::now().nanos / NANOS_PER_SEC as i128) as u64
}

#[test]
fn wire_rules() {
    assert_eq!(Ttl::never().wire().unwrap(), 0);
    assert_eq!(Ttl::secs(300).wire().unwrap(), 300);
    assert_eq!(Ttl::secs(MAX_RELATIVE_SECS).wire().unwrap(), MAX_RELATIVE_SECS);
    assert_eq!(Ttl::raw(0).wire().unwrap(), 0);
    assert_eq!(Ttl::raw(5_000_000).wire().unwrap(), 5_000_000);
    assert!(matches!(Ttl::secs(0).wire(), Err(Error::Usage(_))));
    assert!(matches!(Ttl::from(Duration::zero()).wire(), Err(Error::Usage(_))));
}

#[test]
fn long_relative_ttl_becomes_absolute() {
    let now = unix_now();
    let wire = u64::from(Ttl::secs(MAX_RELATIVE_SECS + 1).wire().unwrap());
    assert!(wire > now + u64::from(MAX_RELATIVE_SECS));
    assert!(wire <= now + u64::from(MAX_RELATIVE_SECS) + 2);
}

#[test]
fn absolute_ttl() {
    let t = SystemTime::now().saturating_add(Duration::from_secs(60));
    let expected = (t.nanos / NANOS_PER_SEC as i128) as u64;
    assert_eq!(u64::from(Ttl::at(t).wire().unwrap()), expected);
    assert!(matches!(
        Ttl::at(SystemTime::unix_epoch().saturating_add(Duration::from_secs(100))).wire(),
        Err(Error::Usage(_))
    ));
    assert!(matches!(
        Ttl::at(SystemTime::unix_epoch().saturating_sub(Duration::from_secs(1))).wire(),
        Err(Error::Usage(_))
    ));
    assert!(matches!(
        Ttl::at(SystemTime::unix_epoch().saturating_add(Duration::from_secs(u64::from(u32::MAX) + 1))).wire(),
        Err(Error::Usage(_))
    ));
}

#[test]
fn duration_rounds_up() {
    assert_eq!(Ttl::from(Duration::from_millis(1)), Ttl::secs(1));
    assert_eq!(Ttl::from(Duration::from_millis(1500)), Ttl::secs(2));
    assert_eq!(Ttl::from(Duration::from_secs(2)), Ttl::secs(2));
}

#[test]
fn freshness_conversions() {
    let plain: Freshness = Ttl::secs(300).into();
    assert_eq!(plain.ttl(), Ttl::secs(300));
    assert_eq!(plain.refresh_before_secs().unwrap(), None);

    let from_duration: Freshness = Duration::from_secs(300).into();
    assert_eq!(from_duration, plain);

    let windowed = Ttl::secs(300).refresh_ahead(Duration::from_millis(30_500));
    assert_eq!(windowed.ttl(), Ttl::secs(300));
    assert_eq!(windowed.refresh_before_secs().unwrap(), Some(31));
}

#[test]
fn refresh_ahead_validation() {
    let usage = |f: Freshness| matches!(f.refresh_before_secs(), Err(Error::Usage(_)));
    assert!(usage(Ttl::secs(300).refresh_ahead(Duration::zero())));
    assert!(usage(Ttl::secs(300).refresh_ahead(Duration::from_millis(999))));
    assert!(usage(Ttl::secs(300).refresh_ahead(Duration::from_secs(300))));
    assert!(usage(Ttl::secs(300).refresh_ahead(Duration::from_secs(301))));
    assert!(usage(Ttl::never().refresh_ahead(Duration::from_secs(10))));
    // The window is compared against the time left on an absolute ttl.
    let at = Ttl::at(SystemTime::now().saturating_add(Duration::from_secs(3600)));
    assert_eq!(
        at.refresh_ahead(Duration::from_secs(60)).refresh_before_secs().unwrap(),
        Some(60)
    );
    assert!(usage(at.refresh_ahead(Duration::from_secs(3600))));
}

#[test]
fn a_long_ttl_is_counted_from_the_given_moment() {
    let now = SystemTime::unix_epoch().saturating_add(Duration::from_secs(1_000_000_000));
    assert_eq!(Ttl::secs(MAX_RELATIVE_SECS).wire_at(now).unwrap(), MAX_RELATIVE_SECS);
    assert_eq!(Ttl::secs(MAX_RELATIVE_SECS + 1).wire_at(now).unwrap(), 1_002_592_001);
}

#[test]
fn readings_of_a_clock() {
    assert_eq!(SystemTime::from_reading(Ok((0, 0))), SystemTime::unix_epoch());
    assert_eq!(SystemTime::from_reading(Ok((2, 5))).nanos, 2_000_000_005);
    assert_eq!(SystemTime::from_reading(Err((1, 500_000_000))).nanos, -1_500_000_000);
    let far = SystemTime::from_reading(Ok((u64::MAX, 999_999_999)));
    assert_eq!(far.nanos, 18_446_744_073_709_551_615_999_999_999);
    // The clock of a running machine is well past the epoch.
    assert!(SystemTime::now().nanos > SystemTime::from_reading(Ok((1_500_000_000, 0))).nanos);
}
