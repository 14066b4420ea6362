//! Which server a key goes to.

use std::hash::{Hash, Hasher};

use memcache::exp::router::{clamp, default_hash_function, route, HashFunction};
use memcache::exp::{MetaClientBuilder, Rendezvous, Router, ServerAddress};

fn servers(n: u16) -> Vec<String> {
    (0..n).map(|i| format!("10.0.0.1:{}", 11211 + i)).collect()
}

#[test]
fn identities_agree_across_address_forms() {
    assert_eq!("127.0.0.1:11211".identity(), "127.0.0.1:11211");
    assert_eq!(("127.0.0.1", 11211).identity(), "127.0.0.1:11211");
    assert_eq!(("localhost", 11211).identity(), "localhost:11211");
    assert_eq!(String::from("[::1]:11211").identity(), "[::1]:11211");
    assert_eq!((String::from("localhost"), 11211).identity(), "localhost:11211");
}

#[test]
fn rendezvous_balances_and_moves_minimally() {
    let router = Rendezvous::new();
    let four = servers(4);
    let mut counts = [0usize; 4];
    let mut moved = 0;
    for key in 0..4000u64 {
        let key = key.to_le_bytes();
        let before = router.route(&key, &four);
        counts[before] += 1;
        // Removing the server in the middle only moves its own keys.
        let mut three = four.clone();
        three.remove(1);
        let after = router.route(&key, &three);
        if before == 1 {
            moved += 1;
        } else {
            let expected = if before > 1 { before - 1 } else { before };
            assert_eq!(after, expected);
        }
    }
    for &count in &counts {
        assert!(count > 700, "unbalanced: {counts:?}");
    }
    assert_eq!(moved, counts[1]);
    assert_eq!(router.route(b"k", &servers(1)), 0);
}

struct Beyond;

impl Router for Beyond {
    fn route(&self, _: &[u8], _: &Vec<String>) -> usize {
        usize::MAX
    }
}

#[test]
fn misbehaving_router_is_clamped() {
    assert_eq!(route(&Beyond, b"k", &servers(1)), 0);
    assert_eq!(route(&Beyond, b"k", &servers(3)), 2);
    assert_eq!(clamp(1, 3), 1);
    let builder = MetaClientBuilder::new().router(Beyond);
    assert_eq!(route(&builder.router, b"k", &servers(2)), 1);
}

#[test]
fn the_order_of_the_servers_does_not_matter() {
    let router = Rendezvous::new();
    let listed = servers(4);
    let mut reversed = listed.clone();
    reversed.reverse();
    for key in 0..200u32 {
        let key = key.to_le_bytes();
        assert_eq!(
            listed[router.route(&key, &listed)],
            reversed[router.route(&key, &reversed)]
        );
    }
}

#[test]
fn a_new_server_only_takes_keys_over() {
    let router = Rendezvous::new();
    let three = servers(3);
    let four = servers(4);
    for key in 0..200u32 {
        let key = key.to_le_bytes();
        let after = router.route(&key, &four);
        if after != 3 {
            assert_eq!(after, router.route(&key, &three));
        }
    }
}

#[test]
fn the_default_hash_is_that_of_the_standard_hasher() {
    for key in [&b""[..], b"k", b"a longer key"] {
        let mut hasher = std::collections::hash_map::DefaultHasher::new();
        key.hash(&mut hasher);
        assert_eq!(default_hash_function(key), hasher.finish());
    }
    assert_ne!(default_hash_function(b"a"), default_hash_function(b"b"));
}

struct Constant;

impl HashFunction for Constant {
    fn hash(&self, _: &[u8]) -> u64 {
        42
    }
}

#[test]
fn a_custom_hash_decides_alone() {
    let router = Rendezvous::with_hash_function(Constant);
    let all = servers(5);
    let first = router.route(b"a", &all);
    for key in [&b"b"[..], b"c", b"dddd"] {
        assert_eq!(router.route(key, &all), first);
    }
}
