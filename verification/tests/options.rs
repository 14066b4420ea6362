//! Options of a store, and servers as libmemcached takes them.

use memcache::cacheable::Cacheable;
use memcache::connectable::Connectable;
use memcache::ffi::memcached_return_t;
use memcache::memcache::{finish, finish_exist, LibMemcachedError};

#[test]
fn test_default() {
    let options: &memcache::Options = &Default::default();
    assert!(options.exptime == 0);
    assert!(options.flags == 0);
    assert!(options.noreply == false);
}

#[test]
fn test_tuple() {
    let param = ("localhost", 2333);
    assert!(param.get_connection_str() == "--SERVER=localhost:2333".to_owned());
}

#[test]
fn test_vec() {
    let param_1 = vec![("localhost", 2333)];
    assert!(param_1.get_connection_str() == "--SERVER=localhost:2333".to_owned());

    let param_2 = vec![("localhost", 2333), ("127.0.0.1", 11211)];
    let actual = param_2.get_connection_str();
    let wanted = "--SERVER=localhost:2333 --SERVER=127.0.0.1:11211";
    assert!(actual == wanted.to_owned());

    let param_3 = vec![("localhost", 2333), ("127.0.0.1", 11211), ("dev", 12345)];
    let actual = param_3.get_connection_str();
    let wanted = "--SERVER=localhost:2333 --SERVER=127.0.0.1:11211 --SERVER=dev:12345";
    assert!(actual == wanted.to_owned());
}

#[test]
fn no_servers_are_an_empty_text() {
    let none: Vec<(&str, u64)> = Vec::new();
    assert_eq!(none.get_connection_str(), "");
}

#[test]
fn values_are_cached_with_a_mark_of_their_type() {
    let bytes: &[u8] = &[1, 2, 3];
    assert_eq!(bytes.to_cache(), (&[1u8, 2, 3][..], 0));
    assert_eq!(String::from("bar").to_cache(), (&b"bar"[..], 1));
}

#[test]
fn return_codes_are_read() {
    assert_eq!(memcached_return_t::from_code(0), Some(memcached_return_t::MEMCACHED_SUCCESS));
    assert_eq!(memcached_return_t::from_code(16), Some(memcached_return_t::MEMCACHED_NOTFOUND));
    assert_eq!(memcached_return_t::from_code(50), None);
    assert_eq!(finish(memcached_return_t::MEMCACHED_SUCCESS, 42), Ok(42));
    assert_eq!(
        finish(memcached_return_t::MEMCACHED_NOTSTORED, 42),
        Err(LibMemcachedError { code: memcached_return_t::MEMCACHED_NOTSTORED })
    );
    assert_eq!(finish_exist(memcached_return_t::MEMCACHED_SUCCESS), Ok(true));
    assert_eq!(finish_exist(memcached_return_t::MEMCACHED_NOTFOUND), Ok(false));
    assert!(finish_exist(memcached_return_t::MEMCACHED_TIMEOUT).is_err());
}
