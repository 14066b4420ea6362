//! The client over libmemcached: what its answers say.

use vstd::prelude::*;

use crate::ffi::memcached_return_t;

verus! {

/// A call that did not go well.
#[derive(Debug, Clone, Copy, PartialEq, Eq, Structural)]
pub struct LibMemcachedError {
    pub code: memcached_return_t,
}

impl LibMemcachedError {
    pub fn new(code: memcached_return_t) -> (r: LibMemcachedError)
        ensures
            r.code == code,
    {
        LibMemcachedError { code }
    }
}

/// What a call comes to that either succeeds or does not, and what it gave.
pub fn finish<T>(ret: memcached_return_t, given: T) -> (r: Result<T, LibMemcachedError>)
    ensures
        r == (if ret == memcached_return_t::MEMCACHED_SUCCESS {
            Ok::<T, LibMemcachedError>(given)
        } else {
            Err::<T, LibMemcachedError>(LibMemcachedError { code: ret })
        }),
{
    match ret {
        memcached_return_t::MEMCACHED_SUCCESS => Ok(given),
        _ => Err(LibMemcachedError::new(ret)),
    }
}

/// Whether a key exists: it was found, or it was not; anything else is an error.
pub fn finish_exist(ret: memcached_return_t) -> (r: Result<bool, LibMemcachedError>)
    ensures
        r == (if ret == memcached_return_t::MEMCACHED_SUCCESS {
            Ok::<bool, LibMemcachedError>(true)
        } else if ret == memcached_return_t::MEMCACHED_NOTFOUND {
            Ok::<bool, LibMemcachedError>(false)
        } else {
            Err::<bool, LibMemcachedError>(LibMemcachedError { code: ret })
        }),
{
    match ret {
        memcached_return_t::MEMCACHED_SUCCESS => Ok(true),
        memcached_return_t::MEMCACHED_NOTFOUND => Ok(false),
        _ => Err(LibMemcachedError::new(ret)),
    }
}

} // verus!
