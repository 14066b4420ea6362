//! Values that are stored as bytes with a mark of their type.

use vstd::prelude::*;
use vstd::string::*;

verus! {

/// A value that can be stored.
pub trait Cacheable {
    /// The bytes and flags that are stored.
    open spec fn cached_spec(&self) -> (Seq<u8>, u32) {
        arbitrary()
    }

    /// The bytes to store and the flags to store with them.
    fn to_cache(&self) -> (r: (&[u8], u32))
        ensures
            (r.0@, r.1) == self.cached_spec(),
    ;
}

impl<'a> Cacheable for &'a [u8] {
    open spec fn cached_spec(&self) -> (Seq<u8>, u32) {
        (self@, 0)
    }

    fn to_cache(&self) -> (r: (&[u8], u32)) {
        (*self, 0)
    }
}

impl Cacheable for String {
    open spec fn cached_spec(&self) -> (Seq<u8>, u32) {
        (vstd::utf8::encode_utf8(self@), 1)
    }

    fn to_cache(&self) -> (r: (&[u8], u32)) {
        (self.as_str().as_bytes(), 1)
    }
}

} // verus!
