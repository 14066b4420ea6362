//! Reading from bytes that have been received.

use vstd::prelude::*;
use vstd::string::*;

use crate::bytes;
use crate::error::{MemcacheError, MemcacheErrorView};
use crate::io::{IoError, IoErrorKind, IoErrorView};

verus! {

/// Bytes that have been received, and how far they have been read. Its view
/// is what is left to read.
#[derive(Debug)]
pub struct Reader {
    pub received: Vec<u8>,
    pub position: usize,
}

impl View for Reader {
    type V = Seq<u8>;

    open spec fn view(&self) -> Seq<u8> {
        self.received@.skip(self.position as int)
    }
}

/// The error of a read beyond the bytes that have been received.
pub open spec fn short_read() -> MemcacheErrorView {
    MemcacheErrorView::IOError(
        IoErrorView { kind: IoErrorKind::UnexpectedEof, message: "failed to fill whole buffer"@ },
    )
}

/// The error of a read beyond the bytes that have been received.
pub fn short_read_error() -> (r: MemcacheError)
    ensures
        r@ == short_read(),
{
    MemcacheError::IOError(IoError::new(IoErrorKind::UnexpectedEof, "failed to fill whole buffer"))
}

impl Reader {
    pub open spec fn well_formed(self) -> bool {
        self.position <= self.received@.len()
    }

    pub fn new(received: Vec<u8>) -> (r: Reader)
        ensures
            r.well_formed(),
            r@ == received@,
    {
        let r = Reader { received, position: 0 };
        assert(r@ =~= received@);
        r
    }

    /// How many bytes are left to read.
    pub fn left(&self) -> (r: usize)
        requires
            self.well_formed(),
        ensures
            r == self@.len(),
    {
        self.received.len() - self.position
    }

    /// Read exactly `length` bytes. Where fewer are left, all of them are used
    /// up.
    pub fn read_exact(&mut self, length: usize) -> (r: Result<Vec<u8>, MemcacheError>)
        requires
            old(self).well_formed(),
        ensures
            final(self).well_formed(),
            match r {
                Ok(read) => length <= old(self)@.len() && read@ == old(self)@.take(length as int) && final(self)@
                    == old(self)@.skip(length as int),
                Err(e) => length > old(self)@.len() && e@ == short_read() && final(self)@.len() == 0,
            },
    {
        let left = self.received.len() - self.position;
        if length > left {
            self.position = self.received.len();
            return Err(short_read_error());
        }
        let start = self.position;
        let read = bytes::slice(self.received.as_slice(), start, start + length);
        self.position = start + length;
        assert(read@ =~= old(self)@.take(length as int));
        assert(self@ =~= old(self)@.skip(length as int));
        Ok(read)
    }

    /// Read one byte.
    pub fn read_u8(&mut self) -> (r: Result<u8, MemcacheError>)
        requires
            old(self).well_formed(),
        ensures
            final(self).well_formed(),
            match r {
                Ok(byte) => old(self)@.len() > 0 && byte == old(self)@[0] && final(self)@ == old(self)@.skip(1),
                Err(e) => old(self)@.len() == 0 && e@ == short_read() && final(self)@.len() == 0,
            },
    {
        if self.position == self.received.len() {
            return Err(short_read_error());
        }
        let byte = self.received[self.position];
        self.position = self.position + 1;
        assert(self@ =~= old(self)@.skip(1));
        Ok(byte)
    }
}

} // verus!
