//! Counting what is written.

use crate::bytes::put_bytes;
use vstd::prelude::*;

verus! {

/// Bytes that are written one behind the other, and how many were.
pub struct WriteCounter {
    pub inner: Vec<u8>,
    pub count: usize,
}

impl WriteCounter {
    /// What was there before does not count.
    pub fn new(inner: Vec<u8>) -> (r: Self)
        ensures
            r.inner == inner,
            r.count == 0,
    {
        WriteCounter { inner, count: 0 }
    }

    /// All bytes.
    pub fn into_inner(self) -> (r: Vec<u8>)
        ensures
            r == self.inner,
    {
        self.inner
    }

    /// How many bytes were written.
    pub fn bytes_written(&self) -> (r: usize)
        ensures
            r == self.count,
    {
        self.count
    }

    /// Writes bytes behind those that are there.
    pub fn write(&mut self, buf: &[u8]) -> (r: usize)
        requires
            old(self).count + buf@.len() <= usize::MAX,
        ensures
            r == buf@.len(),
            final(self).inner@ == old(self).inner@ + buf@,
            final(self).count == old(self).count + buf@.len(),
    {
        put_bytes(&mut self.inner, buf);
        self.count = self.count + buf.len();
        buf.len()
    }
}

} // verus!
