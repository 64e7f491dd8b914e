//! A stream over bytes held in memory.
use crate::stream::{BufferedReadable, Readable};
use core::convert::Infallible;
use vstd::prelude::*;

verus! {

/// A stream that delivers the bytes of a slice, front to back.
///
/// It never fails, every read fills as much of the buffer as the bytes left
/// allow, and its look-ahead buffer is all that is left.
pub struct MemoryStream<'a> {
    bytes: &'a [u8],
    pos: usize,
}

impl<'a> MemoryStream<'a> {
    #[verifier::type_invariant]
    spec fn wf(&self) -> bool {
        self.pos <= self.bytes@.len()
    }

    /// A stream that will deliver `bytes`.
    pub fn new(bytes: &'a [u8]) -> (stream: Self)
        ensures
            stream.pending() == bytes@,
    {
        MemoryStream { bytes, pos: 0 }
    }
}

impl<'a> Readable for MemoryStream<'a> {
    type Error = Infallible;

    open spec fn modelled(&self) -> bool {
        true
    }

    closed spec fn pending(&self) -> Seq<u8> {
        self.bytes@.skip(self.pos as int)
    }

    fn read(&mut self, buf: &mut [u8]) -> (res: Result<usize, Infallible>)
        ensures
            res matches Ok(n) && n == vstd::math::min(
                old(buf)@.len() as int,
                old(self).pending().len() as int,
            ),
    {
        proof {
            use_type_invariant(&*self);
        }
        let avail: usize = self.bytes.len() - self.pos;
        let n: usize = if buf.len() <= avail {
            buf.len()
        } else {
            avail
        };
        let mut i: usize = 0;
        while i < n
            invariant
                i <= n,
                n <= buf.len(),
                buf.len() == old(buf).len(),
                self.pos + n <= self.bytes.len(),
                self.pos == old(self).pos,
                self.bytes == old(self).bytes,
                buf@ == old(self).pending().take(i as int) + old(buf)@.skip(i as int),
            decreases n - i,
        {
            buf[i] = self.bytes[self.pos + i];
            i = i + 1;
        }
        self.pos = self.pos + n;
        assert(self.pending() == old(self).pending().skip(n as int));
        Ok(n)
    }
}

impl<'a> BufferedReadable for MemoryStream<'a> {
    /// All that is left lies ready.
    open spec fn buffered(&self) -> Seq<u8> {
        self.pending()
    }

    fn fill_buf(&mut self) -> (res: Result<&[u8], Infallible>)
        ensures
            res matches Ok(bytes) && bytes@ == old(self).pending(),
    {
        proof {
            use_type_invariant(&*self);
        }
        let rest = vstd::slice::slice_subrange(self.bytes, self.pos, self.bytes.len());
        Ok(rest)
    }

    fn consume(&mut self, amount: usize)
        ensures
            final(self).pending() == old(self).pending().skip(
                vstd::math::min(amount as int, old(self).pending().len() as int),
            ),
    {
        proof {
            use_type_invariant(&*self);
        }
        let avail: usize = self.bytes.len() - self.pos;
        let n: usize = if amount <= avail {
            amount
        } else {
            avail
        };
        self.pos = self.pos + n;
        assert(self.pending() == old(self).pending().skip(n as int));
    }
}

} // verus!
