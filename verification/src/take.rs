//! The limited view itself.
use crate::stream::{consume_step, fill_step, read_step, BufferedReadable, Readable};
use vstd::prelude::*;

verus! {

/// The first `limit` bytes of `bytes`, or all of them if there are fewer.
pub open spec fn window(bytes: Seq<u8>, limit: u64) -> Seq<u8> {
    bytes.take(vstd::math::min(limit as int, bytes.len() as int))
}

/// The part of `amount` that a view with `remaining` bytes left lets through.
pub open spec fn clamp(amount: usize, remaining: u64) -> usize {
    if amount <= remaining {
        amount
    } else {
        remaining as usize
    }
}

/// How a read through a view with `limit` bytes left, into a buffer of
/// `capacity` bytes, is counted.
///
/// A view with nothing left answers `Ok(0)`. Otherwise no more bytes are
/// reported than the buffer holds or the limit allows, and they are taken
/// off the limit; a failure leaves the limit as it was.
pub open spec fn read_counted<E>(
    limit: u64,
    capacity: nat,
    res: Result<usize, E>,
    limit_after: u64,
) -> bool {
    match res {
        Ok(n) => n <= capacity && n <= limit && limit_after == limit - n,
        Err(_) => limit > 0 && limit_after == limit,
    }
}

/// The first `limit` bytes of `bytes`, or all of them if there are fewer:
/// what a view with `limit` bytes left shows of a look-ahead buffer.
pub fn front<'b>(bytes: &'b [u8], limit: u64) -> (shown: &'b [u8])
    ensures
        shown@ == window(bytes@, limit),
{
    let cap: usize = if (bytes.len() as u64) <= limit {
        bytes.len()
    } else {
        limit as usize
    };
    vstd::slice::slice_subrange(bytes, 0, cap)
}

/// A view of a borrowed stream that lets at most a set number of bytes pass.
///
/// The view does not own the stream. What it reads is gone from the stream,
/// and nothing else is: once the view is dropped, the owner finds the stream
/// in the state [`RefTake::stream`] in which the view left it.
pub struct RefTake<'a, R> {
    inner: &'a mut R,
    limit: u64,
}

impl<'a, R> RefTake<'a, R> {
    /// The number of bytes that may still pass.
    pub closed spec fn remaining(&self) -> u64 {
        self.limit
    }

    /// The borrow through which the view reaches its stream. `*source()`
    /// is the stream as it stands, and `*final(source())` the stream as its
    /// owner will find it.
    pub closed spec fn source(&self) -> &mut R {
        self.inner
    }

    /// The stream as it stands now.
    pub open spec fn stream(&self) -> R {
        *self.source()
    }

    /// A view of `inner` that lets `limit` bytes pass. The stream is not
    /// touched.
    pub fn wrap(inner: &'a mut R, limit: u64) -> (view: Self)
        ensures
            view.remaining() == limit,
            view.stream() == *old(inner),
            *final(view.source()) == *final(inner),
    {
        RefTake { inner, limit }
    }

    /// Replaces the number of bytes that may still pass, whatever it was.
    /// The stream is not touched.
    pub fn set_limit(&mut self, limit: u64)
        ensures
            final(self).remaining() == limit,
            final(self).source() == old(self).source(),
    {
        self.limit = limit;
    }

    /// The number of bytes that may still pass.
    pub fn current_limit(&self) -> (limit: u64)
        ensures
            limit == self.remaining(),
    {
        self.limit
    }

    /// How many of `wanted` bytes the view lets pass: all of them, or as
    /// many as remain.
    pub fn allowance(&self, wanted: usize) -> (granted: usize)
        ensures
            granted == clamp(wanted, self.remaining()),
    {
        if (wanted as u64) <= self.limit {
            wanted
        } else {
            self.limit as usize
        }
    }

    /// Settles the limit with what the stream answered to a read: the bytes
    /// of a success are taken off it, a failure costs nothing. The answer is
    /// handed on as it is.
    pub fn settle<E>(&mut self, outcome: Result<usize, E>) -> (res: Result<usize, E>)
        requires
            outcome matches Ok(n) ==> n <= old(self).remaining(),
        ensures
            res == outcome,
            final(self).remaining() == match outcome {
                Ok(n) => old(self).remaining() - n,
                Err(_) => old(self).remaining() as int,
            },
            final(self).source() == old(self).source(),
    {
        match outcome {
            Ok(n) => {
                self.limit = self.limit - n as u64;
                Ok(n)
            },
            Err(e) => Err(e),
        }
    }
}

/// A view that is done with gives the stream back as it left it.
pub broadcast proof fn lemma_view_gives_back<'a, R>(view: RefTake<'a, R>)
    ensures
        #[trigger] has_resolved(view) ==> *final(view.source()) == view.stream(),
{
}

impl<'a, R: Readable> Readable for RefTake<'a, R> {
    type Error = R::Error;

    open spec fn modelled(&self) -> bool {
        self.stream().modelled()
    }

    /// What the view has yet to deliver: the stream's next bytes, as far as
    /// the limit lets them pass.
    open spec fn pending(&self) -> Seq<u8> {
        window(self.stream().pending(), self.remaining())
    }

    /// Reads at most `remaining` bytes from the stream into the front of
    /// `buf`. With nothing remaining the stream is not asked at all. A
    /// failure of the stream is handed on and costs nothing of the limit.
    fn read(&mut self, buf: &mut [u8]) -> (res: Result<usize, R::Error>)
        ensures
            *final(final(self).source()) == *final(old(self).source()),
            read_counted(old(self).remaining(), old(buf)@.len(), res, final(self).remaining()),
            old(self).remaining() == 0 ==> {
                &&& res == Ok::<usize, R::Error>(0usize)
                &&& final(self).stream() == old(self).stream()
                &&& final(buf)@ == old(buf)@
            },
            old(self).remaining() > 0 ==> {
                let room = vstd::math::min(old(buf)@.len() as int, old(self).remaining() as int);
                &&& final(buf)@.skip(room) == old(buf)@.skip(room)
                &&& old(self).stream().modelled() ==> final(self).stream().modelled() && read_step(
                    old(self).stream().pending(),
                    old(buf)@.take(room),
                    res,
                    final(self).stream().pending(),
                    final(buf)@.take(room),
                )
            },
    {
        if self.limit == 0 {
            assert(buf@ =~= self.pending().take(0) + buf@.skip(0));
            assert(self.pending() =~= self.pending().skip(0));
            return Ok(0);
        }
        let room = self.allowance(buf.len());
        let ghost before = buf@;
        let ghost stream_before = self.stream().pending();
        let (head, _) = buf.split_at_mut(room);
        let outcome = self.inner.read(head);
        let res = self.settle(outcome);
        proof {
            assert(buf@.skip(room as int) =~= before.skip(room as int));
            if let Ok(n) = res {
                if old(self).modelled() {
                    let passing = window(stream_before, old(self).remaining());
                    assert(buf@.take(room as int) =~= stream_before.take(n as int) + before.take(
                        room as int,
                    ).skip(n as int));
                    assert(buf@ =~= passing.take(n as int) + before.skip(n as int));
                    assert(self.pending() =~= passing.skip(n as int));
                }
            }
        }
        res
    }
}

impl<'a, R: BufferedReadable> BufferedReadable for RefTake<'a, R> {
    /// What the view holds ready: the stream's look-ahead buffer, as far as
    /// the limit lets it pass.
    open spec fn buffered(&self) -> Seq<u8> {
        window(self.stream().buffered(), self.remaining())
    }

    /// Returns the front of the stream's look-ahead buffer, no more of it
    /// than `remaining` bytes. With nothing remaining the stream is not asked
    /// at all. A failure of the stream is handed on.
    fn fill_buf(&mut self) -> (res: Result<&[u8], R::Error>)
        ensures
            *final(final(self).source()) == *final(old(self).source()),
            final(self).remaining() == old(self).remaining(),
            res matches Ok(bytes) ==> bytes@.len() <= old(self).remaining(),
            old(self).remaining() == 0 ==> {
                &&& res matches Ok(bytes) && bytes@.len() == 0
                &&& final(self).stream() == old(self).stream()
            },
            old(self).remaining() > 0 && old(self).stream().modelled() ==> {
                &&& final(self).stream().modelled()
                &&& fill_step(
                    old(self).stream().pending(),
                    res is Ok,
                    final(self).stream().pending(),
                    final(self).stream().buffered(),
                )
                &&& res matches Ok(bytes) ==> bytes@ == window(
                    final(self).stream().buffered(),
                    old(self).remaining(),
                )
            },
    {
        if self.limit == 0 {
            let empty: &[u8] = &[];
            assert(empty@ =~= self.buffered());
            assert(self.pending() =~= Seq::<u8>::empty());
            return Ok(empty);
        }
        let limit = self.limit;
        match self.inner.fill_buf() {
            Ok(whole) => Ok(front(whole, limit)),
            Err(e) => Err(e),
        }
    }

    /// Discards `amount` bytes from the front of the stream's look-ahead
    /// buffer, or `remaining` bytes if `amount` is more, and takes them off
    /// the limit.
    fn consume(&mut self, amount: usize)
        ensures
            *final(final(self).source()) == *final(old(self).source()),
            final(self).remaining() == old(self).remaining() - clamp(amount, old(self).remaining()),
            old(self).stream().modelled() ==> final(self).stream().modelled() && consume_step(
                old(self).stream().pending(),
                old(self).stream().buffered(),
                clamp(amount, old(self).remaining()),
                final(self).stream().pending(),
                final(self).stream().buffered(),
            ),
    {
        let passed = self.allowance(amount);
        self.limit = self.limit - passed as u64;
        self.inner.consume(passed);
        proof {
            if old(self).modelled() && amount <= old(self).buffered().len() && amount <= old(
                self,
            ).pending().len() {
                assert(self.pending() =~= old(self).pending().skip(amount as int));
                assert(self.buffered() =~= old(self).buffered().skip(amount as int));
            }
        }
    }
}

/// Lets any readable stream hand out a limited view of itself.
pub trait RefTakeExt {
    /// A view of this stream that lets `limit` bytes pass. The stream is not
    /// touched.
    fn take_ref(&mut self, limit: u64) -> (view: RefTake<'_, Self>) where Self: Sized
        ensures
            view.remaining() == limit,
            view.stream() == *old(self),
            *final(view.source()) == *final(self),
    ;
}

impl<T: Readable> RefTakeExt for T {
    fn take_ref(&mut self, limit: u64) -> (view: RefTake<'_, Self>) {
        RefTake::wrap(self, limit)
    }
}

} // verus!
