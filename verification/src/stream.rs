//! The two capabilities a stream can offer, with their contracts.
//!
//! A stream is modelled by `pending`, the bytes it has yet to deliver, in
//! order. A buffered stream holds some of them ready in a look-ahead buffer,
//! `buffered`. Every operation is specified as a relation between these
//! sequences before and after the call.
//!
//! Not every stream can say ahead of time what it will deliver: a socket
//! cannot. Such a stream leaves `modelled` false, and is then bound only by
//! what the contracts say of counts.
use vstd::prelude::*;

verus! {

/// What a call of [`Readable::read`] does to a modelled stream.
///
/// `pending` and `buf` are the stream and the caller's buffer before the
/// call, `pending_after` and `buf_after` after it.
///
/// On `Ok(n)` the first `n` pending bytes have moved, in order, to the front
/// of the buffer; the rest of the buffer is untouched and the stream goes on
/// behind them. `n` is zero only if the buffer has no room or the stream is
/// at its end. On `Err` the stream has delivered nothing; what the buffer
/// then holds is left open.
pub open spec fn read_step<E>(
    pending: Seq<u8>,
    buf: Seq<u8>,
    res: Result<usize, E>,
    pending_after: Seq<u8>,
    buf_after: Seq<u8>,
) -> bool {
    match res {
        Ok(n) => {
            &&& n <= buf.len()
            &&& n <= pending.len()
            &&& n == 0 ==> buf.len() == 0 || pending.len() == 0
            &&& buf_after == pending.take(n as int) + buf.skip(n as int)
            &&& pending_after == pending.skip(n as int)
        },
        Err(_) => pending_after == pending,
    }
}

/// What a call of [`BufferedReadable::fill_buf`] does to a modelled stream.
///
/// Nothing is delivered. If the call succeeds (`ok`), the look-ahead buffer
/// then holds the next pending bytes, and it is empty only at the end of the
/// stream.
pub open spec fn fill_step(
    pending: Seq<u8>,
    ok: bool,
    pending_after: Seq<u8>,
    buffered_after: Seq<u8>,
) -> bool {
    &&& pending_after == pending
    &&& ok ==> {
        &&& buffered_after.is_prefix_of(pending)
        &&& buffered_after.len() == 0 <==> pending.len() == 0
    }
}

/// What a call of [`BufferedReadable::consume`] does to a modelled stream.
///
/// An `amount` that the look-ahead buffer covers is dropped from the front
/// of both the buffer and the stream. A larger one is a misuse of which
/// nothing is promised here.
pub open spec fn consume_step(
    pending: Seq<u8>,
    buffered: Seq<u8>,
    amount: usize,
    pending_after: Seq<u8>,
    buffered_after: Seq<u8>,
) -> bool {
    amount <= buffered.len() && amount <= pending.len() ==> {
        &&& pending_after == pending.skip(amount as int)
        &&& buffered_after == buffered.skip(amount as int)
    }
}

/// A stream of bytes that can be read into a caller's buffer.
pub trait Readable: Sized {
    /// The failure that the stream reports.
    type Error;

    /// Whether this stream states what it holds. Of a stream that does,
    /// `pending` describes it and the contracts bind it in full. A stream
    /// that says nothing is not modelled, and is bound only in its counts.
    open spec fn modelled(&self) -> bool {
        false
    }

    /// The bytes that the stream has yet to deliver, in order. It has a
    /// meaning only for a modelled stream.
    open spec fn pending(&self) -> Seq<u8> {
        Seq::empty()
    }

    /// Moves bytes from the front of the stream into `buf` and returns how
    /// many, never more than `buf` holds: callers rely on that count and do
    /// not test it again. `Ok(0)` for a buffer with room means the end of
    /// the stream.
    fn read(&mut self, buf: &mut [u8]) -> (res: Result<usize, Self::Error>)
        ensures
            final(buf)@.len() == old(buf)@.len(),
            res matches Ok(n) ==> n <= old(buf)@.len(),
            old(self).modelled() ==> final(self).modelled() && read_step(
                old(self).pending(),
                old(buf)@,
                res,
                final(self).pending(),
                final(buf)@,
            ),
    ;
}

/// A stream that holds a look-ahead buffer of its next bytes, which a caller
/// can inspect and then discard from explicitly.
pub trait BufferedReadable: Readable {
    /// The pending bytes that the look-ahead buffer holds ready. It has a
    /// meaning only for a modelled stream.
    open spec fn buffered(&self) -> Seq<u8> {
        Seq::empty()
    }

    /// Returns the look-ahead buffer, refilled from the stream if it was
    /// empty, without discarding anything.
    fn fill_buf(&mut self) -> (res: Result<&[u8], Self::Error>)
        ensures
            old(self).modelled() ==> {
                &&& final(self).modelled()
                &&& fill_step(
                    old(self).pending(),
                    res is Ok,
                    final(self).pending(),
                    final(self).buffered(),
                )
                &&& res matches Ok(bytes) ==> bytes@ == final(self).buffered()
            },
    ;

    /// Discards `amount` bytes from the front of the look-ahead buffer.
    fn consume(&mut self, amount: usize)
        ensures
            old(self).modelled() ==> final(self).modelled() && consume_step(
                old(self).pending(),
                old(self).buffered(),
                amount,
                final(self).pending(),
                final(self).buffered(),
            ),
    ;
}

} // verus!
