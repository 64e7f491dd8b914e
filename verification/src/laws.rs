//! What holds of a limited view over any run of calls.
//!
//! The contracts of the view say what one call does. The lemmas here put
//! calls together: they are stated over the same relations and follow from
//! them alone.
use crate::stream::{consume_step, read_step, Readable};
use crate::take::{clamp, read_counted, window, RefTake};
use vstd::prelude::*;

verus! {

/// The number of bytes that a run of reads has reported, a failure counting
/// for nothing.
pub open spec fn delivered<E>(results: Seq<Result<usize, E>>) -> nat
    decreases results.len(),
{
    if results.len() == 0 {
        0
    } else {
        delivered(results.drop_last()) + match results.last() {
            Ok(n) => n as nat,
            Err(_) => 0,
        }
    }
}

/// A run of reads through one view whose limit nobody sets in between.
///
/// `limits[i]` is what remained before read number `i`, `capacities[i]` the
/// size of its buffer and `results[i]` its result; the last of `limits` is
/// what remains after the run.
pub open spec fn read_run<E>(
    limits: Seq<u64>,
    capacities: Seq<nat>,
    results: Seq<Result<usize, E>>,
) -> bool {
    &&& limits.len() == results.len() + 1
    &&& capacities.len() == results.len()
    &&& forall|i: int|
        0 <= i < results.len() ==> read_counted(
            limits[i],
            capacities[i],
            #[trigger] results[i],
            limits[i + 1],
        )
}

/// However a run of reads goes, the bytes it reports and the bytes that
/// remain add up to the limit the run began with. So the reads never report
/// more than that limit, and every read that comes after they have reported
/// all of it answers `Ok(0)`.
pub proof fn lemma_reads_stay_within_limit<E>(
    limits: Seq<u64>,
    capacities: Seq<nat>,
    results: Seq<Result<usize, E>>,
)
    requires
        read_run(limits, capacities, results),
    ensures
        delivered(results) + limits.last() == limits[0],
        delivered(results) <= limits[0],
        forall|i: int|
            0 <= i < results.len() && delivered(results.take(i)) == limits[0]
                ==> #[trigger] results[i] == Ok::<usize, E>(0usize),
    decreases results.len(),
{
    if results.len() > 0 {
        let k = results.len() - 1;
        let shorter = results.drop_last();
        lemma_reads_stay_within_limit(limits.drop_last(), capacities.drop_last(), shorter);
        assert(read_counted(limits[k], capacities[k], results[k], limits[k + 1]));
        assert forall|i: int|
            0 <= i < results.len() && delivered(results.take(i))
                == limits[0] implies #[trigger] results[i] == Ok::<usize, E>(0usize) by {
            if i < k {
                assert(results.take(i) =~= shorter.take(i));
                assert(results[i] == shorter[i]);
            } else {
                assert(results.take(i) =~= shorter);
            }
        }
    }
}

/// A limit set anew opens exactly that many bytes of the stream, or all the
/// stream has if that is less, whatever the view had let pass before and
/// whatever limit it had.
pub proof fn lemma_set_limit_opens_anew<'a, R: Readable>(
    before: RefTake<'a, R>,
    after: RefTake<'a, R>,
    limit: u64,
)
    requires
        after.remaining() == limit,
        after.stream() == before.stream(),
    ensures
        after.pending() == window(before.stream().pending(), limit),
        after.pending().len() == vstd::math::min(
            limit as int,
            before.stream().pending().len() as int,
        ),
{
}

/// To consume more than remains is to consume what remains: nothing is left
/// of the limit, and the stream is told to drop what remained, not what was
/// asked for. Where its look-ahead buffer covers that, it drops exactly that.
///
/// `pending` and `buffered` are the stream before the call, `pending_after`
/// and `buffered_after` after it, as the contract of the view's `consume`
/// relates them.
pub proof fn lemma_consume_beyond_limit(
    pending: Seq<u8>,
    buffered: Seq<u8>,
    amount: usize,
    remaining: u64,
    pending_after: Seq<u8>,
    buffered_after: Seq<u8>,
)
    requires
        amount > remaining,
        consume_step(pending, buffered, clamp(amount, remaining), pending_after, buffered_after),
    ensures
        clamp(amount, remaining) == remaining,
        clamp(amount, remaining) == clamp(remaining as usize, remaining),
        remaining - clamp(amount, remaining) == 0,
        consume_step(pending, buffered, remaining as usize, pending_after, buffered_after),
        remaining <= buffered.len() && remaining <= pending.len() ==> {
            &&& pending_after == pending.skip(remaining as int)
            &&& buffered_after == buffered.skip(remaining as int)
        },
{
}

/// A read loses nothing and repeats nothing: the bytes it put into the
/// buffer, followed by what the stream still holds, are what the stream held
/// before. After a failure the stream holds what it held.
pub proof fn lemma_read_keeps_order<E>(
    pending: Seq<u8>,
    buf: Seq<u8>,
    res: Result<usize, E>,
    pending_after: Seq<u8>,
    buf_after: Seq<u8>,
)
    requires
        read_step(pending, buf, res, pending_after, buf_after),
    ensures
        match res {
            Ok(n) => buf_after.take(n as int) + pending_after == pending,
            Err(_) => pending_after == pending,
        },
{
    if let Ok(n) = res {
        assert(buf_after.take(n as int) =~= pending.take(n as int));
        assert(pending.take(n as int) + pending.skip(n as int) =~= pending);
    }
}

/// The chunks of a run, joined in the order in which they came.
pub open spec fn joined(chunks: Seq<Seq<u8>>) -> Seq<u8>
    decreases chunks.len(),
{
    if chunks.len() == 0 {
        Seq::empty()
    } else {
        joined(chunks.drop_last()) + chunks.last()
    }
}

/// Over a run of calls each of which takes a chunk off the front of the
/// stream, the chunks joined in order, followed by what the stream holds at
/// the end, are what it held at the start. So whoever reads the stream once
/// the view is gone finds exactly the bytes that the view did not take, in
/// their order.
///
/// `pendings[i]` is what the stream held before call number `i`, `chunks[i]`
/// what that call took; the last of `pendings` is what the stream holds after
/// the run.
pub proof fn lemma_run_keeps_order(pendings: Seq<Seq<u8>>, chunks: Seq<Seq<u8>>)
    requires
        pendings.len() == chunks.len() + 1,
        forall|i: int|
            0 <= i < chunks.len() ==> #[trigger] chunks[i] + pendings[i + 1] == pendings[i],
    ensures
        joined(chunks) + pendings.last() == pendings[0],
    decreases chunks.len(),
{
    if chunks.len() > 0 {
        let k = chunks.len() - 1;
        lemma_run_keeps_order(pendings.drop_last(), chunks.drop_last());
        assert(chunks[k] + pendings[k + 1] == pendings[k]);
        assert(joined(chunks) + pendings.last() =~= joined(chunks.drop_last()) + (chunks[k]
            + pendings[k + 1]));
    } else {
        assert(joined(chunks) + pendings.last() =~= pendings[0]);
    }
}

/// A consume that the look-ahead buffer covers drops exactly `amount` bytes
/// from the front of the stream, and they are the bytes that were shown.
pub proof fn lemma_consume_keeps_order(
    pending: Seq<u8>,
    buffered: Seq<u8>,
    amount: usize,
    pending_after: Seq<u8>,
    buffered_after: Seq<u8>,
)
    requires
        buffered.is_prefix_of(pending),
        amount <= buffered.len(),
        consume_step(pending, buffered, amount, pending_after, buffered_after),
    ensures
        buffered.take(amount as int) + pending_after == pending,
        buffered_after.is_prefix_of(pending_after),
{
    assert(buffered.take(amount as int) =~= pending.take(amount as int));
    assert(pending.take(amount as int) + pending.skip(amount as int) =~= pending);
    assert(buffered.skip(amount as int) =~= pending.skip(amount as int).take(
        buffered.len() - amount,
    ));
}

/// What a view shows of a buffer is a prefix of it, as long as the limit
/// allows and no longer than the buffer.
pub proof fn lemma_window_is_bounded_prefix(bytes: Seq<u8>, limit: u64)
    ensures
        window(bytes, limit).is_prefix_of(bytes),
        window(bytes, limit).len() == vstd::math::min(limit as int, bytes.len() as int),
        window(bytes, limit).len() <= limit,
        window(bytes, limit).len() <= bytes.len(),
{
}

} // verus!
