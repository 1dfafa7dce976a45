//! One turn of a worker's loop: take what the input channel gives, decide,
//! and send on. A worker runs its turn until the turn says that the input
//! has ended.

use crate::arith::Arithmetic;
use crate::batch::{Batch, BatchView};
use crate::batcher::Batcher;
use crate::builtins::Operator;
use crate::channel::{deliver, receive, receive_now};
use crate::compute::{ComputeStage, StageError};
use crate::rows::{CellView, Row};
use crossbeam_channel::{Receiver, Sender};
use vstd::prelude::*;

verus! {

/// One turn of the batcher's worker. It waits for a row; then it takes the
/// rows that wait in the channel until they complete a batch, and sends the
/// batch. When the rows have ended it sends what is left as a last batch.
///
/// Says whether the worker goes on. After a turn that goes on, the batcher
/// is as it is after the rows that the turn took; after the last turn it is
/// flushed.
pub fn batcher_turn(batcher: &mut Batcher, rows: &Receiver<Row>, batches: &Sender<Batch>) -> (more:
    bool)
    ensures
        final(batcher)@.wf(),
        more ==> exists|taken: Seq<Seq<CellView>>|
            taken.len() >= 1 && #[trigger] old(batcher)@.fed(taken) == final(batcher)@,
        !more ==> final(batcher)@ == old(batcher)@.flushed(),
{
    let first: Row = match receive(rows) {
        Some(row) => row,
        None => {
            if let Some(last) = batcher.flush() {
                deliver(batches, last);
            }
            return false;
        },
    };
    let ghost start = batcher@;
    let ghost mut taken: Seq<Seq<CellView>> = seq![first@];
    proof {
        assert(start.fed(taken.drop_last()) == start);
    }
    let mut done: Option<Batch> = batcher.push(first);
    while done.is_none()
        invariant
            taken.len() >= 1,
            batcher@ == start.fed(taken),
            batcher@.wf(),
            done is None ==> batcher@.buffer.len() < batcher@.batch_size,
        decreases
            if done is None {
                batcher@.batch_size - batcher@.buffer.len()
            } else {
                0
            },
    {
        let row: Row = match receive_now(rows) {
            Some(row) => row,
            None => {
                break ;
            },
        };
        proof {
            assert(taken.push(row@).drop_last() =~= taken);
            taken = taken.push(row@);
        }
        let next: Option<Batch> = batcher.push(row);
        if next.is_some() {
            done = next;
        }
    }
    if let Some(batch) = done {
        deliver(batches, batch);
    }
    true
}

/// One turn of a transform's worker. It waits for a batch, hands it to the
/// operator and sends on what the operator returns.
///
/// Says whether the worker goes on: it does after a batch, it does not once
/// the batches have ended. A batch that the operator refuses ends the worker
/// with the operator's error.
pub fn transform_turn<A: Arithmetic>(
    operator: &mut Operator,
    input: &Receiver<Batch>,
    output: &Sender<Batch>,
) -> (r: Result<bool, StageError>)
    ensures
        match r {
            Ok(true) => exists|batch: BatchView, out: Seq<u64>|
                old(operator).error(batch) is None && #[trigger] old(operator).ran::<A>(
                    batch,
                    *final(operator),
                    out,
                ),
            Ok(false) => final(operator).same_as(*old(operator)),
            Err(e) => final(operator).same_as(*old(operator)) && exists|batch: BatchView| #[trigger]
                old(operator).error(batch) == Some(e),
        },
{
    match transform_step::<A>(operator, receive(input)) {
        Ok(Some(out)) => {
            deliver(output, out);
            Ok(true)
        },
        Ok(None) => Ok(false),
        Err(e) => Err(e),
    }
}

/// What a transform's worker makes of what its input gave. Where the input
/// has ended, nothing is to be sent and the operator stays as it is. A batch
/// goes through the operator: what the operator returns is to be sent on, and
/// a batch that it refuses ends the worker with the operator's error.
pub fn transform_step<A: Arithmetic>(operator: &mut Operator, message: Option<Batch>) -> (r: Result<
    Option<Batch>,
    StageError,
>)
    ensures
        match (message, r) {
            (None, Ok(None)) => final(operator).same_as(*old(operator)),
            (Some(batch), Ok(Some(out))) => {
                &&& old(operator).error(batch@) is None
                &&& out@ == batch@.with_floats(old(operator).output(), out@.last_floats())
                &&& old(operator).ran::<A>(batch@, *final(operator), out@.last_floats())
            },
            (Some(batch), Err(e)) => {
                &&& old(operator).error(batch@) == Some(e)
                &&& final(operator).same_as(*old(operator))
            },
            _ => false,
        },
{
    match message {
        None => {
            proof {
                lemma_same(*operator);
            }
            Ok(None)
        },
        Some(batch) => match operator.process::<A>(batch) {
            Ok(out) => Ok(Some(out)),
            Err(e) => Err(e),
        },
    }
}

/// An operator is the same as itself.
proof fn lemma_same(operator: Operator)
    ensures
        operator.same_as(operator),
{
}

} // verus!
