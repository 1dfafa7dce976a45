//! The contract that every transform of a pipeline meets.

use crate::arith::Arithmetic;
use crate::batch::{extends, Batch, BatchView};
use vstd::prelude::*;

verus! {

/// Why a stage refused a batch. Each of these ends the pipeline.
#[derive(Clone, Copy, Debug, PartialEq, Eq, Structural)]
pub enum StageError {
    /// The batch has no column of the name the stage reads.
    ColumnNotFound,
    /// The column the stage reads does not hold doubles.
    ColumnNotFloat,
    /// The batch already has a column of the name the stage would append.
    DuplicateColumn,
    /// The values to append are not one per row.
    LengthMismatch,
    /// The stage was configured with a window over which its statistic is
    /// not defined.
    EmptyWindow,
}

/// A stateful transform: one batch in, one batch out.
///
/// The output keeps the rows of the input in their order and every input
/// column at its position, and adds new columns after them, under names
/// that the input does not have.
pub trait ComputeStage {
    /// Why the stage refuses the batch, if it does. A stage that does not
    /// say leaves it open.
    open spec fn refusal(&self, batch: BatchView) -> Option<StageError> {
        arbitrary()
    }

    /// Takes the batch through the stage. The batch comes back extended
    /// unless the stage refuses it; a refused batch is lost.
    fn process<A: Arithmetic>(&mut self, batch: Batch) -> (r: Result<Batch, StageError>)
        ensures
            match r {
                Ok(out) => old(self).refusal(batch@) is None && extends(out@, batch@) && out@.wf(),
                Err(e) => old(self).refusal(batch@) == Some(e),
            },
    ;
}

} // verus!
