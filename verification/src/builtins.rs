//! The built-in operators and what they share: the sliding window and the
//! helper that appends a column of doubles.

use crate::arith::Arithmetic;
use crate::batch::{Batch, BatchView};
use crate::builtins::ema::{ema_run, Ema};
use crate::builtins::rolling_mean::{rolling_run, RollingMean};
use crate::builtins::vwap::{vwap_run, Vwap};
use crate::builtins::zscore::{zscore_run, ZScore};
use crate::compute::{ComputeStage, StageError};
use std::collections::VecDeque;
use vstd::prelude::*;

pub mod ema;
pub mod rolling_mean;
pub mod vwap;
pub mod zscore;

verus! {

/// The last `w` items of `s`; all of `s` if it has no more than `w`.
pub open spec fn tail<T>(s: Seq<T>, w: nat) -> Seq<T> {
    if s.len() > w {
        s.subrange(s.len() - w, s.len() as int)
    } else {
        s
    }
}

/// The window `h` of at most `w` items after `v` has entered it.
pub open spec fn slid<T>(h: Seq<T>, w: nat, v: T) -> Seq<T> {
    tail(h.push(v), w)
}

/// The item that leaves a window `h` of at most `w` items when `v` enters it,
/// if one does: the oldest, once the window is full.
pub open spec fn evicted<T>(h: Seq<T>, w: nat, v: T) -> Option<T> {
    if h.len() + 1 > w {
        Some(h.push(v)[0])
    } else {
        None
    }
}

/// The window of at most `w` items after the items `xs` have entered a
/// window `h`, one after the other.
pub open spec fn window_after<T>(h: Seq<T>, w: nat, xs: Seq<T>) -> Seq<T> {
    tail(h + xs, w)
}

/// Letting the items in one by one is letting them in together.
pub proof fn lemma_window_grows<T>(h: Seq<T>, w: nat, xs: Seq<T>, v: T)
    ensures
        slid(window_after(h, w, xs), w, v) == window_after(h, w, xs.push(v)),
        window_after(h, w, xs).len() <= w,
        h.len() <= w ==> window_after(h, w, Seq::<T>::empty()) == h,
{
}

/// Lets `v` enter the window and hands back the item that left it.
pub fn slide<T>(history: &mut VecDeque<T>, window: usize, v: T) -> (gone: Option<T>)
    requires
        old(history)@.len() <= window,
    ensures
        final(history)@ == slid(old(history)@, window as nat, v),
        final(history)@.len() <= window,
        gone == evicted(old(history)@, window as nat, v),
{
    history.push_back(v);
    if history.len() > window {
        let gone: Option<T> = history.pop_front();
        gone
    } else {
        None
    }
}

/// Appends `values` to `batch` as a nullable double column called `name`.
///
/// The schema of the result is that of `batch` plus the new field, its
/// columns are those of `batch` plus the new one. A name that `batch` has
/// already is refused, and so is a column that is not one value per row.
pub fn append_column(batch: Batch, values: Vec<u64>, name: String) -> (r: Result<Batch, StageError>)
    ensures
        match r {
            Ok(out) => batch@.append_error(name@, values@.len()) is None && out@
                == batch@.with_floats(name@, values@),
            Err(e) => batch@.append_error(name@, values@.len()) == Some(e),
        },
{
    batch.with_floats(name, values)
}

/// One of the built-in operators, with its state.
pub enum Operator {
    RollingMean(RollingMean),
    Ema(Ema),
    ZScore(ZScore),
    Vwap(Vwap),
}

impl Operator {
    /// The name of the column that the operator appends.
    pub open spec fn output(self) -> Seq<char> {
        match self {
            Operator::RollingMean(op) => op@.output(),
            Operator::Ema(op) => op@.output(),
            Operator::ZScore(op) => op@.output(),
            Operator::Vwap(op) => op@.output(),
        }
    }

    /// Why the operator refuses a batch, if it does.
    pub open spec fn error(self, batch: BatchView) -> Option<StageError> {
        match self {
            Operator::RollingMean(op) => op@.error(batch),
            Operator::Ema(op) => op@.error(batch),
            Operator::ZScore(op) => op@.error(batch),
            Operator::Vwap(op) => op@.error(batch),
        }
    }

    /// Running the rows of `batch` through the operator `self` leaves it as
    /// `post` and gives the values `out`.
    pub open spec fn ran<A: Arithmetic>(self, batch: BatchView, post: Operator, out: Seq<u64>) -> bool {
        match (self, post) {
            (Operator::RollingMean(a), Operator::RollingMean(b)) => {
                &&& b@.column == a@.column
                &&& b@.window == a@.window
                &&& rolling_run::<A>(
                    a@.window,
                    a@.state,
                    batch.named_floats(a@.column),
                    b@.state,
                    out,
                )
            },
            (Operator::Ema(a), Operator::Ema(b)) => {
                &&& b@.column == a@.column
                &&& b@.span == a@.span
                &&& ema_run::<A>(
                    a@.span,
                    a@.current,
                    batch.named_floats(a@.column),
                    b@.current,
                    out,
                )
            },
            (Operator::ZScore(a), Operator::ZScore(b)) => {
                &&& b@.column == a@.column
                &&& b@.lookback == a@.lookback
                &&& b@.history == window_after(
                    a@.history,
                    a@.lookback as nat,
                    batch.named_floats(a@.column),
                )
                &&& zscore_run::<A>(a@.lookback, a@.history, batch.named_floats(a@.column), out)
            },
            (Operator::Vwap(a), Operator::Vwap(b)) => {
                &&& b@.price_col == a@.price_col
                &&& b@.volume_col == a@.volume_col
                &&& b@.window == a@.window
                &&& vwap_run::<A>(
                    a@.window,
                    a@.history,
                    batch.named_floats(a@.price_col),
                    batch.named_floats(a@.volume_col),
                    b@.history,
                    out,
                )
            },
            _ => false,
        }
    }

    /// The operator's variant and what it shows of itself are those of
    /// `other`.
    pub open spec fn same_as(self, other: Operator) -> bool {
        match (self, other) {
            (Operator::RollingMean(a), Operator::RollingMean(b)) => a@ == b@,
            (Operator::Ema(a), Operator::Ema(b)) => a@ == b@,
            (Operator::ZScore(a), Operator::ZScore(b)) => a@ == b@,
            (Operator::Vwap(a), Operator::Vwap(b)) => a@ == b@,
            _ => false,
        }
    }
}

impl ComputeStage for Operator {
    open spec fn refusal(&self, batch: BatchView) -> Option<StageError> {
        self.error(batch)
    }

    /// Hands the batch to the operator it holds.
    fn process<A: Arithmetic>(&mut self, batch: Batch) -> (r: Result<Batch, StageError>)
        ensures
            match r {
                Ok(out) => {
                    &&& old(self).error(batch@) is None
                    &&& out@ == batch@.with_floats(old(self).output(), out@.last_floats())
                    &&& old(self).ran::<A>(batch@, *final(self), out@.last_floats())
                },
                Err(e) => old(self).error(batch@) == Some(e) && final(self).same_as(*old(self)),
            },
    {
        match self {
            Operator::RollingMean(op) => op.process::<A>(batch),
            Operator::Ema(op) => op.process::<A>(batch),
            Operator::ZScore(op) => op.process::<A>(batch),
            Operator::Vwap(op) => op.process::<A>(batch),
        }
    }
}

} // verus!
