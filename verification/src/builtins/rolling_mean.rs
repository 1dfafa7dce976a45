//! Rolling mean over the last `window` values of a column.

use crate::arith::{added, divide_by_count, quotient, subtracted, Arithmetic};
use crate::batch::{lemma_append_extends, lemma_append_keeps, Batch, BatchView};
use crate::bits::NAN;
use crate::builtins::{evicted, lemma_window_grows, slid, slide, window_after};
use crate::compute::{ComputeStage, StageError};
use crate::schema::has_name;
use crate::text::{decimal, tagged_name};
use std::collections::VecDeque;
use vstd::prelude::*;

verus! {

/// The mean of the last `window` values of `column`, kept as a running sum:
/// each value is added as it arrives and subtracted as it leaves the window.
/// The window and the sum live on from one batch to the next.
pub struct RollingMean {
    column: String,
    window: usize,
    history: VecDeque<u64>,
    sum: u64,
}

/// What changes from row to row: the window and the running sum.
pub struct RollingState {
    pub history: Seq<u64>,
    pub sum: u64,
}

/// What a rolling mean is.
pub struct RollingMeanView {
    pub column: Seq<char>,
    pub window: usize,
    pub state: RollingState,
}

impl View for RollingMean {
    type V = RollingMeanView;

    closed spec fn view(&self) -> RollingMeanView {
        RollingMeanView {
            column: self.column@,
            window: self.window,
            state: RollingState { history: self.history@, sum: self.sum },
        }
    }
}

/// The name of the column that a rolling mean appends.
pub open spec fn rolling_mean_name(column: Seq<char>, window: usize) -> Seq<char> {
    column + "_rolling_mean_"@ + decimal(window as nat)
}

/// One row: `v` enters the window and is added to the sum, the value that
/// leaves the window is subtracted from it, and the row's output is the sum
/// divided by the window's size once the window is full, NaN before.
pub open spec fn rolling_row<A: Arithmetic>(
    window: usize,
    pre: RollingState,
    v: u64,
    post: RollingState,
    out: u64,
) -> bool {
    &&& post.history == slid(pre.history, window as nat, v)
    &&& exists|raised: u64| #[trigger]
        added::<A>(pre.sum, v, raised) && match evicted(pre.history, window as nat, v) {
            Some(oldest) => subtracted::<A>(raised, oldest, post.sum),
            None => post.sum == raised,
        }
    &&& if post.history.len() == window {
        quotient::<A>(post.sum, window, out)
    } else {
        out == NAN
    }
}

/// Row `i` of a run leads from state `i` of the trace to state `i + 1`.
pub open spec fn rolling_step<A: Arithmetic>(
    window: usize,
    trace: Seq<RollingState>,
    input: Seq<u64>,
    out: Seq<u64>,
    i: int,
) -> bool {
    rolling_row::<A>(window, trace[i], input[i], trace[i + 1], out[i])
}

/// `trace` holds the states that a run over `input` passes through, from
/// `pre` to `post`, and `out` the outputs of its rows.
pub open spec fn rolling_trace<A: Arithmetic>(
    window: usize,
    pre: RollingState,
    input: Seq<u64>,
    post: RollingState,
    out: Seq<u64>,
    trace: Seq<RollingState>,
) -> bool {
    &&& out.len() == input.len()
    &&& trace.len() == input.len() + 1
    &&& trace[0] == pre
    &&& trace.last() == post
    &&& forall|i: int|
        0 <= i < input.len() ==> #[trigger] rolling_step::<A>(window, trace, input, out, i)
}

/// Running the rows of `input` through the operator, in order, leads from
/// `pre` to `post` and gives `out`.
pub open spec fn rolling_run<A: Arithmetic>(
    window: usize,
    pre: RollingState,
    input: Seq<u64>,
    post: RollingState,
    out: Seq<u64>,
) -> bool {
    exists|trace: Seq<RollingState>| #[trigger]
        rolling_trace::<A>(window, pre, input, post, out, trace)
}

/// State `k` of a trace holds the window of the first `k` rows.
proof fn lemma_rolling_windows<A: Arithmetic>(
    window: usize,
    pre: RollingState,
    input: Seq<u64>,
    post: RollingState,
    out: Seq<u64>,
    trace: Seq<RollingState>,
    k: int,
)
    requires
        rolling_trace::<A>(window, pre, input, post, out, trace),
        pre.history.len() <= window,
        0 <= k <= input.len(),
    ensures
        trace[k].history == window_after(pre.history, window as nat, input.take(k)),
    decreases k,
{
    if k == 0 {
        lemma_window_grows(pre.history, window as nat, Seq::<u64>::empty(), 0u64);
    } else {
        lemma_rolling_windows::<A>(window, pre, input, post, out, trace, k - 1);
        assert(rolling_step::<A>(window, trace, input, out, k - 1));
        lemma_window_grows(pre.history, window as nat, input.take(k - 1), input[k - 1]);
    }
}

/// A rolling mean gives one output per row, keeps the last `window` values
/// it has seen, and gives NaN for every row before its window is full: a
/// fresh operator gives NaN for its first `window - 1` rows, however they
/// are split into batches.
pub proof fn lemma_rolling_mean_warms_up<A: Arithmetic>(
    window: usize,
    pre: RollingState,
    input: Seq<u64>,
    post: RollingState,
    out: Seq<u64>,
)
    requires
        rolling_run::<A>(window, pre, input, post, out),
        pre.history.len() <= window,
    ensures
        out.len() == input.len(),
        post.history == window_after(pre.history, window as nat, input),
        forall|i: int|
            0 <= i < out.len() && pre.history.len() + i + 1 < window ==> #[trigger] out[i] == NAN,
{
    let trace = choose|trace: Seq<RollingState>|
        rolling_trace::<A>(window, pre, input, post, out, trace);
    lemma_rolling_windows::<A>(window, pre, input, post, out, trace, input.len() as int);
    assert forall|i: int|
        0 <= i < out.len() && pre.history.len() + i + 1 < window implies #[trigger] out[i]
        == NAN by {
        lemma_rolling_windows::<A>(window, pre, input, post, out, trace, i + 1);
        assert(rolling_step::<A>(window, trace, input, out, i));
    }
}

/// A rolling mean refuses the batch that an operator of the same column and
/// window has appended its column to: the name is taken.
pub proof fn lemma_rolling_mean_once(op: RollingMeanView, batch: BatchView, values: Seq<u64>)
    requires
        batch.wf(),
        op.error(batch) is None,
        values.len() == batch.rows,
    ensures
        batch.with_floats(op.output(), values).wf(),
        op.error(batch.with_floats(op.output(), values)) == Some(StageError::DuplicateColumn),
{
    lemma_append_keeps(batch, op.output(), values, op.column);
}

impl RollingMeanView {
    /// The name of the appended column.
    pub open spec fn output(self) -> Seq<char> {
        rolling_mean_name(self.column, self.window)
    }

    /// Why a batch is refused, if it is: the column cannot be read, or else
    /// the output's name is taken.
    pub open spec fn error(self, batch: BatchView) -> Option<StageError> {
        if batch.read_error(self.column) is Some {
            batch.read_error(self.column)
        } else if has_name(batch.schema, self.output()) {
            Some(StageError::DuplicateColumn)
        } else {
            None
        }
    }
}

impl RollingMean {
    /// The window never holds more values than its size.
    #[verifier::type_invariant]
    pub closed spec fn wf(&self) -> bool {
        self.history@.len() <= self.window
    }

    /// A rolling mean of `column` over `window` rows that has seen no value.
    pub fn new(column: String, window: usize) -> (r: RollingMean)
        ensures
            r@ == (RollingMeanView {
                column: column@,
                window,
                state: RollingState { history: Seq::empty(), sum: crate::bits::ZERO },
            }),
    {
        RollingMean { column, window, history: VecDeque::with_capacity(window), sum: 0 }
    }

    /// The column that is read.
    pub fn column(&self) -> (r: &String)
        ensures
            r@ == self@.column,
    {
        &self.column
    }

    /// The size of the window.
    pub fn window(&self) -> (r: usize)
        ensures
            r == self@.window,
            self@.state.history.len() <= r,
    {
        proof {
            use_type_invariant(self);
        }
        self.window
    }
}

impl ComputeStage for RollingMean {
    open spec fn refusal(&self, batch: BatchView) -> Option<StageError> {
        self@.error(batch)
    }

    /// Appends the column `{column}_rolling_mean_{window}`.
    fn process<A: Arithmetic>(&mut self, batch: Batch) -> (r: Result<Batch, StageError>)
        ensures
            final(self)@.column == old(self)@.column,
            final(self)@.window == old(self)@.window,
            match r {
                Ok(out) => {
                    &&& old(self)@.error(batch@) is None
                    &&& out@ == batch@.with_floats(old(self)@.output(), out@.last_floats())
                    &&& rolling_run::<A>(
                        old(self)@.window,
                        old(self)@.state,
                        batch@.named_floats(old(self)@.column),
                        final(self)@.state,
                        out@.last_floats(),
                    )
                },
                Err(e) => old(self)@.error(batch@) == Some(e) && final(self)@ == old(self)@,
            },
    {
        proof {
            use_type_invariant(&*self);
        }
        let name: String = tagged_name(self.column.as_str(), "_rolling_mean_", self.window);
        let input: &Vec<u64> = match batch.floats_of(self.column.as_str()) {
            Ok(values) => values,
            Err(e) => {
                return Err(e);
            },
        };
        if batch.schema().index_of(name.as_str()).is_some() {
            return Err(StageError::DuplicateColumn);
        }
        let n: usize = input.len();
        let window: usize = self.window;
        let mut output: Vec<u64> = Vec::with_capacity(n);
        let mut history: VecDeque<u64> = VecDeque::new();
        std::mem::swap(&mut self.history, &mut history);
        let mut sum: u64 = self.sum;
        let ghost pre = old(self)@.state;
        let ghost mut trace: Seq<RollingState> = seq![pre];
        let mut i: usize = 0;
        while i < n
            invariant
                i <= n,
                n == input@.len(),
                history@.len() <= window,
                rolling_trace::<A>(
                    window,
                    pre,
                    input@.take(i as int),
                    RollingState { history: history@, sum },
                    output@,
                    trace,
                ),
            decreases n - i,
        {
            let v: u64 = input[i];
            let ghost before = RollingState { history: history@, sum };
            let ghost earlier = output@;
            let gone: Option<u64> = slide(&mut history, window, v);
            let raised: u64 = A::add(sum, v);
            sum = match gone {
                Some(oldest) => A::sub(raised, oldest),
                None => raised,
            };
            let mean: u64 = if history.len() == window {
                divide_by_count::<A>(sum, window)
            } else {
                NAN
            };
            output.push(mean);
            proof {
                let after = RollingState { history: history@, sum };
                let grown = trace.push(after);
                let seen = input@.take(i + 1);
                assert(added::<A>(before.sum, v, raised));
                assert forall|k: int| 0 <= k < seen.len() implies #[trigger] rolling_step::<A>(
                    window,
                    grown,
                    seen,
                    output@,
                    k,
                ) by {
                    if k < i {
                        assert(rolling_step::<A>(
                            window,
                            trace,
                            input@.take(i as int),
                            earlier,
                            k,
                        ));
                    }
                }
                trace = grown;
            }
            i += 1;
        }
        self.history = history;
        self.sum = sum;
        proof {
            assert(input@.take(n as int) =~= input@);
        }
        let ghost produced = output@;
        match batch.with_floats(name, output) {
            Ok(out) => {
                proof {
                    lemma_append_extends(batch@, name@, produced);
                    use_type_invariant(&out);
                }
                Ok(out)
            },
            Err(e) => Err(e),
        }
    }
}

} // verus!
