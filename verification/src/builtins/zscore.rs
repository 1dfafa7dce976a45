//! Z-score of a column against its last `lookback` values.

use crate::arith::{
    divide_by_count, divided, lemma_total_extend, multiplied, quotient, rooted,
    subtracted, total, Arithmetic,
};
use crate::batch::{lemma_append_extends, lemma_append_keeps, Batch, BatchView};
use crate::bits::{is_zero, zero, NAN, ZERO};
use crate::builtins::{lemma_window_grows, slide, window_after};
use crate::compute::{ComputeStage, StageError};
use crate::schema::has_name;
use crate::text::{decimal, tagged_name};
use std::collections::VecDeque;
use vstd::prelude::*;

verus! {

/// How far each value of `column` lies from the mean of the last `lookback`
/// values, in sample standard deviations. The window lives on from one batch
/// to the next.
pub struct ZScore {
    column: String,
    lookback: usize,
    history: VecDeque<u64>,
}

/// What a z-score operator is.
pub struct ZScoreView {
    pub column: Seq<char>,
    pub lookback: usize,
    pub history: Seq<u64>,
}

impl View for ZScore {
    type V = ZScoreView;

    closed spec fn view(&self) -> ZScoreView {
        ZScoreView { column: self.column@, lookback: self.lookback, history: self.history@ }
    }
}

/// The name of the column that a z-score operator appends.
pub open spec fn zscore_name(column: Seq<char>, lookback: usize) -> Seq<char> {
    column + "_zscore_"@ + decimal(lookback as nat)
}

/// `mean` is the mean of the window `w` of `n` values: their sum, taken from
/// the oldest to the newest, divided by `n`.
pub open spec fn mean_of<A: Arithmetic>(w: Seq<u64>, n: usize, mean: u64) -> bool {
    exists|sum: u64| total::<A>(w[0], w.drop_first(), sum) && #[trigger] quotient::<A>(sum, n, mean)
}

/// `q` is the square of the distance of `x` from `mean`.
pub open spec fn squared_gap<A: Arithmetic>(x: u64, mean: u64, q: u64) -> bool {
    exists|d: u64| #[trigger] subtracted::<A>(x, mean, d) && multiplied::<A>(d, d, q)
}

/// `squares` holds, for each value of `w`, the square of its distance from
/// `mean`.
pub open spec fn squares<A: Arithmetic>(w: Seq<u64>, mean: u64, squares: Seq<u64>) -> bool {
    &&& squares.len() == w.len()
    &&& forall|i: int| 0 <= i < w.len() ==> #[trigger] squared_gap::<A>(w[i], mean, squares[i])
}

/// `sd` is the sample standard deviation of `w` about `mean`: the square
/// root of the sum of the squared distances divided by `divisor`, which is
/// one less than the number of values.
pub open spec fn spread_of<A: Arithmetic>(w: Seq<u64>, divisor: usize, mean: u64, sd: u64) -> bool {
    exists|sq: Seq<u64>, sum: u64, variance: u64|
        #![trigger squares::<A>(w, mean, sq), quotient::<A>(sum, divisor, variance)]
        squares::<A>(w, mean, sq) && total::<A>(sq[0], sq.drop_first(), sum) && quotient::<A>(
            sum,
            divisor,
            variance,
        ) && rooted::<A>(variance, sd)
}

/// `z` is the score of `v` for the given mean and deviation: zero where the
/// deviation is zero, else the distance from the mean divided by the
/// deviation.
pub open spec fn standardized<A: Arithmetic>(v: u64, mean: u64, sd: u64, z: u64) -> bool {
    if zero(sd) {
        z == ZERO
    } else {
        exists|d: u64| #[trigger] subtracted::<A>(v, mean, d) && divided::<A>(d, sd, z)
    }
}

/// `z` is the z-score of the newest value of the full window `w` of `n`
/// values.
pub open spec fn scored<A: Arithmetic>(w: Seq<u64>, n: usize, z: u64) -> bool {
    let divisor = (n - 1) as usize;
    exists|mean: u64, sd: u64|
        mean_of::<A>(w, n, mean) && #[trigger] spread_of::<A>(w, divisor, mean, sd)
            && standardized::<A>(w.last(), mean, sd, z)
}

/// The output of a row after which the window is `w`: NaN until the window
/// holds `lookback` values, the z-score of the newest value from there on.
pub open spec fn zscore_row<A: Arithmetic>(lookback: usize, w: Seq<u64>, out: u64) -> bool {
    if w.len() < lookback {
        out == NAN
    } else {
        scored::<A>(w, lookback, out)
    }
}

/// Row `i` of a run meets [`zscore_row`] for the window of the rows up to
/// and with it.
pub open spec fn zscore_step<A: Arithmetic>(
    lookback: usize,
    pre: Seq<u64>,
    input: Seq<u64>,
    out: Seq<u64>,
    i: int,
) -> bool {
    zscore_row::<A>(lookback, window_after(pre, lookback as nat, input.take(i + 1)), out[i])
}

/// Running the rows of `input` through the operator, in order, gives `out`.
pub open spec fn zscore_run<A: Arithmetic>(
    lookback: usize,
    pre: Seq<u64>,
    input: Seq<u64>,
    out: Seq<u64>,
) -> bool {
    &&& out.len() == input.len()
    &&& forall|i: int|
        0 <= i < input.len() ==> #[trigger] zscore_step::<A>(lookback, pre, input, out, i)
}

/// A z-score operator gives one output per row, and NaN for every row
/// before its window is full: a fresh operator gives NaN for its first
/// `lookback - 1` rows, however they are split into batches.
pub proof fn lemma_zscore_warms_up<A: Arithmetic>(
    lookback: usize,
    pre: Seq<u64>,
    input: Seq<u64>,
    out: Seq<u64>,
)
    requires
        zscore_run::<A>(lookback, pre, input, out),
    ensures
        out.len() == input.len(),
        forall|i: int|
            0 <= i < out.len() && pre.len() + i + 1 < lookback ==> #[trigger] out[i] == NAN,
{
    assert forall|i: int|
        0 <= i < out.len() && pre.len() + i + 1 < lookback implies #[trigger] out[i] == NAN by {
        assert(zscore_step::<A>(lookback, pre, input, out, i));
    }
}

/// A z-score operator refuses the batch that an operator of the same column
/// and lookback has appended its column to: the name is taken.
pub proof fn lemma_zscore_once(op: ZScoreView, batch: BatchView, values: Seq<u64>)
    requires
        batch.wf(),
        op.error(batch) is None,
        values.len() == batch.rows,
    ensures
        batch.with_floats(op.output(), values).wf(),
        op.error(batch.with_floats(op.output(), values)) == Some(StageError::DuplicateColumn),
{
    lemma_append_keeps(batch, op.output(), values, op.column);
}

impl ZScoreView {
    /// The name of the appended column.
    pub open spec fn output(self) -> Seq<char> {
        zscore_name(self.column, self.lookback)
    }

    /// Why a batch is refused, if it is: the window is empty, or else the
    /// column cannot be read, or else the output's name is taken.
    pub open spec fn error(self, batch: BatchView) -> Option<StageError> {
        if self.lookback == 0 {
            Some(StageError::EmptyWindow)
        } else if batch.read_error(self.column) is Some {
            batch.read_error(self.column)
        } else if has_name(batch.schema, self.output()) {
            Some(StageError::DuplicateColumn)
        } else {
            None
        }
    }
}

/// The sum of a window, from its oldest value to its newest.
fn sum_window<A: Arithmetic>(w: &VecDeque<u64>) -> (sum: u64)
    requires
        w@.len() > 0,
    ensures
        total::<A>(w@[0], w@.drop_first(), sum),
{
    let mut sum: u64 = w[0];
    let mut j: usize = 1;
    while j < w.len()
        invariant
            1 <= j <= w@.len(),
            total::<A>(w@[0], w@.subrange(1, j as int), sum),
        decreases w@.len() - j,
    {
        let next: u64 = A::add(sum, w[j]);
        proof {
            lemma_total_extend::<A>(w@[0], w@.subrange(1, j as int), sum, w@[j as int], next);
            assert(w@.subrange(1, j as int).push(w@[j as int]) =~= w@.subrange(1, j + 1));
        }
        sum = next;
        j += 1;
    }
    sum
}

/// The squared distances of the values of a window from `mean`.
fn squares_of<A: Arithmetic>(w: &VecDeque<u64>, mean: u64) -> (sq: VecDeque<u64>)
    ensures
        squares::<A>(w@, mean, sq@),
{
    let mut sq: VecDeque<u64> = VecDeque::with_capacity(w.len());
    let mut j: usize = 0;
    while j < w.len()
        invariant
            j <= w@.len(),
            sq@.len() == j,
            forall|k: int| 0 <= k < j ==> #[trigger] squared_gap::<A>(w@[k], mean, sq@[k]),
        decreases w@.len() - j,
    {
        let d: u64 = A::sub(w[j], mean);
        let q: u64 = A::mul(d, d);
        assert(subtracted::<A>(w@[j as int], mean, d) && multiplied::<A>(d, d, q));
        sq.push_back(q);
        j += 1;
    }
    sq
}

/// The z-score of the newest value of a full window.
fn score<A: Arithmetic>(w: &VecDeque<u64>, n: usize) -> (z: u64)
    requires
        n >= 1,
        w@.len() == n,
    ensures
        scored::<A>(w@, n, z),
{
    let sum: u64 = sum_window::<A>(w);
    let mean: u64 = divide_by_count::<A>(sum, n);
    let sq: VecDeque<u64> = squares_of::<A>(w, mean);
    let sum_sq: u64 = sum_window::<A>(&sq);
    let variance: u64 = divide_by_count::<A>(sum_sq, n - 1);
    let sd: u64 = A::sqrt(variance);
    assert(spread_of::<A>(w@, (n - 1) as usize, mean, sd));
    let v: u64 = w[n - 1];
    if is_zero(sd) {
        ZERO
    } else {
        let d: u64 = A::sub(v, mean);
        let z: u64 = A::div(d, sd);
        assert(subtracted::<A>(v, mean, d) && divided::<A>(d, sd, z));
        z
    }
}

impl ZScore {
    /// The window never holds more values than its size.
    #[verifier::type_invariant]
    pub closed spec fn wf(&self) -> bool {
        self.history@.len() <= self.lookback
    }

    /// A z-score of `column` over `lookback` rows that has seen no value.
    pub fn new(column: String, lookback: usize) -> (r: ZScore)
        ensures
            r@ == (ZScoreView { column: column@, lookback, history: Seq::empty() }),
    {
        ZScore { column, lookback, history: VecDeque::with_capacity(lookback) }
    }

    /// The column that is read.
    pub fn column(&self) -> (r: &String)
        ensures
            r@ == self@.column,
    {
        &self.column
    }

    /// The size of the window.
    pub fn lookback(&self) -> (r: usize)
        ensures
            r == self@.lookback,
            self@.history.len() <= r,
    {
        proof {
            use_type_invariant(self);
        }
        self.lookback
    }
}

impl ComputeStage for ZScore {
    open spec fn refusal(&self, batch: BatchView) -> Option<StageError> {
        self@.error(batch)
    }

    /// Appends the column `{column}_zscore_{lookback}`.
    fn process<A: Arithmetic>(&mut self, batch: Batch) -> (r: Result<Batch, StageError>)
        ensures
            final(self)@.column == old(self)@.column,
            final(self)@.lookback == old(self)@.lookback,
            match r {
                Ok(out) => {
                    &&& old(self)@.error(batch@) is None
                    &&& out@ == batch@.with_floats(old(self)@.output(), out@.last_floats())
                    &&& final(self)@.history == window_after(
                        old(self)@.history,
                        old(self)@.lookback as nat,
                        batch@.named_floats(old(self)@.column),
                    )
                    &&& zscore_run::<A>(
                        old(self)@.lookback,
                        old(self)@.history,
                        batch@.named_floats(old(self)@.column),
                        out@.last_floats(),
                    )
                },
                Err(e) => old(self)@.error(batch@) == Some(e) && final(self)@ == old(self)@,
            },
    {
        proof {
            use_type_invariant(&*self);
        }
        let lookback: usize = self.lookback;
        if lookback == 0 {
            return Err(StageError::EmptyWindow);
        }
        let name: String = tagged_name(self.column.as_str(), "_zscore_", lookback);
        let input: &Vec<u64> = match batch.floats_of(self.column.as_str()) {
            Ok(values) => values,
            Err(e) => {
                return Err(e);
            },
        };
        if batch.schema().index_of(name.as_str()).is_some() {
            return Err(StageError::DuplicateColumn);
        }
        let n: usize = input.len();
        let mut output: Vec<u64> = Vec::with_capacity(n);
        let mut history: VecDeque<u64> = VecDeque::new();
        std::mem::swap(&mut self.history, &mut history);
        let ghost pre = history@;
        proof {
            lemma_window_grows(pre, lookback as nat, Seq::<u64>::empty(), 0u64);
        }
        let mut i: usize = 0;
        while i < n
            invariant
                i <= n,
                n == input@.len(),
                lookback >= 1,
                pre.len() <= lookback,
                history@.len() <= lookback,
                history@ == window_after(pre, lookback as nat, input@.take(i as int)),
                zscore_run::<A>(lookback, pre, input@.take(i as int), output@),
            decreases n - i,
        {
            let v: u64 = input[i];
            let ghost earlier = output@;
            slide(&mut history, lookback, v);
            proof {
                lemma_window_grows(pre, lookback as nat, input@.take(i as int), v);
                assert(input@.take(i as int).push(v) =~= input@.take(i + 1));
            }
            let z: u64 = if history.len() < lookback {
                NAN
            } else {
                score::<A>(&history, lookback)
            };
            output.push(z);
            proof {
                let seen = input@.take(i + 1);
                assert(seen.take(i + 1) =~= seen);
                assert forall|k: int| 0 <= k < seen.len() implies #[trigger] zscore_step::<A>(
                    lookback,
                    pre,
                    seen,
                    output@,
                    k,
                ) by {
                    if k < i {
                        assert(zscore_step::<A>(lookback, pre, input@.take(i as int), earlier, k));
                        assert(input@.take(i as int).take(k + 1) =~= seen.take(k + 1));
                    }
                }
            }
            i += 1;
        }
        self.history = history;
        proof {
            assert(input@.take(n as int) =~= input@);
        }
        let ghost produced = output@;
        match batch.with_floats(name, output) {
            Ok(out) => {
                proof {
                    lemma_append_extends(batch@, name@, produced);
                    use_type_invariant(&out);
                }
                Ok(out)
            },
            Err(e) => Err(e),
        }
    }
}

} // verus!
