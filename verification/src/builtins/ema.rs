//! Exponentially weighted moving average of a column.

use crate::arith::{added, counted, divided, multiplied, subtracted, Arithmetic};
use crate::batch::{lemma_append_extends, lemma_append_keeps, Batch, BatchView};
use crate::bits::{ONE, TWO};
use crate::compute::{ComputeStage, StageError};
use crate::schema::has_name;
use crate::text::{decimal, tagged_name};
use vstd::prelude::*;

verus! {

/// The moving average of `column` with smoothing factor `2 / (span + 1)`.
/// The first value ever seen seeds the average; it lives on from one batch
/// to the next.
pub struct Ema {
    column: String,
    span: usize,
    current: Option<u64>,
}

/// What a moving average is.
pub struct EmaView {
    pub column: Seq<char>,
    pub span: usize,
    pub current: Option<u64>,
}

impl View for Ema {
    type V = EmaView;

    closed spec fn view(&self) -> EmaView {
        EmaView { column: self.column@, span: self.span, current: self.current }
    }
}

/// The name of the column that a moving average appends.
pub open spec fn ema_name(column: Seq<char>, span: usize) -> Seq<char> {
    column + "_ema_"@ + decimal(span as nat)
}

/// `alpha` is the smoothing factor of `span`: two divided by the span plus
/// one.
pub open spec fn smoothing<A: Arithmetic>(span: usize, alpha: u64) -> bool {
    exists|n: u64, m: u64|
        counted::<A>(span, n) && #[trigger] added::<A>(n, ONE, m) && divided::<A>(TWO, m, alpha)
}

/// One row: the first value is its own average; every later value `v` moves
/// the average `p` to `alpha * v + (1 - alpha) * p`.
pub open spec fn ema_row<A: Arithmetic>(alpha: u64, prev: Option<u64>, v: u64, out: u64) -> bool {
    match prev {
        None => out == v,
        Some(p) => exists|fresh: u64, rest: u64, kept: u64|
            #![trigger multiplied::<A>(alpha, v, fresh), multiplied::<A>(rest, p, kept)]
            multiplied::<A>(alpha, v, fresh) && subtracted::<A>(ONE, alpha, rest)
                && multiplied::<A>(rest, p, kept) && added::<A>(fresh, kept, out),
    }
}

/// The average that row `i` of a run starts from: the operator's own before
/// the first row, the previous output after it.
pub open spec fn ema_before(pre: Option<u64>, out: Seq<u64>, i: int) -> Option<u64> {
    if i == 0 {
        pre
    } else {
        Some(out[i - 1])
    }
}

/// Row `i` of a run meets [`ema_row`].
pub open spec fn ema_step<A: Arithmetic>(
    alpha: u64,
    pre: Option<u64>,
    input: Seq<u64>,
    out: Seq<u64>,
    i: int,
) -> bool {
    ema_row::<A>(alpha, ema_before(pre, out, i), input[i], out[i])
}

/// Every row of a run with factor `alpha` meets [`ema_row`].
pub open spec fn ema_rows<A: Arithmetic>(
    alpha: u64,
    pre: Option<u64>,
    input: Seq<u64>,
    out: Seq<u64>,
) -> bool {
    &&& out.len() == input.len()
    &&& forall|i: int| 0 <= i < input.len() ==> #[trigger] ema_step::<A>(alpha, pre, input, out, i)
}

/// Running the rows of `input` through the operator, in order, leads from
/// the average `pre` to `post` and gives `out`.
pub open spec fn ema_run<A: Arithmetic>(
    span: usize,
    pre: Option<u64>,
    input: Seq<u64>,
    post: Option<u64>,
    out: Seq<u64>,
) -> bool {
    &&& post == ema_before(pre, out, input.len() as int)
    &&& exists|alpha: u64| smoothing::<A>(span, alpha) && #[trigger] ema_rows::<A>(
        alpha,
        pre,
        input,
        out,
    )
}

/// A moving average gives one output per row, and a fresh one gives the
/// first value back as its first output. After a run it holds its last
/// output.
pub proof fn lemma_ema_seeds<A: Arithmetic>(
    span: usize,
    pre: Option<u64>,
    input: Seq<u64>,
    post: Option<u64>,
    out: Seq<u64>,
)
    requires
        ema_run::<A>(span, pre, input, post, out),
    ensures
        out.len() == input.len(),
        pre is None && input.len() > 0 ==> out[0] == input[0],
        input.len() > 0 ==> post == Some(out.last()),
        input.len() == 0 ==> post == pre,
{
    let alpha = choose|alpha: u64|
        smoothing::<A>(span, alpha) && #[trigger] ema_rows::<A>(alpha, pre, input, out);
    if input.len() > 0 {
        assert(ema_step::<A>(alpha, pre, input, out, 0));
    }
}

/// A moving average refuses the batch that an operator of the same column
/// and span has appended its column to: the name is taken.
pub proof fn lemma_ema_once(op: EmaView, batch: BatchView, values: Seq<u64>)
    requires
        batch.wf(),
        op.error(batch) is None,
        values.len() == batch.rows,
    ensures
        batch.with_floats(op.output(), values).wf(),
        op.error(batch.with_floats(op.output(), values)) == Some(StageError::DuplicateColumn),
{
    lemma_append_keeps(batch, op.output(), values, op.column);
}

impl EmaView {
    /// The name of the appended column.
    pub open spec fn output(self) -> Seq<char> {
        ema_name(self.column, self.span)
    }

    /// Why a batch is refused, if it is: the column cannot be read, or else
    /// the output's name is taken.
    pub open spec fn error(self, batch: BatchView) -> Option<StageError> {
        if batch.read_error(self.column) is Some {
            batch.read_error(self.column)
        } else if has_name(batch.schema, self.output()) {
            Some(StageError::DuplicateColumn)
        } else {
            None
        }
    }
}

impl Ema {
    /// A moving average of `column` over `span` that has seen no value.
    pub fn new(column: String, span: usize) -> (r: Ema)
        ensures
            r@ == (EmaView { column: column@, span, current: None }),
    {
        Ema { column, span, current: None }
    }

    /// The column that is read.
    pub fn column(&self) -> (r: &String)
        ensures
            r@ == self@.column,
    {
        &self.column
    }

    /// The span.
    pub fn span(&self) -> (r: usize)
        ensures
            r == self@.span,
    {
        self.span
    }

    /// The average so far, if a value has been seen.
    pub fn current(&self) -> (r: Option<u64>)
        ensures
            r == self@.current,
    {
        self.current
    }
}

/// The smoothing factor of `span`.
fn smoothing_factor<A: Arithmetic>(span: usize) -> (alpha: u64)
    ensures
        smoothing::<A>(span, alpha),
{
    let n: u64 = A::from_count(span);
    let m: u64 = A::add(n, ONE);
    let alpha: u64 = A::div(TWO, m);
    assert(counted::<A>(span, n) && added::<A>(n, ONE, m) && divided::<A>(TWO, m, alpha));
    alpha
}

/// The average after `v`, given the average before it.
fn blend<A: Arithmetic>(alpha: u64, prev: Option<u64>, v: u64) -> (out: u64)
    ensures
        ema_row::<A>(alpha, prev, v, out),
{
    match prev {
        None => v,
        Some(p) => {
            let fresh: u64 = A::mul(alpha, v);
            let rest: u64 = A::sub(ONE, alpha);
            let kept: u64 = A::mul(rest, p);
            let out: u64 = A::add(fresh, kept);
            assert(multiplied::<A>(alpha, v, fresh) && subtracted::<A>(ONE, alpha, rest)
                && multiplied::<A>(rest, p, kept) && added::<A>(fresh, kept, out));
            out
        },
    }
}

impl ComputeStage for Ema {
    open spec fn refusal(&self, batch: BatchView) -> Option<StageError> {
        self@.error(batch)
    }

    /// Appends the column `{column}_ema_{span}`.
    fn process<A: Arithmetic>(&mut self, batch: Batch) -> (r: Result<Batch, StageError>)
        ensures
            final(self)@.column == old(self)@.column,
            final(self)@.span == old(self)@.span,
            match r {
                Ok(out) => {
                    &&& old(self)@.error(batch@) is None
                    &&& out@ == batch@.with_floats(old(self)@.output(), out@.last_floats())
                    &&& ema_run::<A>(
                        old(self)@.span,
                        old(self)@.current,
                        batch@.named_floats(old(self)@.column),
                        final(self)@.current,
                        out@.last_floats(),
                    )
                },
                Err(e) => old(self)@.error(batch@) == Some(e) && final(self)@ == old(self)@,
            },
    {
        let name: String = tagged_name(self.column.as_str(), "_ema_", self.span);
        let input: &Vec<u64> = match batch.floats_of(self.column.as_str()) {
            Ok(values) => values,
            Err(e) => {
                return Err(e);
            },
        };
        if batch.schema().index_of(name.as_str()).is_some() {
            return Err(StageError::DuplicateColumn);
        }
        let n: usize = input.len();
        let alpha: u64 = smoothing_factor::<A>(self.span);
        let ghost pre = self.current;
        let mut current: Option<u64> = self.current;
        let mut output: Vec<u64> = Vec::with_capacity(n);
        let mut i: usize = 0;
        while i < n
            invariant
                i <= n,
                n == input@.len(),
                current == ema_before(pre, output@, i as int),
                ema_rows::<A>(alpha, pre, input@.take(i as int), output@),
            decreases n - i,
        {
            let v: u64 = input[i];
            let ghost earlier = output@;
            let next: u64 = blend::<A>(alpha, current, v);
            current = Some(next);
            output.push(next);
            proof {
                let seen = input@.take(i + 1);
                assert forall|k: int| 0 <= k < seen.len() implies #[trigger] ema_step::<A>(
                    alpha,
                    pre,
                    seen,
                    output@,
                    k,
                ) by {
                    if k < i {
                        assert(ema_step::<A>(alpha, pre, input@.take(i as int), earlier, k));
                    }
                }
            }
            i += 1;
        }
        self.current = current;
        proof {
            assert(input@.take(n as int) =~= input@);
        }
        let ghost produced = output@;
        match batch.with_floats(name, output) {
            Ok(out) => {
                proof {
                    lemma_append_extends(batch@, name@, produced);
                    use_type_invariant(&out);
                }
                Ok(out)
            },
            Err(e) => Err(e),
        }
    }
}

} // verus!
