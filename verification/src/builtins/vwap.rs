//! Volume-weighted average price over the last `window` rows.

use crate::arith::{divided, lemma_total_extend, multiplied, total, Arithmetic};
use crate::batch::{lemma_append_extends, lemma_append_keeps, Batch, BatchView};
use crate::bits::{is_zero, zero, NAN, ZERO};
use crate::builtins::{lemma_window_grows, slide, window_after};
use crate::compute::{ComputeStage, StageError};
use crate::schema::has_name;
use crate::text::{decimal, tagged_name};
use std::collections::VecDeque;
use vstd::prelude::*;

verus! {

/// The sum of price times volume over the last `window` rows, divided by the
/// sum of their volumes. The window holds, for each row, the product and the
/// volume; it lives on from one batch to the next.
pub struct Vwap {
    price_col: String,
    volume_col: String,
    window: usize,
    history: VecDeque<(u64, u64)>,
}

/// What a volume-weighted average is.
pub struct VwapView {
    pub price_col: Seq<char>,
    pub volume_col: Seq<char>,
    pub window: usize,
    pub history: Seq<(u64, u64)>,
}

impl View for Vwap {
    type V = VwapView;

    closed spec fn view(&self) -> VwapView {
        VwapView {
            price_col: self.price_col@,
            volume_col: self.volume_col@,
            window: self.window,
            history: self.history@,
        }
    }
}

/// The name of the column that a volume-weighted average appends.
pub open spec fn vwap_name(window: usize) -> Seq<char> {
    "vwap_"@ + decimal(window as nat)
}

/// `pv` holds, row by row, the price times the volume.
pub open spec fn products<A: Arithmetic>(prices: Seq<u64>, volumes: Seq<u64>, pv: Seq<u64>) -> bool {
    &&& pv.len() == prices.len()
    &&& forall|i: int|
        0 <= i < prices.len() ==> #[trigger] multiplied::<A>(prices[i], volumes[i], pv[i])
}

/// What enters the window, row by row: the product and the volume.
pub open spec fn entries(pv: Seq<u64>, volumes: Seq<u64>) -> Seq<(u64, u64)> {
    Seq::new(pv.len(), |i: int| (pv[i], volumes[i]))
}

/// The products of a window, oldest first.
pub open spec fn weights(w: Seq<(u64, u64)>) -> Seq<u64> {
    Seq::new(w.len(), |i: int| w[i].0)
}

/// The volumes of a window, oldest first.
pub open spec fn volumes_of(w: Seq<(u64, u64)>) -> Seq<u64> {
    Seq::new(w.len(), |i: int| w[i].1)
}

/// `out` is the ratio of the two sums: NaN where the volumes sum to zero,
/// else the first sum divided by the second.
pub open spec fn ratio<A: Arithmetic>(weight: u64, volume: u64, out: u64) -> bool {
    if zero(volume) {
        out == NAN
    } else {
        divided::<A>(weight, volume, out)
    }
}

/// `out` is the average of the full window `w`: its products and its volumes
/// are each summed from zero, oldest first, and the sums divided.
pub open spec fn averaged<A: Arithmetic>(w: Seq<(u64, u64)>, out: u64) -> bool {
    exists|weight: u64, volume: u64|
        total::<A>(ZERO, weights(w), weight) && total::<A>(ZERO, volumes_of(w), volume)
            && #[trigger] ratio::<A>(weight, volume, out)
}

/// The output of a row after which the window is `w`: NaN until the window
/// holds `window` rows, their average from there on.
pub open spec fn vwap_row<A: Arithmetic>(window: usize, w: Seq<(u64, u64)>, out: u64) -> bool {
    if w.len() < window {
        out == NAN
    } else {
        averaged::<A>(w, out)
    }
}

/// Row `i` of a run meets [`vwap_row`] for the window of the rows up to and
/// with it.
pub open spec fn vwap_step<A: Arithmetic>(
    window: usize,
    pre: Seq<(u64, u64)>,
    entered: Seq<(u64, u64)>,
    out: Seq<u64>,
    i: int,
) -> bool {
    vwap_row::<A>(window, window_after(pre, window as nat, entered.take(i + 1)), out[i])
}

/// Letting `entered` into the window `pre`, row by row, gives `out`.
pub open spec fn vwap_rows<A: Arithmetic>(
    window: usize,
    pre: Seq<(u64, u64)>,
    entered: Seq<(u64, u64)>,
    out: Seq<u64>,
) -> bool {
    &&& out.len() == entered.len()
    &&& forall|i: int|
        0 <= i < entered.len() ==> #[trigger] vwap_step::<A>(window, pre, entered, out, i)
}

/// Running the rows of prices and volumes through the operator, in order,
/// leads from the window `pre` to `post` and gives `out`.
pub open spec fn vwap_run<A: Arithmetic>(
    window: usize,
    pre: Seq<(u64, u64)>,
    prices: Seq<u64>,
    volumes: Seq<u64>,
    post: Seq<(u64, u64)>,
    out: Seq<u64>,
) -> bool {
    exists|pv: Seq<u64>| #[trigger]
        products::<A>(prices, volumes, pv) && post == window_after(
            pre,
            window as nat,
            entries(pv, volumes),
        ) && vwap_rows::<A>(window, pre, entries(pv, volumes), out)
}

/// A volume-weighted average gives one output per row, and NaN for every
/// row before its window is full: a fresh operator gives NaN for its first
/// `window - 1` rows, however they are split into batches.
pub proof fn lemma_vwap_warms_up<A: Arithmetic>(
    window: usize,
    pre: Seq<(u64, u64)>,
    prices: Seq<u64>,
    volumes: Seq<u64>,
    post: Seq<(u64, u64)>,
    out: Seq<u64>,
)
    requires
        vwap_run::<A>(window, pre, prices, volumes, post, out),
    ensures
        out.len() == prices.len(),
        forall|i: int|
            0 <= i < out.len() && pre.len() + i + 1 < window ==> #[trigger] out[i] == NAN,
{
    let pv = choose|pv: Seq<u64>| #[trigger]
        products::<A>(prices, volumes, pv) && post == window_after(
            pre,
            window as nat,
            entries(pv, volumes),
        ) && vwap_rows::<A>(window, pre, entries(pv, volumes), out);
    assert forall|i: int|
        0 <= i < out.len() && pre.len() + i + 1 < window implies #[trigger] out[i] == NAN by {
        assert(vwap_step::<A>(window, pre, entries(pv, volumes), out, i));
    }
}

/// A volume-weighted average refuses the batch that an operator of the same
/// columns and window has appended its column to: the name is taken.
pub proof fn lemma_vwap_once(op: VwapView, batch: BatchView, values: Seq<u64>)
    requires
        batch.wf(),
        op.error(batch) is None,
        values.len() == batch.rows,
    ensures
        batch.with_floats(op.output(), values).wf(),
        op.error(batch.with_floats(op.output(), values)) == Some(StageError::DuplicateColumn),
{
    lemma_append_keeps(batch, op.output(), values, op.price_col);
    lemma_append_keeps(batch, op.output(), values, op.volume_col);
}

impl VwapView {
    /// The name of the appended column.
    pub open spec fn output(self) -> Seq<char> {
        vwap_name(self.window)
    }

    /// Why a batch is refused, if it is: one of the two columns is missing,
    /// or else one of them holds no doubles, or else the output's name is
    /// taken.
    pub open spec fn error(self, batch: BatchView) -> Option<StageError> {
        let price = batch.read_error(self.price_col);
        let volume = batch.read_error(self.volume_col);
        if price == Some(StageError::ColumnNotFound) || volume == Some(
            StageError::ColumnNotFound,
        ) {
            Some(StageError::ColumnNotFound)
        } else if price is Some || volume is Some {
            Some(StageError::ColumnNotFloat)
        } else if has_name(batch.schema, self.output()) {
            Some(StageError::DuplicateColumn)
        } else {
            None
        }
    }
}

/// The average of a window.
fn average<A: Arithmetic>(w: &VecDeque<(u64, u64)>) -> (out: u64)
    ensures
        averaged::<A>(w@, out),
{
    let mut weight: u64 = ZERO;
    let mut volume: u64 = ZERO;
    let mut j: usize = 0;
    while j < w.len()
        invariant
            j <= w@.len(),
            total::<A>(ZERO, weights(w@).take(j as int), weight),
            total::<A>(ZERO, volumes_of(w@).take(j as int), volume),
        decreases w@.len() - j,
    {
        let (pv, v): (u64, u64) = w[j];
        let next_weight: u64 = A::add(weight, pv);
        let next_volume: u64 = A::add(volume, v);
        proof {
            lemma_total_extend::<A>(ZERO, weights(w@).take(j as int), weight, pv, next_weight);
            lemma_total_extend::<A>(ZERO, volumes_of(w@).take(j as int), volume, v, next_volume);
            assert(weights(w@).take(j as int).push(pv) =~= weights(w@).take(j + 1));
            assert(volumes_of(w@).take(j as int).push(v) =~= volumes_of(w@).take(j + 1));
        }
        weight = next_weight;
        volume = next_volume;
        j += 1;
    }
    proof {
        assert(weights(w@).take(w@.len() as int) =~= weights(w@));
        assert(volumes_of(w@).take(w@.len() as int) =~= volumes_of(w@));
    }
    let out: u64 = if is_zero(volume) {
        NAN
    } else {
        A::div(weight, volume)
    };
    assert(ratio::<A>(weight, volume, out));
    out
}

impl Vwap {
    /// The window never holds more values than its size.
    #[verifier::type_invariant]
    pub closed spec fn wf(&self) -> bool {
        self.history@.len() <= self.window
    }

    /// A volume-weighted average of `price_col` by `volume_col` over `window`
    /// rows that has seen no row.
    pub fn new(price_col: String, volume_col: String, window: usize) -> (r: Vwap)
        ensures
            r@ == (VwapView {
                price_col: price_col@,
                volume_col: volume_col@,
                window,
                history: Seq::empty(),
            }),
    {
        Vwap { price_col, volume_col, window, history: VecDeque::with_capacity(window) }
    }

    /// The column of prices.
    pub fn price_col(&self) -> (r: &String)
        ensures
            r@ == self@.price_col,
    {
        &self.price_col
    }

    /// The column of volumes.
    pub fn volume_col(&self) -> (r: &String)
        ensures
            r@ == self@.volume_col,
    {
        &self.volume_col
    }

    /// The size of the window.
    pub fn window(&self) -> (r: usize)
        ensures
            r == self@.window,
            self@.history.len() <= r,
    {
        proof {
            use_type_invariant(self);
        }
        self.window
    }
}

impl ComputeStage for Vwap {
    open spec fn refusal(&self, batch: BatchView) -> Option<StageError> {
        self@.error(batch)
    }

    /// Appends the column `vwap_{window}`.
    fn process<A: Arithmetic>(&mut self, batch: Batch) -> (r: Result<Batch, StageError>)
        ensures
            final(self)@.price_col == old(self)@.price_col,
            final(self)@.volume_col == old(self)@.volume_col,
            final(self)@.window == old(self)@.window,
            match r {
                Ok(out) => {
                    &&& old(self)@.error(batch@) is None
                    &&& out@ == batch@.with_floats(old(self)@.output(), out@.last_floats())
                    &&& vwap_run::<A>(
                        old(self)@.window,
                        old(self)@.history,
                        batch@.named_floats(old(self)@.price_col),
                        batch@.named_floats(old(self)@.volume_col),
                        final(self)@.history,
                        out@.last_floats(),
                    )
                },
                Err(e) => old(self)@.error(batch@) == Some(e) && final(self)@ == old(self)@,
            },
    {
        proof {
            use_type_invariant(&*self);
        }
        let window: usize = self.window;
        let name: String = tagged_name("", "vwap_", window);
        proof {
            reveal_strlit("");
        }
        let (prices, volumes): (&Vec<u64>, &Vec<u64>) = match (
            batch.floats_of(self.price_col.as_str()),
            batch.floats_of(self.volume_col.as_str()),
        ) {
            (Ok(p), Ok(v)) => (p, v),
            (Err(StageError::ColumnNotFound), _) => {
                return Err(StageError::ColumnNotFound);
            },
            (_, Err(StageError::ColumnNotFound)) => {
                return Err(StageError::ColumnNotFound);
            },
            _ => {
                return Err(StageError::ColumnNotFloat);
            },
        };
        if batch.schema().index_of(name.as_str()).is_some() {
            return Err(StageError::DuplicateColumn);
        }
        let n: usize = batch.num_rows();
        let mut output: Vec<u64> = Vec::with_capacity(n);
        let mut history: VecDeque<(u64, u64)> = VecDeque::new();
        std::mem::swap(&mut self.history, &mut history);
        let ghost pre = history@;
        let ghost mut pv: Seq<u64> = Seq::empty();
        proof {
            lemma_window_grows(pre, window as nat, Seq::<(u64, u64)>::empty(), (0u64, 0u64));
        }
        let mut i: usize = 0;
        while i < n
            invariant
                i <= n,
                n == prices@.len(),
                n == volumes@.len(),
                pre.len() <= window,
                history@.len() <= window,
                pv.len() == i,
                forall|k: int|
                    0 <= k < i ==> #[trigger] multiplied::<A>(prices@[k], volumes@[k], pv[k]),
                history@ == window_after(pre, window as nat, entries(pv, volumes@)),
                vwap_rows::<A>(window, pre, entries(pv, volumes@), output@),
            decreases n - i,
        {
            let price: u64 = prices[i];
            let volume: u64 = volumes[i];
            let ghost earlier = output@;
            let ghost entered = entries(pv, volumes@);
            let product: u64 = A::mul(price, volume);
            slide(&mut history, window, (product, volume));
            proof {
                lemma_window_grows(pre, window as nat, entered, (product, volume));
                pv = pv.push(product);
                assert(entered.push((product, volume)) =~= entries(pv, volumes@));
            }
            let out: u64 = if history.len() < window {
                NAN
            } else {
                average::<A>(&history)
            };
            output.push(out);
            proof {
                let grown = entries(pv, volumes@);
                assert(grown.take(i + 1) =~= grown);
                assert forall|k: int| 0 <= k < grown.len() implies #[trigger] vwap_step::<A>(
                    window,
                    pre,
                    grown,
                    output@,
                    k,
                ) by {
                    if k < i {
                        assert(vwap_step::<A>(window, pre, entered, earlier, k));
                        assert(entered.take(k + 1) =~= grown.take(k + 1));
                    }
                }
            }
            i += 1;
        }
        self.history = history;
        proof {
            assert(products::<A>(prices@, volumes@, pv));
        }
        let ghost produced = output@;
        match batch.with_floats(name, output) {
            Ok(out) => {
                proof {
                    lemma_append_extends(batch@, name@, produced);
                    use_type_invariant(&out);
                }
                Ok(out)
            },
            Err(e) => Err(e),
        }
    }
}

} // verus!
