//! The pipeline: stages in registration order, and the plan that wires them.
//!
//! A pipeline is built empty, stages are appended to it, and `wire` turns
//! the stages into a plan: the channels to open and, for every stage, the
//! worker to start with the channels it reads and writes. The embedding
//! opens the channels, starts the workers and waits for them. Host handles
//! (iterators, callables) are of a type `H` that the library never looks
//! into.

use crate::builtins::ema::{Ema, EmaView};
use crate::builtins::rolling_mean::{RollingMean, RollingMeanView, RollingState};
use crate::builtins::vwap::{Vwap, VwapView};
use crate::builtins::zscore::{ZScore, ZScoreView};
use crate::builtins::Operator;
use crate::text::{is_parquet_path, parquet_path};
use vstd::prelude::*;

verus! {

/// The capacity of a channel where none is given.
pub const DEFAULT_CAPACITY: usize = 1024;

/// The number of rows of a batch where none is given.
pub const DEFAULT_BATCH_SIZE: usize = 2500;

/// One step of a pipeline.
pub enum Stage<H> {
    /// Rows from a host iterator.
    RowSource(H),
    /// Batches from a parquet file.
    ParquetSource(String),
    /// A host callable, applied to every row.
    HostTransform(H),
    /// A built-in operator.
    Transform(Operator),
    /// A host callable that takes every row.
    RowSink(H),
    /// A parquet file that takes every batch.
    ParquetSink(String),
}

/// The part a stage plays.
#[derive(Clone, Copy, Debug, PartialEq, Eq, Structural)]
pub enum Role {
    Source,
    Transform,
    Sink,
}

/// Why a pipeline cannot be wired.
#[derive(Clone, Copy, Debug, PartialEq, Eq, Structural)]
pub enum ConfigError {
    /// No stage is a source.
    NoSource,
    /// No stage is a sink.
    NoSink,
    /// The stages are not one source, then transforms, then one sink.
    WrongOrder,
}

/// One worker of a wired pipeline, with the batch channels it uses.
pub enum Worker<H> {
    /// Asks the host iterator for rows and sends them on the row channel.
    RowSource { handle: H },
    /// Takes rows from the row channel and sends batches of `batch_size`.
    Batcher { batch_size: usize, output: usize },
    /// Reads the file in batches of `batch_size` and sends them.
    ParquetSource { path: String, batch_size: usize, output: usize },
    /// Hands every batch to the operator and sends what it returns.
    Transform { operator: Operator, input: usize, output: usize },
    /// Hands every row to the host callable and sends the rows it keeps.
    HostTransform { handle: H, input: usize, output: usize },
    /// Hands every row to the host callable.
    RowSink { handle: H, input: usize },
    /// Writes every batch to the file.
    ParquetSink { path: String, input: usize },
}

/// What the embedding sets up to run a pipeline.
pub struct Plan<H> {
    /// The capacity of every channel.
    pub capacity: usize,
    /// The number of batch channels, numbered from zero.
    pub batch_channels: usize,
    /// Whether a row channel leads from the source to the batcher.
    pub row_channel: bool,
    /// The workers, in the order of their stages.
    pub workers: Vec<Worker<H>>,
}

/// A pipeline under construction.
pub struct Pipeline<H> {
    stages: Vec<Stage<H>>,
    capacity: usize,
    batch_size: usize,
}

/// What a pipeline is.
pub struct PipelineView<H> {
    pub stages: Seq<Stage<H>>,
    pub capacity: usize,
    pub batch_size: usize,
}

impl<H> View for Pipeline<H> {
    type V = PipelineView<H>;

    closed spec fn view(&self) -> PipelineView<H> {
        PipelineView {
            stages: self.stages@,
            capacity: self.capacity,
            batch_size: self.batch_size,
        }
    }
}

impl<H> Stage<H> {
    /// The part the stage plays.
    pub open spec fn role(self) -> Role {
        match self {
            Stage::RowSource(_) => Role::Source,
            Stage::ParquetSource(_) => Role::Source,
            Stage::HostTransform(_) => Role::Transform,
            Stage::Transform(_) => Role::Transform,
            Stage::RowSink(_) => Role::Sink,
            Stage::ParquetSink(_) => Role::Sink,
        }
    }

    /// The part the stage plays.
    pub fn part(&self) -> (r: Role)
        ensures
            r == self.role(),
    {
        match self {
            Stage::RowSource(_) => Role::Source,
            Stage::ParquetSource(_) => Role::Source,
            Stage::HostTransform(_) => Role::Transform,
            Stage::Transform(_) => Role::Transform,
            Stage::RowSink(_) => Role::Sink,
            Stage::ParquetSink(_) => Role::Sink,
        }
    }
}

impl<H> Worker<H> {
    /// The batch channel the worker receives from, if it receives batches.
    pub open spec fn input(self) -> Option<usize> {
        match self {
            Worker::Transform { input, .. } => Some(input),
            Worker::HostTransform { input, .. } => Some(input),
            Worker::RowSink { input, .. } => Some(input),
            Worker::ParquetSink { input, .. } => Some(input),
            _ => None,
        }
    }

    /// The batch channel the worker sends to, if it sends batches.
    pub open spec fn output(self) -> Option<usize> {
        match self {
            Worker::Batcher { output, .. } => Some(output),
            Worker::ParquetSource { output, .. } => Some(output),
            Worker::Transform { output, .. } => Some(output),
            Worker::HostTransform { output, .. } => Some(output),
            _ => None,
        }
    }
}

/// Some stage plays the part.
pub open spec fn has_role<H>(stages: Seq<Stage<H>>, role: Role) -> bool {
    exists|k: int| 0 <= k < stages.len() && #[trigger] stages[k].role() == role
}

/// The stages are one source, then transforms, then one sink.
pub open spec fn in_order<H>(stages: Seq<Stage<H>>) -> bool {
    &&& stages.len() >= 2
    &&& stages[0].role() == Role::Source
    &&& stages.last().role() == Role::Sink
    &&& forall|k: int| 0 < k < stages.len() - 1 ==> #[trigger] stages[k].role() == Role::Transform
}

/// Why the stages cannot be wired, if they cannot.
pub open spec fn config_error<H>(stages: Seq<Stage<H>>) -> Option<ConfigError> {
    if !has_role(stages, Role::Source) {
        Some(ConfigError::NoSource)
    } else if !has_role(stages, Role::Sink) {
        Some(ConfigError::NoSink)
    } else if !in_order(stages) {
        Some(ConfigError::WrongOrder)
    } else {
        None
    }
}

/// The workers of the source: a parquet source writes to channel zero; a
/// row source writes rows, and a batcher turns them into the batches of
/// channel zero.
pub open spec fn source_workers<H>(stage: Stage<H>, batch_size: usize) -> Seq<Worker<H>> {
    match stage {
        Stage::RowSource(handle) => seq![
            Worker::RowSource { handle },
            Worker::Batcher { batch_size, output: 0 },
        ],
        Stage::ParquetSource(path) => seq![Worker::ParquetSource { path, batch_size, output: 0 }],
        _ => Seq::empty(),
    }
}

/// The worker of the transform or sink at place `k`: it reads channel
/// `k - 1`, and a transform writes channel `k`.
pub open spec fn later_worker<H>(stage: Stage<H>, k: usize) -> Worker<H>
    recommends
        k >= 1,
        stage.role() != Role::Source,
{
    let input = (k - 1) as usize;
    match stage {
        Stage::Transform(operator) => Worker::Transform { operator, input, output: k },
        Stage::HostTransform(handle) => Worker::HostTransform { handle, input, output: k },
        Stage::RowSink(handle) => Worker::RowSink { handle, input },
        Stage::ParquetSink(path) => Worker::ParquetSink { path, input },
        _ => arbitrary(),
    }
}

/// The workers of the stages after the source, up to place `upto`.
pub open spec fn later_workers<H>(stages: Seq<Stage<H>>, upto: int) -> Seq<Worker<H>>
    decreases upto,
{
    if upto <= 1 {
        Seq::empty()
    } else {
        later_workers(stages, upto - 1).push(later_worker(stages[upto - 1], (upto - 1) as usize))
    }
}

/// The workers of stages in order: those of the source, then one for every
/// later stage.
pub open spec fn workers_of<H>(stages: Seq<Stage<H>>, batch_size: usize) -> Seq<Worker<H>> {
    source_workers(stages[0], batch_size) + later_workers(stages, stages.len() as int)
}

/// There is one worker for every stage after the source, in order.
pub proof fn lemma_later_workers<H>(stages: Seq<Stage<H>>, upto: int)
    requires
        1 <= upto <= stages.len(),
    ensures
        later_workers(stages, upto).len() == upto - 1,
        forall|k: int|
            1 <= k < upto ==> #[trigger] later_workers(stages, upto)[k - 1] == later_worker(
                stages[k],
                k as usize,
            ),
    decreases upto,
{
    if upto > 1 {
        lemma_later_workers(stages, upto - 1);
    }
}

/// How stages in order are wired. With `T` transforms there are `T + 1`
/// batch channels. Every stage has one worker, and a row source has a
/// batcher besides. The source, or its batcher, writes channel 0; transform
/// `k` reads channel `k - 1` and writes channel `k`; the sink reads channel
/// `T`. So every channel has one writer and one reader.
pub proof fn lemma_wiring<H>(stages: Seq<Stage<H>>, batch_size: usize)
    requires
        config_error(stages) is None,
        stages.len() <= usize::MAX,
    ensures
        workers_of(stages, batch_size).len() == stages.len() + if stages[0] is RowSource {
            1int
        } else {
            0int
        },
        source_workers(stages[0], batch_size).last().output() == Some(0usize),
        forall|k: int|
            1 <= k < stages.len() ==> (#[trigger] later_worker(stages[k], k as usize)).input()
                == Some((k - 1) as usize),
        forall|k: int|
            1 <= k < stages.len() - 1 ==> (#[trigger] later_worker(stages[k], k as usize)).output()
                == Some(k as usize),
        later_worker(stages.last(), (stages.len() - 1) as usize).output() is None,
        later_worker(stages.last(), (stages.len() - 1) as usize).input() == Some(
            (stages.len() - 2) as usize,
        ),
{
    lemma_later_workers(stages, stages.len() as int);
    assert forall|k: int| 1 <= k < stages.len() - 1 implies (#[trigger] later_worker(
        stages[k],
        k as usize,
    )).output() == Some(k as usize) by {
        assert(stages[k].role() == Role::Transform);
    }
    assert forall|k: int| 1 <= k < stages.len() implies (#[trigger] later_worker(
        stages[k],
        k as usize,
    )).input() == Some((k - 1) as usize) by {
        if k < stages.len() - 1 {
            assert(stages[k].role() == Role::Transform);
        }
    }
}

impl<H> Pipeline<H> {
    /// An empty pipeline with channels of `capacity` and batches of
    /// `batch_size` rows.
    pub fn new(capacity: usize, batch_size: usize) -> (r: Pipeline<H>)
        ensures
            r@ == (PipelineView::<H> { stages: Seq::empty(), capacity, batch_size }),
    {
        Pipeline { stages: Vec::new(), capacity, batch_size }
    }

    /// An empty pipeline with the default capacity and batch size.
    pub fn with_defaults() -> (r: Pipeline<H>)
        ensures
            r@ == (PipelineView::<H> {
                stages: Seq::empty(),
                capacity: DEFAULT_CAPACITY,
                batch_size: DEFAULT_BATCH_SIZE,
            }),
    {
        Pipeline::new(DEFAULT_CAPACITY, DEFAULT_BATCH_SIZE)
    }

    /// The capacity of the channels.
    pub fn capacity(&self) -> (r: usize)
        ensures
            r == self@.capacity,
    {
        self.capacity
    }

    /// The number of rows of a batch.
    pub fn batch_size(&self) -> (r: usize)
        ensures
            r == self@.batch_size,
    {
        self.batch_size
    }

    /// The number of stages registered.
    pub fn len(&self) -> (r: usize)
        ensures
            r == self@.stages.len(),
    {
        self.stages.len()
    }

    /// Registers a source. A handle that is a text ending in `.parquet`
    /// (then `text` holds it) is the path of a parquet file; any other handle
    /// is a host iterator.
    pub fn source(&mut self, handle: H, text: Option<String>)
        ensures
            final(self)@ == (PipelineView {
                stages: old(self)@.stages.push(
                    match text {
                        Some(path) if parquet_path(path@) => Stage::ParquetSource(path),
                        _ => Stage::RowSource(handle),
                    },
                ),
                ..old(self)@
            }),
    {
        let stage: Stage<H> = match text {
            Some(path) => {
                if is_parquet_path(path.as_str()) {
                    Stage::ParquetSource(path)
                } else {
                    Stage::RowSource(handle)
                }
            },
            None => Stage::RowSource(handle),
        };
        self.stages.push(stage);
    }

    /// Registers a sink. A handle that is a text ending in `.parquet` (then
    /// `text` holds it) is the path of a parquet file; any other handle is a
    /// host callable.
    pub fn sink(&mut self, handle: H, text: Option<String>)
        ensures
            final(self)@ == (PipelineView {
                stages: old(self)@.stages.push(
                    match text {
                        Some(path) if parquet_path(path@) => Stage::ParquetSink(path),
                        _ => Stage::RowSink(handle),
                    },
                ),
                ..old(self)@
            }),
    {
        let stage: Stage<H> = match text {
            Some(path) => {
                if is_parquet_path(path.as_str()) {
                    Stage::ParquetSink(path)
                } else {
                    Stage::RowSink(handle)
                }
            },
            None => Stage::RowSink(handle),
        };
        self.stages.push(stage);
    }

    /// Registers a host transform.
    pub fn host_transform(&mut self, handle: H)
        ensures
            final(self)@ == (PipelineView {
                stages: old(self)@.stages.push(Stage::HostTransform(handle)),
                ..old(self)@
            }),
    {
        self.stages.push(Stage::HostTransform(handle));
    }

    /// Registers a built-in operator.
    pub fn transform(&mut self, operator: Operator)
        ensures
            final(self)@ == (PipelineView {
                stages: old(self)@.stages.push(Stage::Transform(operator)),
                ..old(self)@
            }),
    {
        self.stages.push(Stage::Transform(operator));
    }

    /// Registers a rolling mean of `column` over `window` rows.
    pub fn rolling_mean(&mut self, column: String, window: usize)
        ensures
            final(self)@.capacity == old(self)@.capacity,
            final(self)@.batch_size == old(self)@.batch_size,
            final(self)@.stages.len() == old(self)@.stages.len() + 1,
            final(self)@.stages.drop_last() == old(self)@.stages,
            final(self)@.stages.last() matches Stage::Transform(Operator::RollingMean(op)) && op@
                == (RollingMeanView {
                column: column@,
                window,
                state: RollingState { history: Seq::empty(), sum: crate::bits::ZERO },
            }),
    {
        self.stages.push(Stage::Transform(Operator::RollingMean(RollingMean::new(column, window))));
    }

    /// Registers a z-score of `column` over `lookback` rows.
    pub fn zscore(&mut self, column: String, lookback: usize)
        ensures
            final(self)@.capacity == old(self)@.capacity,
            final(self)@.batch_size == old(self)@.batch_size,
            final(self)@.stages.len() == old(self)@.stages.len() + 1,
            final(self)@.stages.drop_last() == old(self)@.stages,
            final(self)@.stages.last() matches Stage::Transform(Operator::ZScore(op)) && op@ == (
            ZScoreView { column: column@, lookback, history: Seq::empty() }),
    {
        self.stages.push(Stage::Transform(Operator::ZScore(ZScore::new(column, lookback))));
    }

    /// Registers a moving average of `column` over `span`.
    pub fn ema(&mut self, column: String, span: usize)
        ensures
            final(self)@.capacity == old(self)@.capacity,
            final(self)@.batch_size == old(self)@.batch_size,
            final(self)@.stages.len() == old(self)@.stages.len() + 1,
            final(self)@.stages.drop_last() == old(self)@.stages,
            final(self)@.stages.last() matches Stage::Transform(Operator::Ema(op)) && op@ == (
            EmaView { column: column@, span, current: None }),
    {
        self.stages.push(Stage::Transform(Operator::Ema(Ema::new(column, span))));
    }

    /// Registers a volume-weighted average price over `window` rows.
    pub fn vwap(&mut self, price_col: String, volume_col: String, window: usize)
        ensures
            final(self)@.capacity == old(self)@.capacity,
            final(self)@.batch_size == old(self)@.batch_size,
            final(self)@.stages.len() == old(self)@.stages.len() + 1,
            final(self)@.stages.drop_last() == old(self)@.stages,
            final(self)@.stages.last() matches Stage::Transform(Operator::Vwap(op)) && op@ == (
            VwapView {
                price_col: price_col@,
                volume_col: volume_col@,
                window,
                history: Seq::empty(),
            }),
    {
        self.stages.push(
            Stage::Transform(Operator::Vwap(Vwap::new(price_col, volume_col, window))),
        );
    }

    /// Why the registered stages cannot be wired, if they cannot.
    pub fn validate(&self) -> (r: Option<ConfigError>)
        ensures
            r == config_error(self@.stages),
    {
        let n: usize = self.stages.len();
        let mut sources: bool = false;
        let mut sinks: bool = false;
        let mut ordered: bool = true;
        let mut k: usize = 0;
        while k < n
            invariant
                k <= n,
                n == self.stages@.len(),
                sources == has_role(self.stages@.take(k as int), Role::Source),
                sinks == has_role(self.stages@.take(k as int), Role::Sink),
                ordered == (forall|j: int|
                    0 <= j < k ==> (#[trigger] self.stages@[j].role()) == (if j == 0 {
                        Role::Source
                    } else if j == n - 1 {
                        Role::Sink
                    } else {
                        Role::Transform
                    })),
            decreases n - k,
        {
            let role: Role = self.stages[k].part();
            let ghost seen = self.stages@.take(k as int);
            let ghost more = self.stages@.take(k + 1);
            proof {
                assert(more[k as int].role() == role);
                assert forall|r: Role| has_role(more, r) == (has_role(seen, r) || role == r) by {
                    if has_role(seen, r) {
                        let j = choose|j: int| 0 <= j < seen.len() && #[trigger] seen[j].role() == r;
                        assert(more[j].role() == r);
                    }
                    if has_role(more, r) && role != r {
                        let j = choose|j: int| 0 <= j < more.len() && #[trigger] more[j].role() == r;
                        assert(seen[j].role() == r);
                    }
                }
            }
            let wanted: Role = if k == 0 {
                Role::Source
            } else if k == n - 1 {
                Role::Sink
            } else {
                Role::Transform
            };
            match role {
                Role::Source => {
                    sources = true;
                },
                Role::Sink => {
                    sinks = true;
                },
                Role::Transform => {},
            }
            if role != wanted {
                ordered = false;
            }
            k += 1;
        }
        proof {
            assert(self.stages@.take(n as int) =~= self.stages@);
        }
        if !sources {
            Some(ConfigError::NoSource)
        } else if !sinks {
            Some(ConfigError::NoSink)
        } else if !ordered || n < 2 {
            Some(ConfigError::WrongOrder)
        } else {
            None
        }
    }

    /// Takes the registered stages out of the pipeline and wires them. The
    /// pipeline is empty afterwards, whether or not the stages could be
    /// wired, and can be used again.
    pub fn wire(&mut self) -> (r: Result<Plan<H>, ConfigError>)
        ensures
            final(self)@ == (PipelineView { stages: Seq::empty(), ..old(self)@ }),
            match r {
                Ok(plan) => {
                    &&& config_error(old(self)@.stages) is None
                    &&& plan.capacity == old(self)@.capacity
                    &&& plan.batch_channels == old(self)@.stages.len() - 1
                    &&& plan.row_channel == old(self)@.stages[0] is RowSource
                    &&& plan.workers@ == workers_of(old(self)@.stages, old(self)@.batch_size)
                },
                Err(e) => config_error(old(self)@.stages) == Some(e),
            },
    {
        let verdict: Option<ConfigError> = self.validate();
        let mut stages: Vec<Stage<H>> = Vec::new();
        std::mem::swap(&mut self.stages, &mut stages);
        if let Some(e) = verdict {
            return Err(e);
        }
        let ghost all = stages@;
        let n: usize = stages.len();
        let batch_size: usize = self.batch_size;
        let mut reversed: Vec<Stage<H>> = Vec::with_capacity(n);
        while stages.len() > 0
            invariant
                stages@.len() + reversed@.len() == n,
                n == all.len(),
                stages@ == all.take(stages@.len() as int),
                forall|j: int| 0 <= j < reversed@.len() ==> reversed@[j] == all[n - 1 - j],
            decreases stages@.len(),
        {
            let stage: Option<Stage<H>> = stages.pop();
            reversed.push(stage.unwrap());
        }
        let mut workers: Vec<Worker<H>> = Vec::new();
        let first: Stage<H> = reversed.pop().unwrap();
        let row_channel: bool = match first {
            Stage::RowSource(handle) => {
                workers.push(Worker::RowSource { handle });
                workers.push(Worker::Batcher { batch_size, output: 0 });
                true
            },
            Stage::ParquetSource(path) => {
                workers.push(Worker::ParquetSource { path, batch_size, output: 0 });
                false
            },
            _ => {
                // Not reached: stages that passed `validate` begin with a source.
                return Err(ConfigError::NoSource);
            },
        };
        let ghost head = workers@;
        let mut k: usize = 1;
        while k < n
            invariant
                1 <= k <= n,
                n == all.len(),
                in_order(all),
                reversed@.len() == n - k,
                forall|j: int| 0 <= j < reversed@.len() ==> reversed@[j] == all[n - 1 - j],
                workers@ == head + later_workers(all, k as int),
            decreases n - k,
        {
            let stage: Stage<H> = reversed.pop().unwrap();
            let worker: Worker<H> = match stage {
                Stage::Transform(operator) => Worker::Transform { operator, input: k - 1, output: k },
                Stage::HostTransform(handle) => Worker::HostTransform {
                    handle,
                    input: k - 1,
                    output: k,
                },
                Stage::RowSink(handle) => Worker::RowSink { handle, input: k - 1 },
                Stage::ParquetSink(path) => Worker::ParquetSink { path, input: k - 1 },
                _ => {
                    // Not reached: after the first stage come transforms and the sink.
                    assert(all[k as int].role() != Role::Source);
                    return Err(ConfigError::WrongOrder);
                },
            };
            workers.push(worker);
            k += 1;
        }
        Ok(Plan { capacity: self.capacity, batch_channels: n - 1, row_channel, workers })
    }
}

} // verus!
