//! Verified core of a streaming, columnar analytics pipeline.
//!
//! A pipeline is a chain of stages: one source, any number of transforms and
//! one sink. Data flows between them as record batches over bounded
//! channels, one worker per stage. This crate holds
//!
//! - the data model: [`schema`], [`batch`], [`rows`];
//! - the four windowed operators and their shared helpers: [`builtins`],
//!   under the contract of [`compute`];
//! - the [`batcher`] that turns rows into batches, and the schema guard of
//!   the parquet sink in [`sinks`];
//! - the [`pipeline`] registry and the plan that wires its stages;
//! - the turns of the workers over their channels: [`workers`], [`channel`].
//!
//! Threads, files and the host runtime belong to the embedding.
//!
//! Doubles are carried as their IEEE-754 bit patterns (`u64`, see [`bits`]).
//! The elementary operations on them are supplied by the embedding through
//! [`Arithmetic`]; every contract here holds whatever those operations
//! return, and says which operation was applied to which operands.

pub mod arith;
pub mod batch;
pub mod batcher;
pub mod bits;
pub mod builtins;
pub mod channel;
pub mod compute;
pub mod pipeline;
pub mod rows;
pub mod schema;
pub mod sinks;
pub mod text;
pub mod workers;

pub use arith::Arithmetic;
pub use bits::{is_finite, is_nan, is_zero, NAN, ONE, TWO, ZERO};
