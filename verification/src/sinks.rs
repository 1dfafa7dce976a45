//! What a sink decides before it writes.

pub mod parquet_writer;
