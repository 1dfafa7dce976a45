//! The schema guard of the parquet sink.
//!
//! The file is begun when the first batch arrives, under that batch's
//! schema. Every later batch must have the same schema. When the input ends,
//! a file that was begun is finished.

use crate::batch::Batch;
use crate::schema::{FieldView, Schema};
use vstd::prelude::*;

verus! {

/// What the writer does with a batch that the sink has accepted.
#[derive(Clone, Copy, Debug, PartialEq, Eq, Structural)]
pub enum SinkStep {
    /// Begin the file under the batch's schema and write the batch.
    Create,
    /// Write the batch to the file that was begun.
    Append,
}

/// Why the sink refused a batch. This ends the pipeline.
#[derive(Clone, Copy, Debug, PartialEq, Eq, Structural)]
pub enum SinkError {
    /// The batch's schema is not that of the first batch.
    SchemaDrift,
}

/// The state of a parquet sink: where it writes and under which schema.
pub struct ParquetSink {
    path: String,
    schema: Option<Schema>,
}

/// What a parquet sink is.
pub struct ParquetSinkView {
    pub path: Seq<char>,
    pub schema: Option<Seq<FieldView>>,
}

impl View for ParquetSink {
    type V = ParquetSinkView;

    closed spec fn view(&self) -> ParquetSinkView {
        ParquetSinkView {
            path: self.path@,
            schema: match self.schema {
                Some(schema) => Some(schema@),
                None => None,
            },
        }
    }
}

impl ParquetSinkView {
    /// What the sink answers to a batch of the given schema.
    pub open spec fn answer(self, schema: Seq<FieldView>) -> Result<SinkStep, SinkError> {
        match self.schema {
            None => Ok(SinkStep::Create),
            Some(first) => if first == schema {
                Ok(SinkStep::Append)
            } else {
                Err(SinkError::SchemaDrift)
            },
        }
    }

    /// The sink after a batch of the given schema: the first batch settles
    /// the schema, and nothing changes it.
    pub open spec fn accepted(self, schema: Seq<FieldView>) -> ParquetSinkView {
        match self.schema {
            None => ParquetSinkView { path: self.path, schema: Some(schema) },
            Some(_) => self,
        }
    }
}

/// Once a sink has accepted a batch, it accepts exactly the batches of that
/// batch's schema, whatever it has accepted or refused since.
pub proof fn lemma_first_schema_stays(
    sink: ParquetSinkView,
    first: Seq<FieldView>,
    next: Seq<FieldView>,
)
    requires
        sink.schema is None,
    ensures
        sink.accepted(first).schema == Some(first),
        sink.accepted(first).accepted(next) == sink.accepted(first),
        sink.accepted(first).answer(next) is Ok <==> next == first,
{
}

impl ParquetSink {
    /// A sink for the file at `path` that has seen no batch.
    pub fn new(path: String) -> (r: ParquetSink)
        ensures
            r@ == (ParquetSinkView { path: path@, schema: None }),
    {
        ParquetSink { path, schema: None }
    }

    /// The path of the file.
    pub fn path(&self) -> (r: &String)
        ensures
            r@ == self@.path,
    {
        &self.path
    }

    /// Takes one batch: says what the writer does with it, or refuses it.
    pub fn accept(&mut self, batch: &Batch) -> (r: Result<SinkStep, SinkError>)
        ensures
            r == old(self)@.answer(batch@.schema),
            final(self)@ == old(self)@.accepted(batch@.schema),
    {
        match &self.schema {
            None => {
                self.schema = Some(batch.schema().clone());
                Ok(SinkStep::Create)
            },
            Some(first) => {
                if first.same_as(batch.schema()) {
                    Ok(SinkStep::Append)
                } else {
                    Err(SinkError::SchemaDrift)
                }
            },
        }
    }

    /// Ends the input: whether a file was begun and is to be finished.
    pub fn finish(&self) -> (begun: bool)
        ensures
            begun == self@.schema is Some,
    {
        self.schema.is_some()
    }
}

} // verus!
