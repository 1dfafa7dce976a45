//! The batcher: rows in, batches of a configured size out.
//!
//! Rows are buffered until there are `batch_size` of them; the buffer then
//! becomes one batch. When the input ends, what is left becomes a last,
//! shorter batch. The schema of the first batch, the union of the names of
//! its rows, is the schema of every later one.

use crate::batch::{Batch, BatchView};
use crate::rows::{
    first_occurrences, keys, merged, row_views, rows_to_batch, table, texts, union_keys, CellView,
    Row,
};
use vstd::prelude::*;

verus! {

/// A row buffer with the schema it emits under.
pub struct Batcher {
    batch_size: usize,
    schema_fields: Vec<String>,
    established: bool,
    buffer: Vec<Row>,
}

/// What a batcher is: the size of its batches, the names of its schema once
/// they are settled, and the rows it holds.
pub struct BatcherView {
    pub batch_size: usize,
    pub names: Option<Seq<Seq<char>>>,
    pub buffer: Seq<Seq<CellView>>,
}

impl View for Batcher {
    type V = BatcherView;

    closed spec fn view(&self) -> BatcherView {
        BatcherView {
            batch_size: self.batch_size,
            names: if self.established {
                Some(texts(self.schema_fields@))
            } else {
                None
            },
            buffer: row_views(self.buffer@),
        }
    }
}

impl BatcherView {
    /// The batcher holds fewer rows than make a batch, and the names of its
    /// schema are distinct.
    pub open spec fn wf(self) -> bool {
        &&& self.buffer.len() == 0 || self.buffer.len() < self.batch_size
        &&& self.names matches Some(names) ==> names.no_duplicates()
    }

    /// The names under which `rows` are emitted: the settled ones, or else
    /// the union of the names of the rows.
    pub open spec fn names_for(self, rows: Seq<Seq<CellView>>) -> Seq<Seq<char>> {
        match self.names {
            Some(names) => names,
            None => keys(rows),
        }
    }

    /// The batcher after it has emitted `rows`.
    pub open spec fn emptied(self, rows: Seq<Seq<CellView>>) -> BatcherView {
        BatcherView {
            batch_size: self.batch_size,
            names: Some(self.names_for(rows)),
            buffer: Seq::empty(),
        }
    }

    /// The batch that `row` completes, if it completes one.
    pub open spec fn emitted(self, row: Seq<CellView>) -> Option<BatchView> {
        let rows = self.buffer.push(row);
        if rows.len() >= self.batch_size {
            Some(table(self.names_for(rows), rows))
        } else {
            None
        }
    }

    /// The batcher after `row` has arrived.
    pub open spec fn pushed(self, row: Seq<CellView>) -> BatcherView {
        let rows = self.buffer.push(row);
        if rows.len() >= self.batch_size {
            self.emptied(rows)
        } else {
            BatcherView { batch_size: self.batch_size, names: self.names, buffer: rows }
        }
    }

    /// The last batch, emitted when the input has ended, if rows are left.
    pub open spec fn remainder(self) -> Option<BatchView> {
        if self.buffer.len() > 0 {
            Some(table(self.names_for(self.buffer), self.buffer))
        } else {
            None
        }
    }

    /// The batcher after the input has ended.
    pub open spec fn flushed(self) -> BatcherView {
        if self.buffer.len() > 0 {
            self.emptied(self.buffer)
        } else {
            self
        }
    }

    /// The batcher after the rows have arrived, one after the other.
    pub open spec fn fed(self, rows: Seq<Seq<CellView>>) -> BatcherView
        decreases rows.len(),
    {
        if rows.len() == 0 {
            self
        } else {
            self.fed(rows.drop_last()).pushed(rows.last())
        }
    }

    /// The number of rows in the batches emitted while the rows arrived.
    pub open spec fn sent(self, rows: Seq<Seq<CellView>>) -> nat
        decreases rows.len(),
    {
        if rows.len() == 0 {
            0
        } else {
            self.sent(rows.drop_last()) + match self.fed(rows.drop_last()).emitted(rows.last()) {
                Some(batch) => batch.rows,
                None => 0,
            }
        }
    }
}

/// The batch of an option, as a view.
pub open spec fn batch_view(batch: Option<Batch>) -> Option<BatchView> {
    match batch {
        Some(b) => Some(b@),
        None => None,
    }
}

/// A batcher loses no row and makes none: the rows it has emitted and the
/// rows it holds are the rows it held before and the rows that arrived. It
/// never holds a full batch, and after the input has ended it holds nothing.
pub proof fn lemma_batcher_conserves(batcher: BatcherView, rows: Seq<Seq<CellView>>)
    requires
        batcher.wf(),
    ensures
        batcher.fed(rows).wf(),
        batcher.sent(rows) + batcher.fed(rows).buffer.len() == batcher.buffer.len() + rows.len(),
        batcher.fed(rows).flushed().buffer.len() == 0,
        batcher.fed(rows).remainder() matches Some(last) ==> last.rows == batcher.fed(
            rows,
        ).buffer.len(),
    decreases rows.len(),
{
    if rows.len() > 0 {
        lemma_batcher_conserves(batcher, rows.drop_last());
        let before = batcher.fed(rows.drop_last());
        crate::rows::lemma_keys_distinct(before.buffer.push(rows.last()));
    }
}

/// Every batch that a row completes has exactly `batch_size` rows, or one
/// row where `batch_size` is zero.
pub proof fn lemma_batcher_sizes(batcher: BatcherView, row: Seq<CellView>)
    requires
        batcher.wf(),
    ensures
        batcher.emitted(row) matches Some(batch) ==> batch.rows == if batcher.batch_size == 0 {
            1
        } else {
            batcher.batch_size as nat
        },
{
}

impl Batcher {
    /// What holds of every batcher: see [`BatcherView::wf`].
    #[verifier::type_invariant]
    pub closed spec fn wf(&self) -> bool {
        &&& self@.wf()
        &&& texts(self.schema_fields@).no_duplicates()
    }

    /// A batcher for batches of `batch_size` rows. Where `schema_fields`
    /// holds names, they are, without repetitions, the schema from the start;
    /// where it holds none, the first batch settles the schema.
    pub fn new(batch_size: usize, schema_fields: Vec<String>) -> (r: Batcher)
        ensures
            r@.wf(),
            r@.batch_size == batch_size,
            r@.buffer.len() == 0,
            r@.names == if schema_fields@.len() == 0 {
                None
            } else {
                Some(merged(Seq::empty(), texts(schema_fields@)))
            },
    {
        let established: bool = schema_fields.len() > 0;
        let names: Vec<String> = first_occurrences(&schema_fields);
        Batcher { batch_size, schema_fields: names, established, buffer: Vec::new() }
    }

    /// The number of rows that make a batch.
    pub fn batch_size(&self) -> (n: usize)
        ensures
            n == self@.batch_size,
            self@.wf(),
    {
        proof {
            use_type_invariant(self);
        }
        self.batch_size
    }

    /// The number of rows held.
    pub fn buffered(&self) -> (n: usize)
        ensures
            n == self@.buffer.len(),
            self@.wf(),
    {
        proof {
            use_type_invariant(self);
        }
        self.buffer.len()
    }

    /// Turns `rows` into a batch and settles the schema if it is not settled.
    fn emit(&mut self, rows: Vec<Row>) -> (batch: Batch)
        requires
            old(self).buffer@.len() == 0,
        ensures
            batch@ == table(old(self)@.names_for(row_views(rows@)), row_views(rows@)),
            final(self)@ == old(self)@.emptied(row_views(rows@)),
    {
        proof {
            use_type_invariant(&*self);
        }
        if !self.established {
            self.established = true;
            self.schema_fields = union_keys(&rows);
        }
        assert(self@.buffer =~= Seq::<Seq<CellView>>::empty());
        rows_to_batch(&self.schema_fields, &rows).unwrap()
    }

    /// Takes one row. Where it completes a batch, the batch is handed back
    /// and the buffer is empty again.
    pub fn push(&mut self, row: Row) -> (r: Option<Batch>)
        ensures
            batch_view(r) == old(self)@.emitted(row@),
            final(self)@ == old(self)@.pushed(row@),
            final(self)@.wf(),
    {
        proof {
            use_type_invariant(&*self);
        }
        let mut rows: Vec<Row> = Vec::new();
        std::mem::swap(&mut self.buffer, &mut rows);
        let ghost held = row_views(rows@);
        rows.push(row);
        assert(row_views(rows@) =~= held.push(row@));
        if rows.len() >= self.batch_size {
            let batch: Batch = self.emit(rows);
            proof {
                use_type_invariant(&*self);
            }
            Some(batch)
        } else {
            self.buffer = rows;
            None
        }
    }

    /// Ends the input: what is left in the buffer is handed back as a last
    /// batch.
    pub fn flush(&mut self) -> (r: Option<Batch>)
        ensures
            batch_view(r) == old(self)@.remainder(),
            final(self)@ == old(self)@.flushed(),
            final(self)@.wf(),
    {
        proof {
            use_type_invariant(&*self);
        }
        if self.buffer.len() == 0 {
            return None;
        }
        let mut rows: Vec<Row> = Vec::new();
        std::mem::swap(&mut self.buffer, &mut rows);
        let batch: Batch = self.emit(rows);
        proof {
            use_type_invariant(&*self);
        }
        Some(batch)
    }
}

} // verus!
