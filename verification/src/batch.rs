//! Record batches: columns of one length under a schema.

use arrow::array::ArrayData;
use crate::compute::StageError;
use crate::schema::{
    distinct_names, float_field, has_name, DataType, Field, FieldView, Schema,
};
use vstd::prelude::*;

verus! {

/// `arrow::array::ArrayData`, the buffers of an arrow array of any type. The
/// library carries such a value from the batch it came in to the batch that
/// goes out and never looks into it; nothing is claimed of what it holds.
#[verifier::external_type_specification]
#[verifier::external_body]
pub struct ExArrayData(ArrayData);

/// One column of a batch.
#[derive(Debug, PartialEq)]
pub enum Column {
    /// Doubles, one per row, as bit patterns.
    Float64(Vec<u64>),
    /// A column of another type: its arrow buffers, and the number of rows
    /// they are taken to hold (see [`Column::other`]).
    Other { rows: usize, data: ArrayData },
}

/// What a column is.
pub enum ColumnView {
    Float64(Seq<u64>),
    Other { rows: nat, data: ArrayData },
}

impl ColumnView {
    /// The number of rows.
    pub open spec fn len(self) -> nat {
        match self {
            ColumnView::Float64(values) => values.len(),
            ColumnView::Other { rows, .. } => rows,
        }
    }

    /// The type a schema gives to such a column.
    pub open spec fn data_type(self) -> DataType {
        match self {
            ColumnView::Float64(_) => DataType::Float64,
            ColumnView::Other { .. } => DataType::Other,
        }
    }
}

impl View for Column {
    type V = ColumnView;

    open spec fn view(&self) -> ColumnView {
        match self {
            Column::Float64(values) => ColumnView::Float64(values@),
            Column::Other { rows, data } => ColumnView::Other { rows: *rows as nat, data: *data },
        }
    }
}

/// `ArrayData::len`: the number of elements that the buffers hold. Nothing
/// is claimed of the number.
#[verifier::external_body]
fn held_rows(data: &ArrayData) -> (rows: usize) {
    data.len()
}

impl Column {
    /// The column of the given buffers, with the number of rows that the
    /// buffers say they hold.
    pub fn other(data: ArrayData) -> (c: Column)
        ensures
            c matches Column::Other { data: held, .. } && held == data,
    {
        let rows: usize = held_rows(&data);
        Column::Other { rows, data }
    }

    /// The number of rows.
    pub fn len(&self) -> (n: usize)
        ensures
            n == self@.len(),
    {
        match self {
            Column::Float64(values) => values.len(),
            Column::Other { rows, .. } => *rows,
        }
    }
}

/// The views of a list of columns, in order.
pub open spec fn column_views(columns: Seq<Column>) -> Seq<ColumnView> {
    Seq::new(columns.len(), |i: int| columns[i]@)
}

/// What a batch is: its schema, its columns and its number of rows.
pub struct BatchView {
    pub schema: Seq<FieldView>,
    pub columns: Seq<ColumnView>,
    pub rows: nat,
}

impl BatchView {
    /// The batch is consistent: distinct names, one column per field, each of
    /// the field's type and as long as the batch.
    pub open spec fn wf(self) -> bool {
        &&& distinct_names(self.schema)
        &&& self.columns.len() == self.schema.len()
        &&& forall|j: int|
            0 <= j < self.columns.len() ==> (#[trigger] self.columns[j]).len() == self.rows
        &&& forall|j: int|
            0 <= j < self.columns.len() ==> (#[trigger] self.columns[j]).data_type()
                == self.schema[j].data_type
    }

    /// The batch with one more double column at the end.
    pub open spec fn with_floats(self, name: Seq<char>, values: Seq<u64>) -> BatchView {
        BatchView {
            schema: self.schema.push(float_field(name)),
            columns: self.columns.push(ColumnView::Float64(values)),
            rows: self.rows,
        }
    }

    /// The doubles of column `j`.
    pub open spec fn floats(self, j: int) -> Seq<u64>
        recommends
            0 <= j < self.columns.len(),
            self.columns[j] is Float64,
    {
        self.columns[j]->Float64_0
    }

    /// The position of the column called `name`.
    pub open spec fn position(self, name: Seq<char>) -> int
        recommends
            has_name(self.schema, name),
    {
        choose|j: int| 0 <= j < self.schema.len() && #[trigger] self.schema[j].name == name
    }

    /// The doubles of the column called `name`.
    pub open spec fn named_floats(self, name: Seq<char>) -> Seq<u64>
        recommends
            self.read_error(name) is None,
    {
        self.floats(self.position(name))
    }

    /// The doubles of the last column.
    pub open spec fn last_floats(self) -> Seq<u64>
        recommends
            self.columns.len() > 0,
            self.columns.last() is Float64,
    {
        self.floats(self.columns.len() - 1)
    }

    /// Why the doubles of the column called `name` cannot be read, if they
    /// cannot: there is no such column, or it holds no doubles.
    pub open spec fn read_error(self, name: Seq<char>) -> Option<StageError> {
        if !has_name(self.schema, name) {
            Some(StageError::ColumnNotFound)
        } else if self.columns[self.position(name)] is Other {
            Some(StageError::ColumnNotFloat)
        } else {
            None
        }
    }

    /// Why a double column of `len` values called `name` cannot be appended,
    /// if it cannot: the name is taken, or else `len` is not the number of
    /// rows.
    pub open spec fn append_error(self, name: Seq<char>, len: nat) -> Option<StageError> {
        if has_name(self.schema, name) {
            Some(StageError::DuplicateColumn)
        } else if len != self.rows {
            Some(StageError::LengthMismatch)
        } else {
            None
        }
    }
}

/// In a consistent batch a name stands at one position only.
pub proof fn lemma_position(batch: BatchView, name: Seq<char>, j: int)
    requires
        batch.wf(),
        0 <= j < batch.schema.len(),
        batch.schema[j].name == name,
    ensures
        has_name(batch.schema, name),
        batch.position(name) == j,
{
    let k = batch.position(name);
    assert(k == j);
}

/// `out` has the rows of `input` and, at their positions, all its columns;
/// what `out` has more stands after them.
pub open spec fn extends(out: BatchView, input: BatchView) -> bool {
    &&& out.rows == input.rows
    &&& input.schema.len() <= out.schema.len()
    &&& out.schema.subrange(0, input.schema.len() as int) == input.schema
    &&& input.columns.len() <= out.columns.len()
    &&& out.columns.subrange(0, input.columns.len() as int) == input.columns
}

/// A batch with a column appended extends the batch.
pub proof fn lemma_append_extends(batch: BatchView, name: Seq<char>, values: Seq<u64>)
    requires
        batch.columns.len() == batch.schema.len(),
    ensures
        extends(batch.with_floats(name, values), batch),
{
    let out = batch.with_floats(name, values);
    assert(out.schema.subrange(0, batch.schema.len() as int) =~= batch.schema);
    assert(out.columns.subrange(0, batch.columns.len() as int) =~= batch.columns);
}

/// Appending a column of a free name and the batch's length keeps the batch
/// consistent and takes the name; a column that could be read before can be
/// read after, and holds the same doubles.
pub proof fn lemma_append_keeps(
    batch: BatchView,
    name: Seq<char>,
    values: Seq<u64>,
    read: Seq<char>,
)
    requires
        batch.wf(),
        batch.append_error(name, values.len()) is None,
    ensures
        batch.with_floats(name, values).wf(),
        has_name(batch.with_floats(name, values).schema, name),
        batch.with_floats(name, values).append_error(name, values.len()) == Some(
            StageError::DuplicateColumn,
        ),
        batch.read_error(read) is None ==> {
            &&& batch.with_floats(name, values).read_error(read) is None
            &&& batch.with_floats(name, values).named_floats(read) == batch.named_floats(read)
        },
{
    let out = batch.with_floats(name, values);
    let n = batch.schema.len() as int;
    assert(out.schema[n].name == name);
    if batch.read_error(read) is None {
        let j = batch.position(read);
        lemma_position(out, read, j);
    }
}

/// A record batch: columns of equal length, one per field of the schema.
#[derive(Debug, PartialEq)]
pub struct Batch {
    schema: Schema,
    columns: Vec<Column>,
    rows: usize,
}

impl View for Batch {
    type V = BatchView;

    closed spec fn view(&self) -> BatchView {
        BatchView {
            schema: self.schema@,
            columns: column_views(self.columns@),
            rows: self.rows as nat,
        }
    }
}

impl Batch {
    /// What holds of every batch: see [`BatchView::wf`].
    #[verifier::type_invariant]
    pub closed spec fn wf(&self) -> bool {
        self@.wf()
    }

    /// The batch of the given columns under the given schema, with `rows`
    /// rows; nothing if the columns do not fit the schema or differ in length
    /// from `rows`.
    pub fn try_new(schema: Schema, columns: Vec<Column>, rows: usize) -> (r: Option<Batch>)
        ensures
            r is Some <==> (BatchView {
                schema: schema@,
                columns: column_views(columns@),
                rows: rows as nat,
            }).wf(),
            r matches Some(b) ==> b@ == (BatchView {
                schema: schema@,
                columns: column_views(columns@),
                rows: rows as nat,
            }),
    {
        let n: usize = schema.len();
        let ghost view = BatchView {
            schema: schema@,
            columns: column_views(columns@),
            rows: rows as nat,
        };
        if columns.len() != n {
            return None;
        }
        let mut j: usize = 0;
        while j < n
            invariant
                j <= n,
                n == schema@.len(),
                n == columns.len(),
                view.schema == schema@,
                view.columns == column_views(columns@),
                view.rows == rows,
                forall|k: int| 0 <= k < j ==> (#[trigger] view.columns[k]).len() == rows,
                forall|k: int|
                    0 <= k < j ==> (#[trigger] view.columns[k]).data_type()
                        == view.schema[k].data_type,
            decreases n - j,
        {
            let is_float: bool = match &columns[j] {
                Column::Float64(_) => true,
                Column::Other { .. } => false,
            };
            let wants_float: bool = match schema.field(j).data_type {
                DataType::Float64 => true,
                DataType::Other => false,
            };
            if columns[j].len() != rows || is_float != wants_float {
                assert(view.columns[j as int].len() != rows || view.columns[j as int].data_type()
                    != view.schema[j as int].data_type);
                return None;
            }
            j += 1;
        }
        Some(Batch { schema, columns, rows })
    }

    /// The number of rows.
    pub fn num_rows(&self) -> (n: usize)
        ensures
            n == self@.rows,
            self@.wf(),
    {
        proof {
            use_type_invariant(self);
        }
        self.rows
    }

    /// The number of columns.
    pub fn num_columns(&self) -> (n: usize)
        ensures
            n == self@.columns.len(),
            self@.wf(),
    {
        proof {
            use_type_invariant(self);
        }
        self.columns.len()
    }

    /// The schema.
    pub fn schema(&self) -> (s: &Schema)
        ensures
            s@ == self@.schema,
    {
        &self.schema
    }

    /// The column at position `j`.
    pub fn column(&self, j: usize) -> (c: &Column)
        requires
            j < self@.columns.len(),
        ensures
            c@ == self@.columns[j as int],
    {
        &self.columns[j]
    }

    /// The doubles of the column called `name`.
    pub fn floats_of(&self, name: &str) -> (r: Result<&Vec<u64>, StageError>)
        ensures
            self@.wf(),
            match r {
                Ok(values) => self@.read_error(name@) is None && values@ == self@.named_floats(
                    name@,
                ),
                Err(e) => self@.read_error(name@) == Some(e),
            },
    {
        proof {
            use_type_invariant(self);
        }
        match self.schema.index_of(name) {
            None => Err(StageError::ColumnNotFound),
            Some(j) => {
                proof {
                    lemma_position(self@, name@, j as int);
                }
                match &self.columns[j] {
                    Column::Float64(values) => Ok(values),
                    Column::Other { .. } => Err(StageError::ColumnNotFloat),
                }
            },
        }
    }

    /// The batch with one more double column, `values`, called `name`, after
    /// the columns it has.
    pub fn with_floats(self, name: String, values: Vec<u64>) -> (r: Result<Batch, StageError>)
        ensures
            match r {
                Ok(out) => self@.append_error(name@, values@.len()) is None && out@
                    == self@.with_floats(name@, values@),
                Err(e) => self@.append_error(name@, values@.len()) == Some(e),
            },
    {
        proof {
            use_type_invariant(&self);
        }
        let ghost before = self@;
        if values.len() != self.rows {
            if self.schema.index_of(name.as_str()).is_some() {
                return Err(StageError::DuplicateColumn);
            }
            return Err(StageError::LengthMismatch);
        }
        let ghost value_view = values@;
        match self.schema.with_field(Field::float(name)) {
            None => Err(StageError::DuplicateColumn),
            Some(schema) => {
                let mut columns: Vec<Column> = self.columns;
                columns.push(Column::Float64(values));
                proof {
                    assert(column_views(columns@) =~= before.columns.push(
                        ColumnView::Float64(value_view),
                    ));
                }
                Ok(Batch { schema, columns, rows: self.rows })
            },
        }
    }
}

} // verus!
