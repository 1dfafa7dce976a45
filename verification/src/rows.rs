//! Rows as the host hands them over, and their conversion to and from
//! batches.
//!
//! A row maps column names to doubles. A batch built from rows has one
//! nullable double column per name; a row that lacks a name gets NaN there,
//! and a cell whose name is not asked for is left out.

use crate::batch::{column_views, Batch, BatchView, Column, ColumnView};
use crate::bits::NAN;
use crate::schema::{field_views, float_field, Field, Schema};
use vstd::prelude::*;

verus! {

/// One entry of a row.
#[derive(Debug, PartialEq, Eq)]
pub struct Cell {
    pub name: String,
    pub value: u64,
}

/// What a cell is.
pub struct CellView {
    pub name: Seq<char>,
    pub value: u64,
}

impl View for Cell {
    type V = CellView;

    open spec fn view(&self) -> CellView {
        CellView { name: self.name@, value: self.value }
    }
}

/// A row: cells in the order the host gave them.
#[derive(Debug, PartialEq, Eq)]
pub struct Row {
    pub cells: Vec<Cell>,
}

impl View for Row {
    type V = Seq<CellView>;

    open spec fn view(&self) -> Seq<CellView> {
        Seq::new(self.cells@.len(), |i: int| self.cells@[i]@)
    }
}

/// The views of a list of rows, in order.
pub open spec fn row_views(rows: Seq<Row>) -> Seq<Seq<CellView>> {
    Seq::new(rows.len(), |i: int| rows[i]@)
}

/// The texts of a list of names, in order.
pub open spec fn texts(names: Seq<String>) -> Seq<Seq<char>> {
    Seq::new(names.len(), |i: int| names[i]@)
}

/// Cell `i` is the first of the row that carries the name.
pub open spec fn first_named(row: Seq<CellView>, name: Seq<char>, i: int) -> bool {
    &&& 0 <= i < row.len()
    &&& row[i].name == name
    &&& forall|j: int| 0 <= j < i ==> row[j].name != name
}

/// The value the row gives to the name: that of the first cell so named.
pub open spec fn lookup(row: Seq<CellView>, name: Seq<char>) -> Option<u64> {
    if exists|i: int| first_named(row, name, i) {
        Some(row[choose|i: int| first_named(row, name, i)].value)
    } else {
        None
    }
}

/// The value the row gives to the name, NaN where it gives none.
pub open spec fn value_or_nan(row: Seq<CellView>, name: Seq<char>) -> u64 {
    match lookup(row, name) {
        Some(v) => v,
        None => NAN,
    }
}

/// The column that the rows give to the name.
pub open spec fn column_of(rows: Seq<Seq<CellView>>, name: Seq<char>) -> Seq<u64> {
    Seq::new(rows.len(), |i: int| value_or_nan(rows[i], name))
}

/// The batch of the rows under the names: one nullable double column per
/// name, one value per row.
pub open spec fn table(names: Seq<Seq<char>>, rows: Seq<Seq<CellView>>) -> BatchView {
    BatchView {
        schema: Seq::new(names.len(), |j: int| float_field(names[j])),
        columns: Seq::new(names.len(), |j: int| ColumnView::Float64(column_of(rows, names[j]))),
        rows: rows.len(),
    }
}

/// The names of the cells of a row, in order.
pub open spec fn row_names(row: Seq<CellView>) -> Seq<Seq<char>> {
    Seq::new(row.len(), |i: int| row[i].name)
}

/// `acc` followed by those of `names` that neither `acc` nor an earlier
/// place of `names` holds.
pub open spec fn merged(acc: Seq<Seq<char>>, names: Seq<Seq<char>>) -> Seq<Seq<char>>
    decreases names.len(),
{
    if names.len() == 0 {
        acc
    } else {
        let before = merged(acc, names.drop_last());
        if before.contains(names.last()) {
            before
        } else {
            before.push(names.last())
        }
    }
}

/// The union of the names of the rows, each at the place of its first
/// appearance.
pub open spec fn keys(rows: Seq<Seq<CellView>>) -> Seq<Seq<char>>
    decreases rows.len(),
{
    if rows.len() == 0 {
        Seq::empty()
    } else {
        merged(keys(rows.drop_last()), row_names(rows.last()))
    }
}

/// Merging adds no name twice.
pub proof fn lemma_merged_distinct(acc: Seq<Seq<char>>, names: Seq<Seq<char>>)
    requires
        acc.no_duplicates(),
    ensures
        merged(acc, names).no_duplicates(),
    decreases names.len(),
{
    if names.len() > 0 {
        lemma_merged_distinct(acc, names.drop_last());
    }
}

/// No name stands twice among the keys of rows.
pub proof fn lemma_keys_distinct(rows: Seq<Seq<CellView>>)
    ensures
        keys(rows).no_duplicates(),
    decreases rows.len(),
{
    if rows.len() > 0 {
        lemma_keys_distinct(rows.drop_last());
        lemma_merged_distinct(keys(rows.drop_last()), row_names(rows.last()));
    }
}

/// The batch of rows under distinct names is consistent.
pub proof fn lemma_table_wf(names: Seq<Seq<char>>, rows: Seq<Seq<CellView>>)
    requires
        names.no_duplicates(),
    ensures
        table(names, rows).wf(),
{
}

impl Clone for Cell {
    fn clone(&self) -> (r: Cell)
        ensures
            r == *self,
    {
        Cell { name: self.name.clone(), value: self.value }
    }
}

impl Clone for Row {
    fn clone(&self) -> (r: Row)
        ensures
            r@ == self@,
    {
        let cells: Vec<Cell> = self.cells.clone();
        Row { cells }
    }
}

impl Row {
    /// The value the row gives to the name.
    pub fn get(&self, name: &String) -> (r: Option<u64>)
        ensures
            r == lookup(self@, name@),
    {
        let mut i: usize = 0;
        while i < self.cells.len()
            invariant
                i <= self.cells@.len(),
                forall|j: int| 0 <= j < i ==> self@[j].name != name@,
            decreases self.cells@.len() - i,
        {
            if self.cells[i].name == *name {
                assert(first_named(self@, name@, i as int));
                proof {
                    let k = choose|k: int| first_named(self@, name@, k);
                    assert(k == i);
                }
                return Some(self.cells[i].value);
            }
            i += 1;
        }
        None
    }
}

/// The place of `key` among `names`, if it is there.
fn place_of(names: &Vec<String>, key: &String) -> (r: Option<usize>)
    ensures
        match r {
            Some(i) => i < names@.len() && names@[i as int]@ == key@,
            None => !texts(names@).contains(key@),
        },
{
    let mut i: usize = 0;
    while i < names.len()
        invariant
            i <= names@.len(),
            forall|j: int| 0 <= j < i ==> names@[j]@ != key@,
        decreases names@.len() - i,
    {
        if names[i] == *key {
            return Some(i);
        }
        i += 1;
    }
    None
}

/// The names without repetitions, each at the place of its first appearance.
pub fn first_occurrences(names: &Vec<String>) -> (firsts: Vec<String>)
    ensures
        texts(firsts@) == merged(Seq::empty(), texts(names@)),
        texts(firsts@).no_duplicates(),
{
    let ghost all = texts(names@);
    let mut firsts: Vec<String> = Vec::new();
    let mut j: usize = 0;
    while j < names.len()
        invariant
            j <= names@.len(),
            all == texts(names@),
            texts(firsts@) == merged(Seq::empty(), all.take(j as int)),
        decreases names@.len() - j,
    {
        let key: &String = &names[j];
        proof {
            assert(all.take(j + 1).drop_last() =~= all.take(j as int));
        }
        let ghost old_texts = texts(firsts@);
        match place_of(&firsts, key) {
            Some(at) => {
                assert(old_texts[at as int] == key@);
            },
            None => {
                firsts.push(key.clone());
            },
        }
        j += 1;
    }
    proof {
        assert(all.take(names@.len() as int) =~= all);
        lemma_merged_distinct(Seq::empty(), all);
    }
    firsts
}

/// The union of the names of the rows, each at the place of its first
/// appearance.
pub fn union_keys(rows: &Vec<Row>) -> (names: Vec<String>)
    ensures
        texts(names@) == keys(row_views(rows@)),
        texts(names@).no_duplicates(),
{
    let ghost all = row_views(rows@);
    let mut names: Vec<String> = Vec::new();
    let mut i: usize = 0;
    while i < rows.len()
        invariant
            i <= rows@.len(),
            all == row_views(rows@),
            texts(names@) == keys(all.take(i as int)),
        decreases rows@.len() - i,
    {
        let row: &Row = &rows[i];
        let ghost before = keys(all.take(i as int));
        let ghost these = row_names(row@);
        let mut j: usize = 0;
        while j < row.cells.len()
            invariant
                j <= row.cells@.len(),
                these == row_names(row@),
                texts(names@) == merged(before, these.take(j as int)),
            decreases row.cells@.len() - j,
        {
            let key: &String = &row.cells[j].name;
            proof {
                assert(these.take(j + 1).drop_last() =~= these.take(j as int));
            }
            let ghost old_texts = texts(names@);
            match place_of(&names, key) {
                Some(at) => {
                    assert(old_texts[at as int] == key@);
                },
                None => {
                    names.push(key.clone());
                },
            }
            j += 1;
        }
        proof {
            assert(these.take(row.cells@.len() as int) =~= these);
            assert(all.take(i + 1).drop_last() =~= all.take(i as int));
        }
        i += 1;
    }
    proof {
        assert(all.take(rows@.len() as int) =~= all);
        lemma_keys_distinct(all);
    }
    names
}

/// The column that the rows give to the name.
fn gather(rows: &Vec<Row>, name: &String) -> (values: Vec<u64>)
    ensures
        values@ == column_of(row_views(rows@), name@),
{
    let mut values: Vec<u64> = Vec::with_capacity(rows.len());
    let mut i: usize = 0;
    while i < rows.len()
        invariant
            i <= rows@.len(),
            values@.len() == i,
            forall|k: int| 0 <= k < i ==> values@[k] == value_or_nan(rows@[k]@, name@),
        decreases rows@.len() - i,
    {
        let v: u64 = match rows[i].get(name) {
            Some(v) => v,
            None => NAN,
        };
        values.push(v);
        i += 1;
    }
    values
}

/// The batch of the rows under the names, or nothing if a name stands twice.
pub fn rows_to_batch(names: &Vec<String>, rows: &Vec<Row>) -> (r: Option<Batch>)
    ensures
        r is Some <==> texts(names@).no_duplicates(),
        r matches Some(b) ==> b@ == table(texts(names@), row_views(rows@)),
{
    let ghost want = table(texts(names@), row_views(rows@));
    let mut fields: Vec<Field> = Vec::with_capacity(names.len());
    let mut columns: Vec<Column> = Vec::with_capacity(names.len());
    let mut j: usize = 0;
    while j < names.len()
        invariant
            j <= names@.len(),
            fields@.len() == j,
            columns@.len() == j,
            want == table(texts(names@), row_views(rows@)),
            forall|k: int| 0 <= k < j ==> fields@[k]@ == want.schema[k],
            forall|k: int| 0 <= k < j ==> columns@[k]@ == want.columns[k],
        decreases names@.len() - j,
    {
        fields.push(Field::float(names[j].clone()));
        columns.push(Column::Float64(gather(rows, &names[j])));
        j += 1;
    }
    proof {
        assert(field_views(fields@) =~= want.schema);
        assert(column_views(columns@) =~= want.columns);
        if texts(names@).no_duplicates() {
            lemma_table_wf(texts(names@), row_views(rows@));
        } else {
            let (a, b) = choose|a: int, b: int|
                0 <= a < names@.len() && 0 <= b < names@.len() && a != b && texts(names@)[a]
                    == texts(names@)[b];
            assert(want.schema[a].name == want.schema[b].name);
        }
    }
    let schema: Schema = match Schema::try_new(fields) {
        Some(schema) => schema,
        None => {
            return None;
        },
    };
    Batch::try_new(schema, columns, rows.len())
}

/// The cells that row `i` of a batch has in its first `upto` columns: one
/// for each column of doubles, in column order. Columns of other types have
/// no place in a row.
pub open spec fn cells_of(batch: BatchView, i: int, upto: int) -> Seq<CellView>
    decreases upto,
{
    if upto <= 0 {
        Seq::empty()
    } else {
        let before = cells_of(batch, i, upto - 1);
        match batch.columns[upto - 1] {
            ColumnView::Float64(values) => before.push(
                CellView { name: batch.schema[upto - 1].name, value: values[i] },
            ),
            ColumnView::Other { .. } => before,
        }
    }
}

/// Row `i` of a batch.
pub open spec fn row_of(batch: BatchView, i: int) -> Seq<CellView> {
    cells_of(batch, i, batch.columns.len() as int)
}

/// The rows of a batch, in order.
pub open spec fn rows_of(batch: BatchView) -> Seq<Seq<CellView>> {
    Seq::new(batch.rows, |i: int| row_of(batch, i))
}

/// The rows of a batch, in order, each with the doubles it holds.
pub fn batch_to_rows(batch: &Batch) -> (rows: Vec<Row>)
    ensures
        row_views(rows@) == rows_of(batch@),
{
    let n: usize = batch.num_rows();
    let width: usize = batch.num_columns();
    let mut rows: Vec<Row> = Vec::with_capacity(n);
    let mut i: usize = 0;
    while i < n
        invariant
            i <= n,
            n == batch@.rows,
            width == batch@.columns.len(),
            batch@.wf(),
            rows@.len() == i,
            forall|k: int| 0 <= k < i ==> rows@[k]@ == row_of(batch@, k),
        decreases n - i,
    {
        let mut cells: Vec<Cell> = Vec::new();
        let mut j: usize = 0;
        while j < width
            invariant
                j <= width,
                i < n,
                n == batch@.rows,
                width == batch@.columns.len(),
                batch@.wf(),
                Seq::new(cells@.len(), |c: int| cells@[c]@) == cells_of(batch@, i as int, j as int),
            decreases width - j,
        {
            match batch.column(j) {
                Column::Float64(values) => {
                    let cell = Cell { name: batch.schema().field(j).name.clone(), value: values[i] };
                    cells.push(cell);
                },
                Column::Other { .. } => {},
            }
            j += 1;
        }
        rows.push(Row { cells });
        i += 1;
    }
    rows
}

/// What a host transform gave for each row: the row to pass on, or nothing
/// where it dropped the row.
pub open spec fn answer_views(answers: Seq<Option<Row>>) -> Seq<Option<Seq<CellView>>> {
    Seq::new(
        answers.len(),
        |i: int|
            match answers[i] {
                Some(row) => Some(row@),
                None => None,
            },
    )
}

/// The rows that were passed on, in the order of the answers.
pub open spec fn kept(answers: Seq<Option<Seq<CellView>>>) -> Seq<Seq<CellView>>
    decreases answers.len(),
{
    if answers.len() == 0 {
        Seq::empty()
    } else {
        match answers.last() {
            Some(row) => kept(answers.drop_last()).push(row),
            None => kept(answers.drop_last()),
        }
    }
}

/// The number of rows that were dropped.
pub open spec fn dropped(answers: Seq<Option<Seq<CellView>>>) -> nat
    decreases answers.len(),
{
    if answers.len() == 0 {
        0
    } else if answers.last() is None {
        dropped(answers.drop_last()) + 1
    } else {
        dropped(answers.drop_last())
    }
}

/// Of the rows handed to a host transform, those that it did not drop are
/// passed on: as many as were handed over less the dropped ones.
pub proof fn lemma_kept_counts(answers: Seq<Option<Seq<CellView>>>)
    ensures
        kept(answers).len() + dropped(answers) == answers.len(),
    decreases answers.len(),
{
    if answers.len() > 0 {
        lemma_kept_counts(answers.drop_last());
    }
}

/// The batch that a host transform passes on has the rows of the batch it
/// was handed, less the rows it dropped.
pub proof fn lemma_passed_on_count(batch: BatchView, answers: Seq<Option<Seq<CellView>>>)
    requires
        answers.len() == rows_of(batch).len(),
    ensures
        table(keys(kept(answers)), kept(answers)).rows + dropped(answers) == batch.rows,
{
    lemma_kept_counts(answers);
}

/// The rows that are passed on keep the order in which they were handed
/// over: each stands at an earlier place than the next.
pub proof fn lemma_kept_in_order(answers: Seq<Option<Seq<CellView>>>) -> (places: Seq<int>)
    ensures
        places.len() == kept(answers).len(),
        forall|k: int|
            0 <= k < places.len() ==> 0 <= #[trigger] places[k] < answers.len() && answers[places[k]]
                == Some(kept(answers)[k]),
        forall|a: int, b: int| 0 <= a < b < places.len() ==> places[a] < places[b],
    decreases answers.len(),
{
    if answers.len() == 0 {
        Seq::empty()
    } else {
        let before = lemma_kept_in_order(answers.drop_last());
        match answers.last() {
            Some(row) => before.push(answers.len() - 1),
            None => before,
        }
    }
}

/// The batch that a host transform passes on: the rows it did not drop, in
/// order, under the union of their names; nothing where it dropped them all.
pub fn reassemble(answers: &Vec<Option<Row>>) -> (r: Option<Batch>)
    ensures
        match r {
            Some(b) => kept(answer_views(answers@)).len() > 0 && b@ == table(
                keys(kept(answer_views(answers@))),
                kept(answer_views(answers@)),
            ),
            None => kept(answer_views(answers@)).len() == 0,
        },
{
    let ghost all = answer_views(answers@);
    let mut rows: Vec<Row> = Vec::new();
    let mut i: usize = 0;
    while i < answers.len()
        invariant
            i <= answers@.len(),
            all == answer_views(answers@),
            row_views(rows@) == kept(all.take(i as int)),
        decreases answers@.len() - i,
    {
        proof {
            assert(all.take(i + 1).drop_last() =~= all.take(i as int));
        }
        match &answers[i] {
            Some(row) => {
                rows.push(row.clone());
            },
            None => {},
        }
        i += 1;
    }
    proof {
        assert(all.take(answers@.len() as int) =~= all);
    }
    if rows.len() == 0 {
        return None;
    }
    let names: Vec<String> = union_keys(&rows);
    rows_to_batch(&names, &rows)
}

} // verus!
