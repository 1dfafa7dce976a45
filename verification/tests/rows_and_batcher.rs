use otters::workers::batcher_turn;
use arrow::array::{Array, StringArray};
use otters::batch::{Batch, Column};
use otters::batcher::Batcher;
use otters::bits::NAN;
use otters::rows::{
    batch_to_rows, first_occurrences, reassemble, rows_to_batch, union_keys, Cell, Row,
};
use otters::schema::{DataType, Field, Schema};

fn row(cells: &[(&str, f64)]) -> Row {
    Row {
        cells: cells.iter().map(|(n, v)| Cell { name: n.to_string(), value: v.to_bits() }).collect(),
    }
}

fn names(batch: &Batch) -> Vec<String> {
    (0..batch.num_columns()).map(|j| batch.schema().field(j).name.clone()).collect()
}

fn doubles(batch: &Batch, j: usize) -> Vec<u64> {
    match batch.column(j) {
        Column::Float64(values) => values.clone(),
        Column::Other { .. } => panic!("a column of doubles"),
    }
}

#[test]
fn row_lookup_takes_the_first_cell_of_a_name() {
    let r = row(&[("a", 1.0), ("b", 2.0), ("a", 3.0)]);
    assert_eq!(r.get(&"a".to_string()), Some(1.0f64.to_bits()));
    assert_eq!(r.get(&"b".to_string()), Some(2.0f64.to_bits()));
    assert_eq!(r.get(&"c".to_string()), None);
}

#[test]
fn keys_are_the_union_in_order_of_first_appearance() {
    let rows = vec![row(&[("b", 1.0), ("a", 2.0)]), row(&[("a", 3.0), ("c", 4.0), ("b", 5.0)])];
    assert_eq!(union_keys(&rows), vec!["b", "a", "c"]);
    assert_eq!(union_keys(&vec![]), Vec::<String>::new());
    let given = vec!["x".to_string(), "y".to_string(), "x".to_string()];
    assert_eq!(first_occurrences(&given), vec!["x", "y"]);
}

#[test]
fn rows_become_nullable_double_columns() {
    let rows = vec![row(&[("a", 1.0), ("b", 2.0)]), row(&[("b", 3.0)]), row(&[("z", 9.0), ("a", 4.0)])];
    let batch = rows_to_batch(&vec!["a".to_string(), "b".to_string()], &rows).unwrap();
    assert_eq!(batch.num_rows(), 3);
    assert_eq!(names(&batch), vec!["a", "b"]);
    assert_eq!(doubles(&batch, 0), vec![1.0f64.to_bits(), NAN, 4.0f64.to_bits()]);
    assert_eq!(doubles(&batch, 1), vec![2.0f64.to_bits(), 3.0f64.to_bits(), NAN]);
    for j in 0..2 {
        let f = batch.schema().field(j);
        assert_eq!(f.data_type, DataType::Float64);
        assert!(f.nullable);
    }
    assert!(rows_to_batch(&vec!["a".to_string(), "a".to_string()], &rows).is_none());
}

#[test]
fn rows_without_names_keep_their_count() {
    let rows = vec![row(&[]), row(&[])];
    let batch = rows_to_batch(&vec![], &rows).unwrap();
    assert_eq!(batch.num_rows(), 2);
    assert_eq!(batch.num_columns(), 0);
}

#[test]
fn batch_rows_hold_the_double_columns_only() {
    let schema = Schema::try_new(vec![
        Field::float("a".to_string()),
        Field { name: "s".to_string(), data_type: DataType::Other, nullable: false },
        Field::float("b".to_string()),
    ])
    .unwrap();
    let columns = vec![
        Column::Float64(vec![1.0f64.to_bits(), 2.0f64.to_bits()]),
        Column::Other { rows: 2, data: StringArray::from(vec!["u", "v"]).to_data() },
        Column::Float64(vec![3.0f64.to_bits(), 4.0f64.to_bits()]),
    ];
    let batch = Batch::try_new(schema, columns, 2).unwrap();
    let rows = batch_to_rows(&batch);
    assert_eq!(rows, vec![row(&[("a", 1.0), ("b", 3.0)]), row(&[("a", 2.0), ("b", 4.0)])]);
}

#[test]
fn rows_of_a_batch_give_the_batch_back() {
    let rows = vec![row(&[("a", 1.0), ("b", 2.0)]), row(&[("a", 3.0), ("b", 4.0)])];
    let batch = rows_to_batch(&union_keys(&rows), &rows).unwrap();
    assert_eq!(batch_to_rows(&batch), rows);
}

#[test]
fn host_transform_drops_even_rows() {
    let rows: Vec<Row> = (0..10).map(|i| row(&[("i", i as f64)])).collect();
    let answers: Vec<Option<Row>> =
        rows.iter().enumerate().map(|(i, r)| if i % 2 == 0 { None } else { Some(r.clone()) }).collect();
    let batch = reassemble(&answers).unwrap();
    assert_eq!(batch.num_rows(), 5);
    assert_eq!(names(&batch), vec!["i"]);
    let want: Vec<u64> = [1.0f64, 3.0, 5.0, 7.0, 9.0].iter().map(|v| v.to_bits()).collect();
    assert_eq!(doubles(&batch, 0), want);
}

#[test]
fn host_transform_that_drops_all_sends_nothing() {
    assert!(reassemble(&vec![None, None, None]).is_none());
    assert!(reassemble(&vec![]).is_none());
}

#[test]
fn batcher_emits_full_batches_and_a_short_last_one() {
    let mut batcher = Batcher::new(3, vec![]);
    let mut sizes: Vec<usize> = Vec::new();
    let mut seen: Vec<u64> = Vec::new();
    for i in 0..8 {
        if let Some(batch) = batcher.push(row(&[("x", i as f64)])) {
            sizes.push(batch.num_rows());
            seen.extend(doubles(&batch, 0));
            assert_eq!(batcher.buffered(), 0);
        }
    }
    assert_eq!(sizes, vec![3, 3]);
    assert_eq!(batcher.buffered(), 2);
    let last = batcher.flush().unwrap();
    assert_eq!(last.num_rows(), 2);
    seen.extend(doubles(&last, 0));
    let want: Vec<u64> = (0..8).map(|i| (i as f64).to_bits()).collect();
    assert_eq!(seen, want);
    assert!(batcher.flush().is_none());
    assert_eq!(batcher.batch_size(), 3);
}

#[test]
fn batcher_without_rows_flushes_nothing() {
    let mut batcher = Batcher::new(4, vec![]);
    assert!(batcher.flush().is_none());
}

#[test]
fn batcher_of_size_zero_emits_every_row() {
    let mut batcher = Batcher::new(0, vec![]);
    for i in 0..3 {
        let batch = batcher.push(row(&[("x", i as f64)])).unwrap();
        assert_eq!(batch.num_rows(), 1);
    }
    assert!(batcher.flush().is_none());
}

#[test]
fn first_batch_settles_the_schema() {
    let mut batcher = Batcher::new(2, vec![]);
    assert!(batcher.push(row(&[("a", 1.0)])).is_none());
    let first = batcher.push(row(&[("b", 2.0), ("a", 3.0)])).unwrap();
    assert_eq!(names(&first), vec!["a", "b"]);
    assert_eq!(doubles(&first, 1), vec![NAN, 2.0f64.to_bits()]);
    assert!(batcher.push(row(&[("c", 4.0), ("b", 5.0)])).is_none());
    let second = batcher.push(row(&[("a", 6.0)])).unwrap();
    assert_eq!(names(&second), vec!["a", "b"]);
    assert_eq!(doubles(&second, 0), vec![NAN, 6.0f64.to_bits()]);
    assert_eq!(doubles(&second, 1), vec![5.0f64.to_bits(), NAN]);
}

#[test]
fn given_schema_is_used_from_the_start() {
    let mut batcher = Batcher::new(1, vec!["b".to_string(), "a".to_string(), "b".to_string()]);
    let batch = batcher.push(row(&[("a", 1.0), ("c", 2.0)])).unwrap();
    assert_eq!(names(&batch), vec!["b", "a"]);
    assert_eq!(doubles(&batch, 0), vec![NAN]);
    assert_eq!(doubles(&batch, 1), vec![1.0f64.to_bits()]);
}

#[test]
fn batcher_worker_takes_what_waits_and_flushes_at_the_end() {
    let (row_tx, row_rx) = crossbeam_channel::bounded::<Row>(16);
    let (batch_tx, batch_rx) = crossbeam_channel::bounded::<Batch>(16);
    for i in 0..7 {
        row_tx.send(row(&[("x", i as f64)])).unwrap();
    }
    drop(row_tx);
    let mut batcher = Batcher::new(3, vec![]);
    let mut turns = 0;
    while batcher_turn(&mut batcher, &row_rx, &batch_tx) {
        turns += 1;
    }
    assert_eq!(turns, 3);
    assert_eq!(batcher.buffered(), 0);
    drop(batch_tx);
    let got: Vec<Batch> = batch_rx.iter().collect();
    let sizes: Vec<usize> = got.iter().map(|b| b.num_rows()).collect();
    assert_eq!(sizes, vec![3, 3, 1]);
    let seen: Vec<u64> = got.iter().flat_map(|b| doubles(b, 0)).collect();
    let want: Vec<u64> = (0..7).map(|i| (i as f64).to_bits()).collect();
    assert_eq!(seen, want);
}

#[test]
fn batcher_worker_waits_for_more_rows_between_turns() {
    let (row_tx, row_rx) = crossbeam_channel::bounded::<Row>(16);
    let (batch_tx, batch_rx) = crossbeam_channel::bounded::<Batch>(16);
    let mut batcher = Batcher::new(3, vec![]);
    row_tx.send(row(&[("x", 1.0)])).unwrap();
    row_tx.send(row(&[("x", 2.0)])).unwrap();
    assert!(batcher_turn(&mut batcher, &row_rx, &batch_tx));
    assert_eq!(batcher.buffered(), 2);
    assert!(batch_rx.try_recv().is_err());
    row_tx.send(row(&[("x", 3.0)])).unwrap();
    assert!(batcher_turn(&mut batcher, &row_rx, &batch_tx));
    assert_eq!(batch_rx.try_recv().unwrap().num_rows(), 3);
    drop(row_tx);
    assert!(!batcher_turn(&mut batcher, &row_rx, &batch_tx));
    assert!(batch_rx.try_recv().is_err());
}
