use arrow::array::{Array, ArrayData, Int32Array};
use otters::batch::{Batch, Column};
use otters::builtins::append_column;
use otters::compute::StageError;
use otters::schema::{DataType, Field, Schema};

fn field(name: &str, data_type: DataType) -> Field {
    Field { name: name.to_string(), data_type, nullable: true }
}

fn tags(n: usize) -> ArrayData {
    Int32Array::from((0..n as i32).collect::<Vec<i32>>()).to_data()
}

fn other(n: usize) -> Column {
    Column::other(tags(n))
}

fn two_columns() -> Batch {
    let schema =
        Schema::try_new(vec![field("x", DataType::Float64), field("tag", DataType::Other)]).unwrap();
    let columns = vec![Column::Float64(vec![1.0f64.to_bits(), 2.0f64.to_bits()]), other(2)];
    Batch::try_new(schema, columns, 2).unwrap()
}

#[test]
fn schema_refuses_a_name_twice() {
    assert!(Schema::try_new(vec![field("a", DataType::Float64), field("a", DataType::Other)])
        .is_none());
    let s = Schema::try_new(vec![field("a", DataType::Float64), field("b", DataType::Float64)])
        .unwrap();
    assert_eq!(s.len(), 2);
    assert_eq!(s.index_of("b"), Some(1));
    assert_eq!(s.index_of("c"), None);
    assert!(s.clone().with_field(field("a", DataType::Float64)).is_none());
    let longer = s.clone().with_field(field("c", DataType::Other)).unwrap();
    assert_eq!(longer.len(), 3);
    assert_eq!(longer.field(2).name, "c");
    assert!(!longer.same_as(&s));
    assert!(s.same_as(&s.clone()));
    assert_eq!(Schema::empty().len(), 0);
}

#[test]
fn schemas_differ_by_type_and_nullability() {
    let a = Schema::try_new(vec![field("a", DataType::Float64)]).unwrap();
    let b = Schema::try_new(vec![field("a", DataType::Other)]).unwrap();
    let c = Schema::try_new(vec![Field {
        name: "a".to_string(),
        data_type: DataType::Float64,
        nullable: false,
    }])
    .unwrap();
    assert!(!a.same_as(&b));
    assert!(!a.same_as(&c));
    assert!(a.same_as(&Schema::try_new(vec![Field::float("a".to_string())]).unwrap()));
}

#[test]
fn batch_refuses_columns_that_do_not_fit() {
    let schema = || Schema::try_new(vec![field("x", DataType::Float64)]).unwrap();
    assert!(Batch::try_new(schema(), vec![Column::Float64(vec![0, 0])], 3).is_none());
    assert!(Batch::try_new(schema(), vec![other(2)], 2).is_none());
    assert!(Batch::try_new(schema(), vec![], 0).is_none());
    assert!(Batch::try_new(schema(), vec![Column::Float64(vec![0, 0])], 2).is_some());
    let empty = Batch::try_new(Schema::empty(), vec![], 7).unwrap();
    assert_eq!(empty.num_rows(), 7);
    assert_eq!(empty.num_columns(), 0);
}

#[test]
fn append_column_adds_one_nullable_double_column() {
    let out = append_column(two_columns(), vec![7, 8], "y".to_string()).unwrap();
    assert_eq!(out.num_rows(), 2);
    assert_eq!(out.num_columns(), 3);
    assert_eq!(out.schema().field(0).name, "x");
    assert_eq!(out.schema().field(1).name, "tag");
    let added = out.schema().field(2);
    assert_eq!(added.name, "y");
    assert_eq!(added.data_type, DataType::Float64);
    assert!(added.nullable);
    assert_eq!(out.column(0), two_columns().column(0));
    assert_eq!(out.column(1), &other(2));
    assert_eq!(out.column(1), two_columns().column(1));
    assert_eq!(out.column(2), &Column::Float64(vec![7, 8]));
}

#[test]
fn append_column_refuses_a_taken_name_and_a_wrong_length() {
    assert_eq!(
        append_column(two_columns(), vec![7, 8], "x".to_string()).unwrap_err(),
        StageError::DuplicateColumn
    );
    assert_eq!(
        append_column(two_columns(), vec![7], "y".to_string()).unwrap_err(),
        StageError::LengthMismatch
    );
    assert_eq!(
        append_column(two_columns(), vec![7], "tag".to_string()).unwrap_err(),
        StageError::DuplicateColumn
    );
}

#[test]
fn appending_the_same_name_twice_is_refused() {
    let once = append_column(two_columns(), vec![7, 8], "y".to_string()).unwrap();
    assert_eq!(
        append_column(once, vec![7, 8], "y".to_string()).unwrap_err(),
        StageError::DuplicateColumn
    );
}

#[test]
fn a_column_of_buffers_has_their_length() {
    assert_eq!(other(0).len(), 0);
    assert_eq!(other(5).len(), 5);
    assert_eq!(other(5), Column::Other { rows: 5, data: tags(5) });
}

#[test]
fn floats_of_reads_doubles_only() {
    let b = two_columns();
    assert_eq!(b.floats_of("x").unwrap(), &vec![1.0f64.to_bits(), 2.0f64.to_bits()]);
    assert_eq!(b.floats_of("tag").unwrap_err(), StageError::ColumnNotFloat);
    assert_eq!(b.floats_of("nope").unwrap_err(), StageError::ColumnNotFound);
    assert_eq!(b, two_columns());
}
