use arrow::array::{Array, BooleanArray};
use otters::batch::{Batch, Column};
use otters::bits::{is_nan, NAN};
use otters::builtins::ema::Ema;
use otters::builtins::rolling_mean::RollingMean;
use otters::builtins::vwap::Vwap;
use otters::builtins::zscore::ZScore;
use otters::compute::{ComputeStage, StageError};
use otters::schema::{Field, Schema};
use otters::Arithmetic;

struct Ieee;

impl Arithmetic for Ieee {
    fn add(a: u64, b: u64) -> u64 {
        (f64::from_bits(a) + f64::from_bits(b)).to_bits()
    }
    fn sub(a: u64, b: u64) -> u64 {
        (f64::from_bits(a) - f64::from_bits(b)).to_bits()
    }
    fn mul(a: u64, b: u64) -> u64 {
        (f64::from_bits(a) * f64::from_bits(b)).to_bits()
    }
    fn div(a: u64, b: u64) -> u64 {
        (f64::from_bits(a) / f64::from_bits(b)).to_bits()
    }
    fn sqrt(a: u64) -> u64 {
        f64::from_bits(a).sqrt().to_bits()
    }
    fn from_count(n: usize) -> u64 {
        (n as f64).to_bits()
    }
}

fn bits(values: &[f64]) -> Vec<u64> {
    values.iter().map(|v| v.to_bits()).collect()
}

fn batch_of(columns: &[(&str, &[f64])]) -> Batch {
    let fields: Vec<Field> = columns.iter().map(|(n, _)| Field::float(n.to_string())).collect();
    let cols: Vec<Column> = columns.iter().map(|(_, v)| Column::Float64(bits(v))).collect();
    let rows = columns.first().map(|(_, v)| v.len()).unwrap_or(0);
    Batch::try_new(Schema::try_new(fields).unwrap(), cols, rows).unwrap()
}

fn last_column(batch: &Batch) -> Vec<f64> {
    match batch.column(batch.num_columns() - 1) {
        Column::Float64(values) => values.iter().map(|b| f64::from_bits(*b)).collect(),
        Column::Other { .. } => panic!("the appended column holds doubles"),
    }
}

fn last_name(batch: &Batch) -> String {
    batch.schema().field(batch.num_columns() - 1).name.clone()
}

fn assert_close(got: &[f64], want: &[f64]) {
    assert_eq!(got.len(), want.len());
    for (g, w) in got.iter().zip(want.iter()) {
        if w.is_nan() {
            assert!(g.is_nan(), "expected NaN, got {}", g);
        } else {
            assert!((g - w).abs() <= 1e-12 * w.abs().max(1.0), "expected {}, got {}", w, g);
        }
    }
}

#[test]
fn rolling_mean_of_five_values_over_three() {
    let mut op = RollingMean::new("p".to_string(), 3);
    let out = op.process::<Ieee>(batch_of(&[("p", &[1.0, 2.0, 3.0, 4.0, 5.0])])).unwrap();
    assert_eq!(last_name(&out), "p_rolling_mean_3");
    assert_close(&last_column(&out), &[f64::NAN, f64::NAN, 2.0, 3.0, 4.0]);
    assert_eq!(out.num_rows(), 5);
    assert_eq!(out.num_columns(), 2);
}

#[test]
fn ema_of_three_values_over_span_three() {
    let mut op = Ema::new("p".to_string(), 3);
    let out = op.process::<Ieee>(batch_of(&[("p", &[10.0, 20.0, 30.0])])).unwrap();
    assert_eq!(last_name(&out), "p_ema_3");
    assert_close(&last_column(&out), &[10.0, 15.0, 22.5]);
}

#[test]
fn zscore_of_five_values_over_four() {
    let mut op = ZScore::new("p".to_string(), 4);
    let out = op.process::<Ieee>(batch_of(&[("p", &[1.0, 1.0, 1.0, 1.0, 5.0])])).unwrap();
    assert_eq!(last_name(&out), "p_zscore_4");
    assert_close(&last_column(&out), &[f64::NAN, f64::NAN, f64::NAN, 0.0, 1.5]);
}

#[test]
fn vwap_of_three_rows_over_two() {
    let mut op = Vwap::new("price".to_string(), "vol".to_string(), 2);
    let out = op
        .process::<Ieee>(batch_of(&[("price", &[10.0, 20.0, 30.0]), ("vol", &[1.0, 1.0, 2.0])]))
        .unwrap();
    assert_eq!(last_name(&out), "vwap_2");
    assert_close(&last_column(&out), &[f64::NAN, 15.0, 80.0 / 3.0]);
}

#[test]
fn window_carries_over_batches() {
    let mut op = RollingMean::new("p".to_string(), 3);
    let first = op.process::<Ieee>(batch_of(&[("p", &[1.0, 2.0])])).unwrap();
    assert_close(&last_column(&first), &[f64::NAN, f64::NAN]);
    let second = op.process::<Ieee>(batch_of(&[("p", &[3.0, 4.0])])).unwrap();
    assert_close(&last_column(&second), &[2.0, 3.0]);
}

#[test]
fn second_pass_collides_with_the_appended_name() {
    let mut first = RollingMean::new("p".to_string(), 2);
    let out = first.process::<Ieee>(batch_of(&[("p", &[1.0, 2.0])])).unwrap();
    let mut second = RollingMean::new("p".to_string(), 2);
    assert_eq!(second.process::<Ieee>(out).unwrap_err(), StageError::DuplicateColumn);
}

#[test]
fn missing_column_is_refused() {
    let mut op = Ema::new("q".to_string(), 3);
    assert_eq!(
        op.process::<Ieee>(batch_of(&[("p", &[1.0])])).unwrap_err(),
        StageError::ColumnNotFound
    );
    assert_eq!(op.current(), None);
}

#[test]
fn nan_marker_is_a_nan() {
    assert!(is_nan(NAN));
    assert!(f64::from_bits(NAN).is_nan());
    assert_eq!(f64::NAN.to_bits(), NAN);
}

#[test]
fn every_operator_keeps_the_input_columns_and_rows() {
    let input = || batch_of(&[("price", &[1.0, 2.0, 3.0, 4.0]), ("vol", &[1.0, 1.0, 1.0, 1.0])]);
    let outs = vec![
        RollingMean::new("price".to_string(), 2).process::<Ieee>(input()).unwrap(),
        Ema::new("price".to_string(), 2).process::<Ieee>(input()).unwrap(),
        ZScore::new("price".to_string(), 2).process::<Ieee>(input()).unwrap(),
        Vwap::new("price".to_string(), "vol".to_string(), 2).process::<Ieee>(input()).unwrap(),
    ];
    let names = ["price_rolling_mean_2", "price_ema_2", "price_zscore_2", "vwap_2"];
    for (out, name) in outs.iter().zip(names.iter()) {
        assert_eq!(out.num_rows(), 4);
        assert_eq!(out.num_columns(), 3);
        assert_eq!(out.column(0), input().column(0));
        assert_eq!(out.column(1), input().column(1));
        assert_eq!(out.schema().field(0), input().schema().field(0));
        assert_eq!(out.schema().field(1), input().schema().field(1));
        let added = out.schema().field(2);
        assert_eq!(&added.name, name);
        assert_eq!(added.data_type, otters::schema::DataType::Float64);
        assert!(added.nullable);
        assert_eq!(last_column(out).len(), 4);
    }
}

#[test]
fn ema_carries_its_average_over_batches() {
    let mut op = Ema::new("p".to_string(), 3);
    let first = op.process::<Ieee>(batch_of(&[("p", &[10.0])])).unwrap();
    assert_close(&last_column(&first), &[10.0]);
    assert_eq!(op.current(), Some(10.0f64.to_bits()));
    let second = op.process::<Ieee>(batch_of(&[("p", &[20.0, 30.0])])).unwrap();
    assert_close(&last_column(&second), &[15.0, 22.5]);
    assert_eq!(op.current(), Some(22.5f64.to_bits()));
    let empty = op.process::<Ieee>(batch_of(&[("p", &[])])).unwrap();
    assert_eq!(empty.num_rows(), 0);
    assert_eq!(op.current(), Some(22.5f64.to_bits()));
}

#[test]
fn ema_gives_the_first_value_back_bit_for_bit() {
    for v in [0.1f64, -0.0, f64::INFINITY, f64::MIN_POSITIVE] {
        let mut op = Ema::new("p".to_string(), 7);
        let out = op.process::<Ieee>(batch_of(&[("p", &[v, 1.0])])).unwrap();
        assert_eq!(last_column(&out)[0].to_bits(), v.to_bits());
    }
}

#[test]
fn zscore_and_vwap_carry_their_windows_over_batches() {
    let mut z = ZScore::new("p".to_string(), 4);
    let a = z.process::<Ieee>(batch_of(&[("p", &[1.0, 1.0, 1.0])])).unwrap();
    assert_close(&last_column(&a), &[f64::NAN, f64::NAN, f64::NAN]);
    let b = z.process::<Ieee>(batch_of(&[("p", &[1.0, 5.0])])).unwrap();
    assert_close(&last_column(&b), &[0.0, 1.5]);

    let mut v = Vwap::new("price".to_string(), "vol".to_string(), 2);
    let a = v.process::<Ieee>(batch_of(&[("price", &[10.0]), ("vol", &[1.0])])).unwrap();
    assert_close(&last_column(&a), &[f64::NAN]);
    let b = v
        .process::<Ieee>(batch_of(&[("price", &[20.0, 30.0]), ("vol", &[1.0, 2.0])]))
        .unwrap();
    assert_close(&last_column(&b), &[15.0, 80.0 / 3.0]);
}

#[test]
fn vwap_of_zero_volume_is_nan() {
    let mut v = Vwap::new("price".to_string(), "vol".to_string(), 2);
    let out = v
        .process::<Ieee>(batch_of(&[("price", &[10.0, 20.0, 30.0]), ("vol", &[0.0, -0.0, 1.0])]))
        .unwrap();
    let got = last_column(&out);
    assert!(got[0].is_nan());
    assert!(got[1].is_nan());
    assert_eq!(got[2], 30.0);
}

#[test]
fn windows_of_one_and_of_none() {
    let mut one = RollingMean::new("p".to_string(), 1);
    let out = one.process::<Ieee>(batch_of(&[("p", &[3.0, 5.0])])).unwrap();
    assert_close(&last_column(&out), &[3.0, 5.0]);

    let mut none = RollingMean::new("p".to_string(), 0);
    let out = none.process::<Ieee>(batch_of(&[("p", &[3.0, 5.0])])).unwrap();
    assert_eq!(last_name(&out), "p_rolling_mean_0");
    assert!(last_column(&out).iter().all(|v| v.is_nan()));

    let mut z1 = ZScore::new("p".to_string(), 1);
    let out = z1.process::<Ieee>(batch_of(&[("p", &[3.0, 5.0])])).unwrap();
    assert!(last_column(&out).iter().all(|v| v.is_nan()));

    let mut z0 = ZScore::new("p".to_string(), 0);
    assert_eq!(
        z0.process::<Ieee>(batch_of(&[("p", &[3.0])])).unwrap_err(),
        StageError::EmptyWindow
    );

    let mut v0 = Vwap::new("p".to_string(), "p".to_string(), 0);
    let out = v0.process::<Ieee>(batch_of(&[("p", &[3.0, 5.0])])).unwrap();
    assert!(last_column(&out).iter().all(|v| v.is_nan()));
}

#[test]
fn values_that_are_not_finite_pass_through() {
    let input = [1.0, f64::NAN, f64::INFINITY, -1.0, 2.0, 3.0];
    let mut m = RollingMean::new("p".to_string(), 2);
    assert_eq!(last_column(&m.process::<Ieee>(batch_of(&[("p", &input)])).unwrap()).len(), 6);
    let mut e = Ema::new("p".to_string(), 2);
    assert_eq!(last_column(&e.process::<Ieee>(batch_of(&[("p", &input)])).unwrap()).len(), 6);
    let mut z = ZScore::new("p".to_string(), 2);
    let got = last_column(&z.process::<Ieee>(batch_of(&[("p", &input)])).unwrap());
    assert_eq!(got.len(), 6);
    assert!((got[5] - (3.0 - 2.5) / 0.5f64.sqrt()).abs() < 1e-12);
}

#[test]
fn a_refused_batch_leaves_the_operator_as_it_was() {
    let mut op = RollingMean::new("p".to_string(), 2);
    op.process::<Ieee>(batch_of(&[("p", &[1.0])])).unwrap();
    assert_eq!(
        op.process::<Ieee>(batch_of(&[("q", &[9.0])])).unwrap_err(),
        StageError::ColumnNotFound
    );
    let out = op.process::<Ieee>(batch_of(&[("p", &[3.0])])).unwrap();
    assert_close(&last_column(&out), &[2.0]);
    assert_eq!(op.window(), 2);
    assert_eq!(op.column(), "p");
}

#[test]
fn a_column_of_another_type_is_refused() {
    let schema = Schema::try_new(vec![
        Field { name: "p".to_string(), data_type: otters::schema::DataType::Other, nullable: false },
        Field::float("v".to_string()),
    ])
    .unwrap();
    let make = || {
        let flags = Column::Other { rows: 1, data: BooleanArray::from(vec![true]).to_data() };
        Batch::try_new(schema.clone(), vec![flags, Column::Float64(vec![0])], 1).unwrap()
    };
    assert_eq!(
        ZScore::new("p".to_string(), 2).process::<Ieee>(make()).unwrap_err(),
        StageError::ColumnNotFloat
    );
    assert_eq!(
        Vwap::new("p".to_string(), "v".to_string(), 2).process::<Ieee>(make()).unwrap_err(),
        StageError::ColumnNotFloat
    );
    assert_eq!(
        Vwap::new("p".to_string(), "w".to_string(), 2).process::<Ieee>(make()).unwrap_err(),
        StageError::ColumnNotFound
    );
    assert_eq!(
        Vwap::new("v".to_string(), "p".to_string(), 2).process::<Ieee>(make()).unwrap_err(),
        StageError::ColumnNotFloat
    );
    let out = Ema::new("v".to_string(), 2).process::<Ieee>(make()).unwrap();
    assert_eq!(out.column(0), make().column(0));
    assert_eq!(out.schema().field(0).name, "p");
}

#[test]
fn every_operator_refuses_its_own_output() {
    let input = || batch_of(&[("p", &[1.0, 2.0])]);
    let out = Ema::new("p".to_string(), 2).process::<Ieee>(input()).unwrap();
    assert_eq!(
        Ema::new("p".to_string(), 2).process::<Ieee>(out).unwrap_err(),
        StageError::DuplicateColumn
    );
    let out = ZScore::new("p".to_string(), 2).process::<Ieee>(input()).unwrap();
    assert_eq!(
        ZScore::new("p".to_string(), 2).process::<Ieee>(out).unwrap_err(),
        StageError::DuplicateColumn
    );
    let out = Vwap::new("p".to_string(), "p".to_string(), 2).process::<Ieee>(input()).unwrap();
    assert_eq!(
        Vwap::new("p".to_string(), "p".to_string(), 2).process::<Ieee>(out).unwrap_err(),
        StageError::DuplicateColumn
    );
}

#[test]
fn the_operator_enum_hands_on_to_its_variant() {
    let mut ops = vec![
        otters::builtins::Operator::RollingMean(RollingMean::new("p".to_string(), 3)),
        otters::builtins::Operator::Ema(Ema::new("p".to_string(), 3)),
        otters::builtins::Operator::ZScore(ZScore::new("p".to_string(), 4)),
    ];
    let mut batch = batch_of(&[("p", &[1.0, 1.0, 1.0, 1.0, 5.0])]);
    for op in ops.iter_mut() {
        batch = op.process::<Ieee>(batch).unwrap();
    }
    assert_eq!(batch.num_columns(), 4);
    assert_eq!(batch.schema().field(1).name, "p_rolling_mean_3");
    assert_eq!(batch.schema().field(2).name, "p_ema_3");
    assert_eq!(batch.schema().field(3).name, "p_zscore_4");
    assert_close(&last_column(&batch), &[f64::NAN, f64::NAN, f64::NAN, 0.0, 1.5]);
}

#[test]
fn getters_give_what_the_operator_was_built_with() {
    let z = ZScore::new("p".to_string(), 4);
    assert_eq!(z.column(), "p");
    assert_eq!(z.lookback(), 4);
    let v = Vwap::new("a".to_string(), "b".to_string(), 5);
    assert_eq!(v.price_col(), "a");
    assert_eq!(v.volume_col(), "b");
    assert_eq!(v.window(), 5);
    let e = Ema::new("c".to_string(), 6);
    assert_eq!(e.column(), "c");
    assert_eq!(e.span(), 6);
}

struct Doubled {
    column: String,
}

impl ComputeStage for Doubled {
    fn process<A: Arithmetic>(&mut self, batch: Batch) -> Result<Batch, StageError> {
        let doubled: Vec<u64> =
            batch.floats_of(&self.column)?.iter().map(|v| A::add(*v, *v)).collect();
        otters::builtins::append_column(batch, doubled, format!("{}_twice", self.column))
    }
}

#[test]
fn a_stage_of_ones_own_fits_the_chain() {
    let mut own = Doubled { column: "p".to_string() };
    let mut mean = RollingMean::new("p_twice".to_string(), 2);
    let out = own.process::<Ieee>(batch_of(&[("p", &[1.0, 2.0, 3.0])])).unwrap();
    let out = mean.process::<Ieee>(out).unwrap();
    assert_eq!(out.num_columns(), 3);
    assert_eq!(last_name(&out), "p_twice_rolling_mean_2");
    assert_close(&last_column(&out), &[f64::NAN, 3.0, 5.0]);
    assert_eq!(
        own.process::<Ieee>(batch_of(&[("q", &[1.0])])).unwrap_err(),
        StageError::ColumnNotFound
    );
}
