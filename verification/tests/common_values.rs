use otters::bits::{is_finite, is_nan, is_zero, NAN, ONE, TWO, ZERO};
use otters::text::{is_parquet_path, push_decimal, tagged_name};

#[test]
fn constants_are_the_bits_of_their_doubles() {
    assert_eq!(f64::from_bits(ZERO), 0.0);
    assert_eq!(f64::from_bits(ONE), 1.0);
    assert_eq!(f64::from_bits(TWO), 2.0);
    assert_eq!(1.0f64.to_bits(), ONE);
    assert_eq!(2.0f64.to_bits(), TWO);
    assert!(f64::from_bits(NAN).is_nan());
}

#[test]
fn classes_agree_with_the_doubles() {
    let samples: [f64; 12] = [
        0.0,
        -0.0,
        1.0,
        -1.0,
        f64::MAX,
        f64::MIN,
        f64::MIN_POSITIVE,
        5e-324,
        f64::INFINITY,
        f64::NEG_INFINITY,
        f64::NAN,
        -f64::NAN,
    ];
    for v in samples.iter() {
        let b = v.to_bits();
        assert_eq!(is_nan(b), v.is_nan(), "is_nan of {}", v);
        assert_eq!(is_finite(b), v.is_finite(), "is_finite of {}", v);
        assert_eq!(is_zero(b), *v == 0.0, "is_zero of {}", v);
    }
}

#[test]
fn decimal_numerals() {
    for n in [0usize, 1, 9, 10, 11, 99, 100, 101, 2500, 65535, usize::MAX] {
        let mut s = String::from("w");
        push_decimal(&mut s, n);
        assert_eq!(s, format!("w{}", n));
    }
}

#[test]
fn tagged_names_follow_the_template() {
    assert_eq!(tagged_name("p", "_rolling_mean_", 3), "p_rolling_mean_3");
    assert_eq!(tagged_name("price", "_ema_", 20), "price_ema_20");
    assert_eq!(tagged_name("", "vwap_", 0), "vwap_0");
}

#[test]
fn parquet_paths_end_in_the_suffix() {
    assert!(is_parquet_path("data.parquet"));
    assert!(is_parquet_path(".parquet"));
    assert!(is_parquet_path("/tmp/überfile.parquet"));
    assert!(!is_parquet_path("parquet"));
    assert!(!is_parquet_path("data.parquet.gz"));
    assert!(!is_parquet_path("data.PARQUET"));
    assert!(!is_parquet_path(""));
    assert!(!is_parquet_path("data.csv"));
}
