use evaluator_rs::{Number, Value};
use std::cmp::Ordering;

fn num(x: f64) -> Value {
    Value::Number(Number::from_bits(x.to_bits()))
}

fn n(x: f64) -> Number {
    Number::from_bits(x.to_bits())
}

#[test]
fn test_from_value() {
    assert_eq!(num(1.0), Value::from(1_i32));
    assert_eq!(num(1.0), Value::from(1_i64));
    assert_eq!(num(1.5), Value::from(n(1.5_f32 as f64)));
    assert_eq!(num(1.5), Value::from(n(1.5_f64)));
    assert_eq!(Value::Bool(true), Value::from(true));

    assert_eq!(
        Value::String("hello world".to_owned()),
        Value::from("hello world"),
    );
}

#[test]
fn value_from_string_and_large_integers() {
    assert_eq!(Value::from("x".to_string()), Value::String("x".to_string()));
    assert_eq!(Value::from(-7_i32), num(-7.0));
    assert_eq!(Value::from(i64::MAX), num(i64::MAX as f64));
    assert_eq!(Value::from_str_slice("abc"), Value::String("abc".to_string()));
    let v = Value::Array(vec![Value::from("q"), num(2.0)]);
    let w = v.clone();
    assert_eq!(w, Value::Array(vec![Value::String("q".to_string()), num(2.0)]));
}

#[test]
fn number_arithmetic_matches_f64() {
    assert_eq!(n(0.1).add(&n(0.2)).to_bits(), (0.1_f64 + 0.2_f64).to_bits());
    assert_eq!(n(3.5).sub(&n(1.25)).to_bits(), 2.25_f64.to_bits());
    assert_eq!(n(1.1).mul(&n(3.0)).to_bits(), (1.1_f64 * 3.0_f64).to_bits());
    assert_eq!(n(1.0).div(&n(3.0)).to_bits(), (1.0_f64 / 3.0_f64).to_bits());
    assert_eq!(n(10.0).rem(&n(3.0)).to_bits(), 1.0_f64.to_bits());
    assert_eq!(n(-7.5).rem(&n(2.0)).to_bits(), (-7.5_f64 % 2.0_f64).to_bits());
    assert!(n(1.0).div(&n(0.0)).to_bits() == f64::INFINITY.to_bits());
}

#[test]
fn number_comparison_is_ieee() {
    assert_eq!(n(1.0).compare(&n(2.0)), Some(Ordering::Less));
    assert_eq!(n(2.0).compare(&n(1.0)), Some(Ordering::Greater));
    assert_eq!(n(0.0).compare(&n(-0.0)), Some(Ordering::Equal));
    assert_eq!(n(f64::NAN).compare(&n(1.0)), None);
    assert!(n(0.0) == n(-0.0));
    assert!(n(f64::NAN) != n(f64::NAN));
    assert_eq!(n(-1.0).compare(&n(-0.5)), Some(Ordering::Less));
    assert_eq!(n(-0.5).compare(&n(0.25)), Some(Ordering::Less));
    assert_eq!(n(f64::INFINITY).compare(&n(f64::MAX)), Some(Ordering::Greater));
    assert_eq!(n(f64::NEG_INFINITY).compare(&n(-f64::MAX)), Some(Ordering::Less));
    assert_eq!(n(-0.0).compare(&n(5e-324)), Some(Ordering::Less));
    assert_eq!(n(1.0).compare(&n(-f64::NAN)), None);
}

#[test]
fn number_conversions() {
    assert_eq!(Number::from_decimal("1.1").map(|x| x.to_bits()), Some(1.1_f64.to_bits()));
    assert_eq!(Number::from_decimal("12").map(|x| x.to_bits()), Some(12.0_f64.to_bits()));
    assert_eq!(Number::from_decimal("-1e3").map(|x| x.to_bits()), Some((-1000.0_f64).to_bits()));
    assert!(Number::from_decimal("abc").is_none());
    assert_eq!(Number::from_i64(42).to_bits(), 42.0_f64.to_bits());
    assert_eq!(Number::from_i32(-3).to_bits(), (-3.0_f64).to_bits());
}

#[test]
fn value_equality_is_structural() {
    let a = Value::Array(vec![num(1.0), Value::from("a"), Value::Array(vec![Value::from(true)])]);
    let b = a.clone();
    assert_eq!(a, b);
    assert!(a.equals(&b));
    assert_ne!(num(1.0), Value::from(true));
    assert_ne!(Value::Array(vec![num(1.0)]), Value::Array(vec![num(1.0), num(2.0)]));
    assert_ne!(num(f64::NAN), num(f64::NAN));
}
