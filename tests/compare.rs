use std::cmp::Ordering;

use arma_rs::{Double, Value};

fn num(f: f64) -> Value {
    Value::Number(Double::new(f.to_bits(), f.to_string()))
}

fn text(s: &str) -> Value {
    Value::String(s.into())
}

#[test]
fn variants_order_by_declaration() {
    assert!(Value::Nil < num(-1.0));
    assert!(num(1e300) < Value::Array(vec![]));
    assert!(Value::Array(vec![text("z")]) < Value::Boolean(false));
    assert!(Value::Boolean(true) < text(""));
}

#[test]
fn numbers_order_as_doubles() {
    assert!(num(-2.0) < num(-1.0));
    assert!(num(-1.0) < num(0.0));
    assert!(num(0.5) < num(2.0));
    assert!(num(2.0) < num(f64::INFINITY));
    assert_eq!(num(0.0).partial_cmp(&num(-0.0)), Some(Ordering::Equal));
    assert_eq!(num(f64::NAN).partial_cmp(&num(1.0)), None);
    assert_ne!(num(f64::NAN), num(f64::NAN));
    assert_eq!(num(0.0), num(-0.0));
}

#[test]
fn booleans_and_texts_order() {
    assert!(Value::Boolean(false) < Value::Boolean(true));
    assert!(text("abc") < text("abd"));
    assert!(text("ab") < text("abc"));
    assert!(text("Z") < text("a"));
    assert!(text("\u{e9}") > text("z"));
    assert_eq!(text("same").partial_cmp(&text("same")), Some(Ordering::Equal));
}

#[test]
fn arrays_order_lexicographically() {
    let a = Value::Array(vec![num(1.0), num(2.0)]);
    let b = Value::Array(vec![num(1.0), num(3.0)]);
    let c = Value::Array(vec![num(1.0)]);
    assert!(a < b);
    assert!(c < a);
    assert_eq!(a.partial_cmp(&a.clone()), Some(Ordering::Equal));
    let n = Value::Array(vec![num(f64::NAN), num(1.0)]);
    assert_eq!(n.partial_cmp(&a), None);
    let early = Value::Array(vec![num(0.0), num(f64::NAN)]);
    assert_eq!(early.partial_cmp(&a), Some(Ordering::Less));
}

#[test]
fn values_equal_structurally() {
    let a = Value::Array(vec![text("x"), Value::Nil, Value::Boolean(true)]);
    assert_eq!(a, a.clone());
    assert_ne!(a, Value::Array(vec![text("x"), Value::Nil]));
    assert_ne!(text("x"), text("y"));
    assert_ne!(Value::Nil, Value::Boolean(false));
    assert_ne!(Value::Array(vec![num(f64::NAN)]), Value::Array(vec![num(f64::NAN)]));
}

#[test]
fn doubles_compare() {
    let d = |f: f64| Double::new(f.to_bits(), f.to_string());
    assert_eq!(d(1.0).compare(&d(2.0)), Some(Ordering::Less));
    assert_eq!(d(-0.0).compare(&d(0.0)), Some(Ordering::Equal));
    assert_eq!(d(f64::NEG_INFINITY).compare(&d(-1e300)), Some(Ordering::Less));
    assert_eq!(d(f64::NAN).compare(&d(0.0)), None);
}
