use arma_rs::{Double, Value};

fn num(f: f64) -> Double {
    Double::new(f.to_bits(), f.to_string())
}

#[test]
fn is_nil() {
    assert!(Value::Nil.is_nil());
    assert!(!Value::Boolean(false).is_nil());
}

#[test]
fn is_number() {
    assert!(Value::Number(num(54.0)).is_number());
    assert!(!Value::Boolean(false).is_number());
}

#[test]
fn is_array() {
    assert!(Value::Array(Vec::new()).is_array());
    assert!(!Value::Boolean(false).is_array());
}

#[test]
fn is_boolean() {
    assert!(Value::Boolean(false).is_boolean());
    assert!(!Value::Number(num(54.0)).is_boolean());
}

#[test]
fn is_string() {
    assert!(Value::String(String::new()).is_string());
    assert!(!Value::Boolean(false).is_string());
}

#[test]
fn as_nil() {
    match Value::Nil.as_null() {
        Some(_) => (),
        None => panic!("Failed to retrieve value"),
    }
}

#[test]
fn as_f32() {
    match Value::Number(num(54.0)).as_f64() {
        Some(f) => assert!((54.0 - f64::from_bits(f.bits)) == 0.0),
        None => panic!("Failed to retrieve value"),
    }
}

#[test]
fn as_vec() {
    match Value::Array(vec![Value::String("hello".into())]).as_vec() {
        Some(v) => {
            let first_value = v.get(0).unwrap();

            assert!(first_value.is_string());
            assert_eq!(first_value.to_string(), String::from("\"hello\""));
        }
        None => panic!("Failed to retrieve value"),
    }
}

#[test]
fn as_bool() {
    match Value::Boolean(true).as_bool() {
        Some(b) => assert!(b),
        None => panic!("Failed to retrieve value"),
    }
}

#[test]
fn as_str() {
    match Value::String(String::from("hello world")).as_str() {
        Some(s) => assert_eq!(s, "hello world"),
        None => panic!("Failed to retrieve value"),
    }
}

#[test]
fn is_empty() {
    assert!(Value::String("".into()).is_empty());
    assert!(Value::Array(vec![]).is_empty());
    assert!(Value::Boolean(false).is_empty());
    assert!(Value::String(String::new()).is_empty());
    assert!(Value::Number(num(0.0)).is_empty());

    assert!(!Value::String("test".into()).is_empty());
    assert!(!Value::Array(vec![Value::Boolean(false)]).is_empty());
    assert!(!Value::Boolean(true).is_empty());
    assert!(!Value::Number(num(55.0)).is_empty());
}

#[test]
fn negative_zero_is_empty() {
    assert!(Value::Number(num(-0.0)).is_empty());
    assert!(!Value::Number(num(f64::MIN_POSITIVE)).is_empty());
    assert!(!Value::Number(num(f64::NAN)).is_empty());
}

#[test]
fn exactly_one_kind_per_value() {
    let values = vec![
        Value::Nil,
        Value::Number(num(1.5)),
        Value::Array(vec![Value::Nil]),
        Value::Boolean(true),
        Value::String("x".into()),
    ];
    for v in &values {
        let tests = [v.is_nil(), v.is_number(), v.is_array(), v.is_boolean(), v.is_string()];
        assert_eq!(tests.iter().filter(|b| **b).count(), 1);
        let found = [
            v.as_null().is_some(),
            v.as_f64().is_some(),
            v.as_vec().is_some(),
            v.as_bool().is_some(),
            v.as_str().is_some(),
        ];
        assert_eq!(tests, found);
    }
}

#[test]
fn formats_nil() {
    assert_eq!(Value::Nil.to_string(), "null");
}

#[test]
fn formats_booleans() {
    assert_eq!(Value::Boolean(true).to_string(), "true");
    assert_eq!(Value::Boolean(false).to_string(), "false");
}

#[test]
fn formats_number_text() {
    assert_eq!(Value::Number(num(54.0)).to_string(), "54");
    assert_eq!(Value::Number(num(-2.5)).to_string(), "-2.5");
}

#[test]
fn formats_string_with_doubled_quotes() {
    assert_eq!(Value::String("say \"hi\"".into()).to_string(), "\"say \"\"hi\"\"\"");
    assert_eq!(Value::String(String::new()).to_string(), "\"\"");
    assert_eq!(Value::String("\"".into()).to_string(), "\"\"\"\"");
    assert_eq!(Value::String("a\\b\nc".into()).to_string(), "\"a\\b\nc\"");
}

#[test]
fn formats_arrays() {
    let v = Value::Array(vec![Value::Boolean(false), Value::Number(num(1.0))]);
    assert_eq!(v.to_string(), "[false,1]");
    assert_eq!(Value::Array(vec![]).to_string(), "[]");
    let nested = Value::Array(vec![Value::Array(vec![]), Value::Array(vec![Value::Nil])]);
    assert_eq!(nested.to_string(), "[[],[null]]");
}

#[test]
fn formats_mixed_array() {
    let v = Value::Array(vec![Value::String("a".into()), Value::Number(num(1.0)), Value::Nil]);
    assert_eq!(v.to_string(), "[\"a\",1,null]");
}

#[test]
fn clone_keeps_the_value() {
    let v = Value::Array(vec![Value::String("q\"".into()), Value::Number(num(3.0)), Value::Nil]);
    let c = v.clone();
    assert_eq!(c, v);
    assert_eq!(c.to_string(), v.to_string());
}

#[test]
fn numbers_compare_as_doubles() {
    assert_eq!(num(0.0), num(-0.0));
    assert_ne!(num(f64::NAN), num(f64::NAN));
    assert_ne!(num(1.0), num(2.0));
    assert_eq!(num(2.0), num(2.0));
    assert!(num(f64::NAN).is_nan());
    assert!(!num(f64::INFINITY).is_nan());
    assert!(num(-0.0).is_zero());
}
