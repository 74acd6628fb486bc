use arma_rs::{Double, FromArma, IntoArma, Value};

fn num(f: f64) -> Value {
    Value::Number(Double::new(f.to_bits(), f.to_string()))
}

#[test]
fn integers_become_numbers() {
    for n in [0i32, 1, -1, 7, 54, -54, 1000, 123_456_789, i32::MAX, i32::MIN] {
        let v = n.to_arma();
        let d = v.as_f64().unwrap();
        assert_eq!(d.bits, (n as f64).to_bits());
        assert_eq!(d.text, (n as f64).to_string());
    }
    for n in [i8::MIN, -3, 0, 9, i8::MAX] {
        assert_eq!(n.to_arma(), num(n as f64));
    }
    for n in [i16::MIN, -300, 0, 10, i16::MAX] {
        assert_eq!(n.to_arma(), num(n as f64));
    }
}

#[test]
fn integer_text_matches_double_display() {
    assert_eq!(54i32.to_arma().to_string(), "54");
    assert_eq!((-7i8).to_arma().to_string(), "-7");
    assert_eq!(Double::from_int(-2147483648).text, "-2147483648");
}

#[test]
fn sequence_of_integers_keeps_order() {
    let v = vec![3i32, 1, 2].to_arma();
    assert_eq!(v, Value::Array(vec![num(3.0), num(1.0), num(2.0)]));
    assert_eq!(v.to_string(), "[3,1,2]");
}

#[test]
fn sequence_of_sequences_nests() {
    let v = vec![vec![1i32, 2], vec![], vec![3]].to_arma();
    assert_eq!(
        v,
        Value::Array(vec![
            Value::Array(vec![num(1.0), num(2.0)]),
            Value::Array(vec![]),
            Value::Array(vec![num(3.0)]),
        ])
    );
    assert_eq!(v.to_string(), "[[1,2],[],[3]]");
}

#[test]
fn slice_converts_like_vec() {
    let items = [true, false];
    let s: &[bool] = &items;
    assert_eq!(s.to_arma(), vec![true, false].to_arma());
}

#[test]
fn values_wrap_directly() {
    let items = vec![Value::Nil, Value::Boolean(true)];
    assert_eq!(items.to_arma(), Value::Array(items.clone()));
}

#[test]
fn none_is_nil_and_some_is_inner() {
    assert_eq!(None::<i32>.to_arma(), Value::Nil);
    assert_eq!(Some(5i32).to_arma(), 5i32.to_arma());
    assert_eq!(Some(String::from("x")).to_arma(), String::from("x").to_arma());
    assert_eq!(vec![Some(true), None].to_arma().to_string(), "[true,null]");
}

#[test]
fn text_and_booleans_convert() {
    assert_eq!(String::from("hi").to_arma(), Value::String("hi".into()));
    assert_eq!("hi".to_arma(), Value::String("hi".into()));
    assert_eq!(true.to_arma(), Value::Boolean(true));
}

#[test]
fn generic_bridge() {
    assert_eq!(Value::from(vec!["a", "b"]).to_string(), "[\"a\",\"b\"]");
    assert_eq!(Value::from(false), Value::Boolean(false));
}

#[test]
fn parses_integers() {
    assert_eq!(i32::from_arma("42".into()), Ok(42));
    assert_eq!(i32::from_arma("-42".into()), Ok(-42));
    assert_eq!(i32::from_arma("+7".into()), Ok(7));
    assert_eq!(u8::from_arma("255".into()), Ok(255));
    assert_eq!(i64::from_arma("-9223372036854775808".into()), Ok(i64::MIN));
    assert_eq!(u64::from_arma("18446744073709551615".into()), Ok(u64::MAX));
    assert_eq!(i8::from_arma("-128".into()), Ok(-128));
    assert_eq!(i16::from_arma("007".into()), Ok(7));
    assert_eq!(u16::from_arma("65535".into()), Ok(65535));
    assert_eq!(u32::from_arma("0".into()), Ok(0));
}

#[test]
fn rejects_bad_integers() {
    let e = i32::from_arma("abc".into()).unwrap_err();
    assert!(!e.is_empty());
    assert!(i32::from_arma("".into()).is_err());
    assert!(i32::from_arma("-".into()).is_err());
    assert!(i32::from_arma(" 1".into()).is_err());
    assert!(i8::from_arma("128".into()).is_err());
    assert!(u8::from_arma("-1".into()).is_err());
    assert!(u8::from_arma("256".into()).is_err());
    assert!(u32::from_arma("1.5".into()).is_err());
}

#[test]
fn parses_booleans() {
    assert_eq!(bool::from_arma("true".into()), Ok(true));
    assert_eq!(bool::from_arma("false".into()), Ok(false));
    assert!(bool::from_arma("True".into()).is_err());
    assert!(bool::from_arma("1".into()).is_err());
}

#[test]
fn parses_strings_unchanged() {
    assert_eq!(String::from_arma("say \"hi\"".into()), Ok(String::from("say \"hi\"")));
    assert_eq!(String::from_arma(String::new()), Ok(String::new()));
}
