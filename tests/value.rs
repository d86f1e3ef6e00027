use structmap::value::{Num, Value};

#[test]
fn new_picks_variant_of_type() {
    assert_eq!(Value::new(true), Value::Bool(true));
    assert_eq!(Value::new(-3i64), Value::Num(Num::I64(-3)));
    assert_eq!(Value::new(3u64), Value::Num(Num::U64(3)));
    assert_eq!(Value::new("text"), Value::String("text".to_string()));
    assert_eq!(Value::new("text".to_string()), Value::String("text".to_string()));
    assert_eq!(
        Value::new(vec![Value::Null, Value::new(1i64)]),
        Value::Array(vec![Value::Null, Value::Num(Num::I64(1))])
    );
}

#[test]
fn accessors_read_their_own_variant() {
    assert_eq!(Value::Bool(true).bool(), Some(true));
    assert_eq!(Value::Num(Num::I64(-1)).i64(), Some(-1));
    assert_eq!(Value::Num(Num::U64(u64::MAX)).u64(), Some(u64::MAX));
    assert_eq!(Value::Num(Num::F64(1.5f64.to_bits())).f64_bits(), Some(1.5f64.to_bits()));
    assert_eq!(Value::String("s".to_string()).String(), Some("s".to_string()));
}

#[test]
fn accessors_miss_other_variants() {
    assert_eq!(Value::Null.bool(), None);
    assert_eq!(Value::Num(Num::U64(1)).i64(), None);
    assert_eq!(Value::Num(Num::I64(1)).u64(), None);
    assert_eq!(Value::Num(Num::I64(1)).f64_bits(), None);
    assert_eq!(Value::Bool(true).String(), None);
    assert_eq!(Value::Array(vec![]).i64(), None);
}
