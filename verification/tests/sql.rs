use jsserve::sql::{bind, can_bind, rows_value};
use serde_json::{Number, Value};

#[test]
fn nothing_binds_to_no_arguments() {
    assert!(can_bind(&vec![]));
    assert_eq!(format!("{:?}", bind(vec![]).values.0), "[]");
}

#[test]
fn each_number_has_its_argument() {
    let pars = vec![
        Value::from(0),
        Value::from(i64::MIN),
        Value::from(9223372036854775808u64),
        Value::Number(Number::from_f64(2.0).unwrap()),
    ];
    assert!(can_bind(&pars));
    assert_eq!(
        format!("{:?}", bind(pars).values.0),
        "[BigInt(0), BigInt(-9223372036854775808), Double(9.223372036854776e18), Double(2.0)]"
    );
}

#[test]
fn null_cannot_be_bound() {
    assert!(!can_bind(&vec![Value::Null]));
    assert!(!can_bind(&vec![Value::from(1), Value::Array(vec![])]));
}

#[test]
fn rows_become_an_array() {
    assert_eq!(rows_value(vec![]), Value::Array(vec![]));
    assert_eq!(
        rows_value(vec![Value::from(1), Value::Null]),
        Value::Array(vec![Value::from(1), Value::Null])
    );
}

#[test]
fn numbers_that_round_alike_are_bound_alike() {
    let pars = vec![
        Value::from(9223372036854775808u64),
        Value::from(9223372036854775809u64),
        Value::Number(Number::from_f64(9223372036854775808.0).unwrap()),
        Value::Number(Number::from_f64(-0.5).unwrap()),
    ];
    assert!(can_bind(&pars));
    assert_eq!(
        format!("{:?}", bind(pars).values.0),
        "[Double(9.223372036854776e18), Double(9.223372036854776e18), \
         Double(9.223372036854776e18), Double(-0.5)]"
    );
}
