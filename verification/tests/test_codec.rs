use js_sandbox::CallError;
use js_sandbox::JsValue;
use js_sandbox::JsonNumber;
use js_sandbox::Shape;
use js_sandbox::decode_result;
use js_sandbox::matches_shape;

fn int_value(i: i64) -> JsValue {
    JsValue::Num(JsonNumber::Int(i))
}

#[test]
fn shapes_match_their_values() {
    assert!(matches_shape(&JsValue::Null, &Shape::Null));
    assert!(matches_shape(&JsValue::Bool(true), &Shape::Bool));
    assert!(matches_shape(&int_value(4), &Shape::Int));
    assert!(matches_shape(&JsValue::Num(JsonNumber::UInt(4)), &Shape::Int));
    assert!(!matches_shape(
        &JsValue::Num(JsonNumber::UInt(u64::MAX)),
        &Shape::Int
    ));
    assert!(matches_shape(&JsValue::Str("x".to_string()), &Shape::Str));
    assert!(matches_shape(&int_value(1), &Shape::Any));
    assert!(matches_shape(
        &JsValue::Arr(vec![int_value(1), int_value(2)]),
        &Shape::Arr(Box::new(Shape::Int))
    ));
    assert!(!matches_shape(
        &JsValue::Arr(vec![int_value(1), JsValue::Null]),
        &Shape::Arr(Box::new(Shape::Int))
    ));
}

#[test]
fn decode_returns_matching_value_untouched() {
    let v = decode_result(int_value(4), &Shape::Int).unwrap();
    assert_eq!(v.as_i64().unwrap(), 4);
}

#[test]
fn decode_error_names_the_expected_shape() {
    match decode_result(JsValue::Str("x".to_string()), &Shape::Int) {
        Err(CallError::DecodeError(m)) => assert_eq!(m, "int"),
        _ => panic!("expected a decode error"),
    }
    match decode_result(JsValue::Null, &Shape::Arr(Box::new(Shape::Str))) {
        Err(CallError::DecodeError(m)) => assert_eq!(m, "array of string"),
        _ => panic!("expected a decode error"),
    }
}

#[test]
fn typed_extractors_round_trip() {
    assert_eq!(JsValue::from_i64(-3).as_i64().unwrap(), -3);
    assert!(JsValue::from_bool(true).as_bool().unwrap());
    assert_eq!(JsValue::from_text("hello").as_text().unwrap(), "hello");
    assert!(JsValue::Null.as_unit().is_ok());
}

#[test]
fn typed_extractors_reject_other_shapes() {
    assert!(JsValue::Null.as_i64().is_err());
    assert!(int_value(1).as_bool().is_err());
    assert!(JsValue::Bool(false).as_text().is_err());
    assert!(int_value(0).as_unit().is_err());
}
