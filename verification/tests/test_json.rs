use js_sandbox::CallError;
use js_sandbox::FloatRepr;
use js_sandbox::JsValue;
use js_sandbox::JsonNumber;

fn int_value(i: i64) -> JsValue {
    JsValue::Num(JsonNumber::Int(i))
}

fn uint(u: u64) -> JsValue {
    JsValue::Num(JsonNumber::UInt(u))
}

fn float(text: &str, integral: Option<i64>) -> JsValue {
    JsValue::Num(JsonNumber::Float(FloatRepr { text: text.to_string(), integral }))
}

fn expect_int(v: &JsValue) -> i64 {
    match v {
        JsValue::Num(JsonNumber::Int(i)) => *i,
        _ => panic!("expected an integer"),
    }
}

#[test]
fn sanitize_keeps_int() {
    let out = int_value(-7).sanitize_number().unwrap();
    assert_eq!(expect_int(&out), -7);
}

#[test]
fn sanitize_downcasts_uint_in_range() {
    let out = uint(7).sanitize_number().unwrap();
    assert_eq!(expect_int(&out), 7);
    let out = uint(i64::MAX as u64).sanitize_number().unwrap();
    assert_eq!(expect_int(&out), i64::MAX);
}

#[test]
fn sanitize_rejects_uint_out_of_range() {
    let err = uint(i64::MAX as u64 + 1).sanitize_number().unwrap_err();
    match err {
        CallError::DecodeError(m) => assert_eq!(m, "Failed to convert number to i64"),
        _ => panic!("expected a decode error"),
    }
}

#[test]
fn sanitize_turns_integral_float_into_int() {
    let out = float("4.0", Some(4)).sanitize_number().unwrap();
    assert_eq!(expect_int(&out), 4);
}

#[test]
fn sanitize_keeps_fractional_float() {
    let out = float("2.5", None).sanitize_number().unwrap();
    match out {
        JsValue::Num(JsonNumber::Float(f)) => {
            assert_eq!(f.text, "2.5");
            assert_eq!(f.integral, None);
        }
        _ => panic!("expected a floating value"),
    }
}

#[test]
fn sanitize_walks_nested_containers() {
    let v = JsValue::Arr(vec![
        uint(1),
        JsValue::Obj(vec![
            ("a".to_string(), float("3.0", Some(3))),
            ("b".to_string(), JsValue::Arr(vec![uint(2)])),
        ]),
    ]);
    let out = v.sanitize_number().unwrap();
    match out {
        JsValue::Arr(items) => {
            assert_eq!(expect_int(&items[0]), 1);
            match &items[1] {
                JsValue::Obj(fields) => {
                    assert_eq!(fields[0].0, "a");
                    assert_eq!(expect_int(&fields[0].1), 3);
                    match &fields[1].1 {
                        JsValue::Arr(inner) => assert_eq!(expect_int(&inner[0]), 2),
                        _ => panic!("expected a nested array"),
                    }
                }
                _ => panic!("expected an object"),
            }
        }
        _ => panic!("expected an array"),
    }
}

#[test]
fn sanitize_rejects_nested_out_of_range() {
    let v = JsValue::Obj(vec![("big".to_string(), uint(u64::MAX))]);
    assert!(v.sanitize_number().is_err());
}

#[test]
fn sanitize_is_idempotent_on_samples() {
    let samples = vec![
        int_value(5),
        uint(12),
        float("4.0", Some(4)),
        float("2.5", None),
        JsValue::Null,
        JsValue::Bool(true),
        JsValue::Str("x".to_string()),
        JsValue::Arr(vec![uint(3), float("8.0", Some(8))]),
        JsValue::Obj(vec![("k".to_string(), uint(9))]),
    ];
    for v in samples {
        let once = v.sanitize_number().unwrap();
        let twice = once.sanitize_number().unwrap();
        assert_eq!(once.to_json_text(), twice.to_json_text());
    }
}

fn has_uint(v: &JsValue) -> bool {
    match v {
        JsValue::Num(JsonNumber::UInt(_)) => true,
        JsValue::Arr(items) => items.iter().any(has_uint),
        JsValue::Obj(fields) => fields.iter().any(|(_, v)| has_uint(v)),
        _ => false,
    }
}

#[test]
fn sanitize_leaves_no_unsigned_representation() {
    let v = JsValue::Arr(vec![
        uint(1),
        JsValue::Obj(vec![("k".to_string(), uint(i64::MAX as u64))]),
        float("2.0", Some(2)),
    ]);
    let out = v.sanitize_number().unwrap();
    assert!(!has_uint(&out));
}

#[test]
fn integral_float_decodes_as_int() {
    let out = float("4.0", Some(4)).sanitize_number().unwrap();
    assert_eq!(out.as_i64().unwrap(), 4);
}
