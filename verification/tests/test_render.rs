use js_sandbox::FloatRepr;
use js_sandbox::JsValue;
use js_sandbox::JsonNumber;
use js_sandbox::encode_args;

fn int_value(i: i64) -> JsValue {
    JsValue::Num(JsonNumber::Int(i))
}

#[test]
fn renders_scalars() {
    assert_eq!(JsValue::Null.to_json_text(), "null");
    assert_eq!(JsValue::Bool(true).to_json_text(), "true");
    assert_eq!(JsValue::Bool(false).to_json_text(), "false");
    assert_eq!(int_value(0).to_json_text(), "0");
    assert_eq!(int_value(42).to_json_text(), "42");
    assert_eq!(int_value(-42).to_json_text(), "-42");
    assert_eq!(int_value(i64::MAX).to_json_text(), "9223372036854775807");
    assert_eq!(int_value(i64::MIN).to_json_text(), "-9223372036854775808");
    assert_eq!(
        JsValue::Num(JsonNumber::UInt(u64::MAX)).to_json_text(),
        "18446744073709551615"
    );
}

#[test]
fn renders_float_text_as_reported() {
    let v = JsValue::Num(JsonNumber::Float(FloatRepr {
        text: "2.5".to_string(),
        integral: None,
    }));
    assert_eq!(v.to_json_text(), "2.5");
}

#[test]
fn renders_strings_with_escapes() {
    assert_eq!(JsValue::Str("hi.".to_string()).to_json_text(), "\"hi.\"");
    assert_eq!(
        JsValue::Str("a\"b\\c".to_string()).to_json_text(),
        "\"a\\\"b\\\\c\""
    );
    assert_eq!(
        JsValue::Str("\n\r\t\u{8}\u{c}".to_string()).to_json_text(),
        "\"\\n\\r\\t\\b\\f\""
    );
    assert_eq!(
        JsValue::Str("\u{1}\u{1f}".to_string()).to_json_text(),
        "\"\\u0001\\u001f\""
    );
}

#[test]
fn renders_containers() {
    assert_eq!(JsValue::Arr(vec![]).to_json_text(), "[]");
    assert_eq!(
        JsValue::Arr(vec![int_value(1), int_value(2), int_value(3)]).to_json_text(),
        "[1,2,3]"
    );
    assert_eq!(JsValue::Obj(vec![]).to_json_text(), "{}");
    let obj = JsValue::Obj(vec![
        ("name".to_string(), JsValue::Str("Roger".to_string())),
        ("age".to_string(), int_value(42)),
    ]);
    assert_eq!(obj.to_json_text(), "{\"name\":\"Roger\",\"age\":42}");
    let nested = JsValue::Arr(vec![JsValue::Obj(vec![(
        "xs".to_string(),
        JsValue::Arr(vec![int_value(1), JsValue::Null]),
    )])]);
    assert_eq!(nested.to_json_text(), "[{\"xs\":[1,null]}]");
}

#[test]
fn rendered_text_parses_back_with_serde_json() {
    let v = JsValue::Obj(vec![
        ("a".to_string(), int_value(-5)),
        ("b".to_string(), JsValue::Arr(vec![JsValue::Bool(false), JsValue::Null])),
        ("c".to_string(), JsValue::Str("line\nbreak \"q\"".to_string())),
    ]);
    let parsed: serde_json::Value = serde_json::from_str(&v.to_json_text()).unwrap();
    let mut map = serde_json::Map::new();
    map.insert("a".to_string(), serde_json::Value::from(-5i64));
    map.insert(
        "b".to_string(),
        serde_json::Value::Array(vec![
            serde_json::Value::Bool(false),
            serde_json::Value::Null,
        ]),
    );
    map.insert(
        "c".to_string(),
        serde_json::Value::String("line\nbreak \"q\"".to_string()),
    );
    assert_eq!(parsed, serde_json::Value::Object(map));
}

#[test]
fn encode_args_joins_with_commas() {
    assert_eq!(encode_args(&vec![]), "");
    assert_eq!(encode_args(&vec![int_value(7)]), "7");
    assert_eq!(
        encode_args(&vec![int_value(7), JsValue::Str("x".to_string()), JsValue::Null]),
        "7,\"x\",null"
    );
}
