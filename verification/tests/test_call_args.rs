use js_sandbox::CallArgs;
use js_sandbox::JsValue;
use js_sandbox::JsonNumber;

fn int_value(i: i64) -> JsValue {
    JsValue::Num(JsonNumber::Int(i))
}

#[test]
fn no_arguments_encode_empty() {
    assert_eq!(().into_arg_string().unwrap(), "");
}

#[test]
fn single_argument_encodes_alone() {
    assert_eq!((int_value(7),).into_arg_string().unwrap(), "7");
}

#[test]
fn two_arguments_join_with_comma() {
    assert_eq!((int_value(15), int_value(3)).into_arg_string().unwrap(), "15,3");
}

#[test]
fn mixed_arguments_keep_their_shapes() {
    let s = (
        JsValue::Str("hi.".to_string()),
        JsValue::Bool(true),
        JsValue::Null,
    )
        .into_arg_string()
        .unwrap();
    assert_eq!(s, "\"hi.\",true,null");
}

#[test]
fn four_and_five_arguments_keep_order() {
    let s = (int_value(1), int_value(2), int_value(3), int_value(4)).into_arg_string().unwrap();
    assert_eq!(s, "1,2,3,4");
    let s = (int_value(1), int_value(2), int_value(3), int_value(4), int_value(5)).into_arg_string().unwrap();
    assert_eq!(s, "1,2,3,4,5");
}
