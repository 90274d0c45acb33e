use js_sandbox::ApiOutcome;
use js_sandbox::CallError;
use js_sandbox::JsValue;
use js_sandbox::JsonNumber;
use js_sandbox::MethodDecl;
use js_sandbox::ParamDecl;
use js_sandbox::ReceiverDecl;
use js_sandbox::ReturnShape;
use js_sandbox::descriptor_for;
use js_sandbox::generate_api;
use js_sandbox::handle_return;
use js_sandbox::parse_return_type;
use js_sandbox::validate_method;

fn param(name: &str) -> ParamDecl {
    ParamDecl {
        is_ident: true,
        name: name.to_string(),
        by_ref: false,
        mutable: false,
        has_subpattern: false,
    }
}

fn method(name: &str, params: Vec<ParamDecl>, ret: &str) -> MethodDecl {
    MethodDecl {
        name: name.to_string(),
        is_const: false,
        is_async: false,
        has_default_body: false,
        receiver: ReceiverDecl::Exclusive,
        params,
        ret: ret.to_string(),
    }
}

const RET_ERROR: &str = "unsupported return type; expected T or JsResult<T>, where T: Deserializable";

#[test]
fn return_type_classification() {
    assert!(matches!(parse_return_type(""), Ok(ReturnShape::Unit)));
    match parse_return_type("i32") {
        Ok(ReturnShape::Direct(t)) => assert_eq!(t, "i32"),
        _ => panic!("expected a direct shape"),
    }
    match parse_return_type("JsResult<Vec<u8>>") {
        Ok(ReturnShape::ResultWrap(t)) => assert_eq!(t, "Vec<u8>"),
        _ => panic!("expected a result-wrapped shape"),
    }
    match parse_return_type("JsResult") {
        Err(e) => assert_eq!(e.message, RET_ERROR),
        _ => panic!("a bare JsResult must be rejected"),
    }
    match parse_return_type("(i32, i32)") {
        Err(e) => assert_eq!(e.message, RET_ERROR),
        _ => panic!("a non-path type must be rejected"),
    }
    match parse_return_type("JsResult<") {
        Err(e) => assert_eq!(e.message, RET_ERROR),
        _ => panic!("a malformed JsResult must be rejected"),
    }
    match parse_return_type("JsResultish") {
        Ok(ReturnShape::Direct(t)) => assert_eq!(t, "JsResultish"),
        _ => panic!("a longer path name decodes directly"),
    }
}

#[test]
fn validation_rejects_each_offence_in_order() {
    let mut m = method("f", vec![param("a")], "i32");
    m.is_const = true;
    m.is_async = true;
    assert_eq!(
        validate_method(&m).unwrap_err().message,
        "const functions are not supported"
    );

    let mut m = method("f", vec![], "");
    m.is_async = true;
    assert_eq!(
        validate_method(&m).unwrap_err().message,
        "async functions are not supported"
    );

    let mut m = method("f", vec![], "");
    m.has_default_body = true;
    assert_eq!(
        validate_method(&m).unwrap_err().message,
        "cannot specify an implementation of methods"
    );

    let mut m = method("f", vec![], "");
    m.receiver = ReceiverDecl::Missing;
    assert_eq!(
        validate_method(&m).unwrap_err().message,
        "receiver must be `&mut self`; associated methods are not supported"
    );

    let mut m = method("f", vec![], "");
    m.receiver = ReceiverDecl::Shared;
    assert_eq!(
        validate_method(&m).unwrap_err().message,
        "receiver must be `&mut self`; values and shared references are not supported"
    );

    let mut p = param("a");
    p.is_ident = false;
    assert_eq!(
        validate_method(&method("f", vec![p], "")).unwrap_err().message,
        "parameter must be a bare identifier"
    );

    let mut p = param("a");
    p.by_ref = true;
    assert_eq!(
        validate_method(&method("f", vec![p], "")).unwrap_err().message,
        "parameter must be a value; by-reference unsupported"
    );

    let mut p = param("a");
    p.mutable = true;
    assert_eq!(
        validate_method(&method("f", vec![p], "")).unwrap_err().message,
        "parameter must not be mutable"
    );

    let mut p = param("a");
    p.has_subpattern = true;
    assert_eq!(
        validate_method(&method("f", vec![p], "")).unwrap_err().message,
        "parameter cannot have destructured bindings"
    );

    assert_eq!(
        validate_method(&method("f", vec![param("a")], "JsResult")).unwrap_err().message,
        RET_ERROR
    );
}

#[test]
fn validation_accepts_a_proper_method() {
    let api = validate_method(&method("triple", vec![param("a")], "i32")).unwrap();
    assert_eq!(api.name, "triple");
    assert_eq!(api.param_names.len(), 1);
    assert_eq!(api.param_names[0], "a");
    assert!(matches!(api.shape, ReturnShape::Direct(_)));
}

#[test]
fn interface_validation_stops_at_first_offence() {
    let decls = vec![
        method("ok_one", vec![], ""),
        method("bad", vec![], "JsResult"),
        method("ok_two", vec![], "i32"),
    ];
    assert_eq!(generate_api(&decls).unwrap_err().message, RET_ERROR);

    let decls = vec![
        method("triple", vec![param("a")], "i32"),
        method("print", vec![param("expr")], ""),
    ];
    let api = generate_api(&decls).unwrap();
    assert_eq!(api.len(), 2);
    assert_eq!(api[0].name, "triple");
    assert_eq!(api[1].name, "print");
}

#[test]
fn descriptor_packs_arguments_in_order() {
    let api = validate_method(&method("div", vec![param("a"), param("b")], "i32")).unwrap();
    let args = vec![
        JsValue::Num(JsonNumber::Int(15)),
        JsValue::Num(JsonNumber::Int(3)),
    ];
    let d = descriptor_for(&api, &args);
    assert!(d.namespace.is_none());
    assert_eq!(d.fn_name, "div");
    assert_eq!(d.json_args, "15,3");
    let src = d.source();
    assert!(src.contains("div(15,3)"));
}

#[test]
fn return_shapes_handle_outcomes() {
    let unit = ReturnShape::Unit;
    assert!(matches!(
        handle_return(&unit, Ok(JsValue::Null)),
        ApiOutcome::Done
    ));
    match handle_return(&unit, Err(CallError::NoResult)) {
        ApiOutcome::Misuse(m) => assert_eq!(m, "JS function call failed"),
        _ => panic!("a failed unit call is a misuse"),
    }

    let direct = ReturnShape::Direct("i32".to_string());
    match handle_return(&direct, Ok(JsValue::Num(JsonNumber::Int(21)))) {
        ApiOutcome::Value(v) => assert_eq!(v.as_i64().unwrap(), 21),
        _ => panic!("a direct call hands its value on"),
    }
    match handle_return(&direct, Err(CallError::DecodeError("int".to_string()))) {
        ApiOutcome::Misuse(m) => assert_eq!(m, "cannot convert to type `i32`"),
        _ => panic!("a failed direct call is a misuse"),
    }

    let wrapped = ReturnShape::ResultWrap("i32".to_string());
    match handle_return(&wrapped, Err(CallError::Timeout)) {
        ApiOutcome::Fail(CallError::Timeout) => {}
        _ => panic!("a wrapped call surfaces its failure"),
    }
}
