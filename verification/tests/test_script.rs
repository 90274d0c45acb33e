use js_sandbox::CallError;
use js_sandbox::JsValue;
use js_sandbox::JsonNumber;
use js_sandbox::Script;
use js_sandbox::unwrap_namespace_result;

fn int_value(i: i64) -> JsValue {
    JsValue::Num(JsonNumber::Int(i))
}

#[test]
fn new_session_is_fresh() {
    let s = Script::new();
    assert_eq!(s.last_rid, 0);
    assert_eq!(s.timeout(), None);
    assert!(!s.knows_namespace("ns"));
}

#[test]
fn with_timeout_records_duration() {
    let s = Script::new().with_timeout(200);
    assert_eq!(s.timeout(), Some(200));
}

#[test]
fn prelude_source_prepends_console_shim() {
    let src = Script::prelude_source("function triple(a) { return 3 * a; }");
    assert_eq!(
        src,
        "const console = { log: function(expr) { Deno.core.print(expr + '\\n', false); } };function triple(a) { return 3 * a; }"
    );
}

#[test]
fn namespace_registration_is_idempotent() {
    let mut s = Script::new();
    assert!(s.register_namespace("ns"));
    assert!(s.knows_namespace("ns"));
    assert!(!s.register_namespace("ns"));
    assert!(s.register_namespace("other"));
    assert!(s.knows_namespace("other"));
}

#[test]
fn namespace_source_wraps_and_tags_errors() {
    let src = Script::namespace_source("ns", "f", "function f(x){return x+1;}");
    assert_eq!(
        src,
        "var ns = (function() {\nfunction f(x){return x+1;}\nreturn { f: function (input) { try { return f(input) } catch (e) { return { error: `${e}` } } } }\n})();\nns.f"
    );
}

#[test]
fn invocation_source_builds_async_wrapper() {
    let src = Script::invocation_source(None, "triple", "7");
    assert_eq!(
        src,
        "(async () => { let __rust_result = triple.constructor.name === 'AsyncFunction' ? await triple(7) : triple(7); if (typeof __rust_result === 'undefined') __rust_result = null; Deno.core.ops.op_return(__rust_result); })()"
    );
}

#[test]
fn invocation_source_qualifies_namespace() {
    let src = Script::invocation_source(Some("ns"), "f", "5");
    assert!(src.contains("ns.f(5)"));
    assert!(src.starts_with("(async () => { let __rust_result = ns.f.constructor.name"));
}

#[test]
fn call_delivers_exactly_one_result() {
    let mut s = Script::new();
    let id = s.deliver_result(int_value(12));
    assert_eq!(id, 0);
    let got = s.collect_result(false).unwrap();
    assert_eq!(got.as_i64().unwrap(), 12);
    assert_eq!(s.last_rid, 1);
}

#[test]
fn sequential_calls_use_fresh_slots() {
    let mut s = Script::new();
    let first_id = s.deliver_result(int_value(1));
    let first = s.collect_result(false).unwrap();
    let second_id = s.deliver_result(int_value(2));
    let second = s.collect_result(false).unwrap();
    assert_ne!(first_id, second_id);
    assert_eq!(first.as_i64().unwrap(), 1);
    assert_eq!(second.as_i64().unwrap(), 2);
    assert_eq!(s.last_rid, 2);
}

#[test]
fn empty_slot_without_termination_is_no_result() {
    let mut s = Script::new();
    match s.collect_result(false) {
        Err(CallError::NoResult) => {}
        _ => panic!("expected the no-result error"),
    }
    assert_eq!(s.last_rid, 0);
}

#[test]
fn empty_slot_after_termination_is_timeout() {
    let mut s = Script::new().with_timeout(200);
    match s.collect_result(true) {
        Err(CallError::Timeout) => {}
        _ => panic!("expected the timeout error"),
    }
}

#[test]
fn execute_failure_classification_is_distinct() {
    let timeout = Script::classify_execute_failure("whatever".to_string(), true);
    assert!(matches!(timeout, CallError::Timeout));
    let runtime =
        Script::classify_execute_failure("ReferenceError: tripel is not defined".to_string(), false);
    match &runtime {
        CallError::EngineRuntime(m) => {
            assert_eq!(m, "ReferenceError: tripel is not defined");
        }
        _ => panic!("expected an engine runtime error"),
    }
    assert!(!matches!(runtime, CallError::Timeout));
    assert!(!matches!(runtime, CallError::DecodeError(_)));
}

#[test]
fn namespace_result_unwraps_error_tag() {
    let tagged = JsValue::Obj(vec![(
        "error".to_string(),
        JsValue::Str("string_error".to_string()),
    )]);
    match unwrap_namespace_result(tagged) {
        Err(CallError::Application(m)) => assert_eq!(m, "string_error"),
        _ => panic!("expected an application error"),
    }
}

#[test]
fn namespace_result_passes_plain_values_through() {
    let out = unwrap_namespace_result(int_value(6)).unwrap();
    assert_eq!(out.as_i64().unwrap(), 6);
    let obj = JsValue::Obj(vec![("value".to_string(), int_value(6))]);
    assert!(unwrap_namespace_result(obj).is_ok());
}

#[test]
fn namespace_result_ignores_non_string_error_key() {
    let obj = JsValue::Obj(vec![("error".to_string(), int_value(1))]);
    assert!(unwrap_namespace_result(obj).is_ok());
}
