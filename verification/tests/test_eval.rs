use js_sandbox::eval_expression_source;
use js_sandbox::eval_fn_name;
use js_sandbox::eval_statement_source;

#[test]
fn expression_wrapper_returns_the_expression() {
    assert_eq!(
        eval_expression_source("({a: 43, b: 12}).b - 2"),
        "function __rust_expr() { return (({a: 43, b: 12}).b - 2); }"
    );
}

#[test]
fn statement_wrapper_runs_for_effect() {
    assert_eq!(
        eval_statement_source("console.log(\"Hello World\")"),
        "function __rust_expr() { console.log(\"Hello World\"); }"
    );
}

#[test]
fn wrappers_are_called_by_the_fixed_name() {
    assert_eq!(eval_fn_name(), "__rust_expr");
}
