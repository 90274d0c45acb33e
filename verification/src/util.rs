//! Evaluating standalone expressions.
//!
//! A standalone expression is wrapped in an anonymous zero-argument
//! function, loaded as a script, and called once; the sources built here
//! are pinned down exactly.

use vstd::prelude::*;
use vstd::string::StringExecFns;

verus! {

/// The name of the function an evaluated expression is wrapped in.
pub open spec fn eval_fn_name_text() -> Seq<char> {
    "__rust_expr"@
}

/// The wrapper an expression evaluates inside: a zero-argument function
/// returning the parenthesised expression.
pub open spec fn eval_expression_text(expr: Seq<char>) -> Seq<char> {
    "function __rust_expr() { return ("@ + expr + "); }"@
}

/// The wrapper a statement evaluates inside: the same function, with the
/// expression run for its effect and nothing returned.
pub open spec fn eval_statement_text(expr: Seq<char>) -> Seq<char> {
    "function __rust_expr() { "@ + expr + "; }"@
}

/// The name the built wrappers are called by.
pub fn eval_fn_name() -> (s: &'static str)
    ensures
        s@ == eval_fn_name_text(),
{
    "__rust_expr"
}

/// The source that wraps a standalone expression for one evaluation.
pub fn eval_expression_source(js_expr: &str) -> (s: String)
    ensures
        s@ == eval_expression_text(js_expr@),
{
    let mut s = String::from_str("function __rust_expr() { return (");
    s.append(js_expr);
    s.append("); }");
    proof {
        assert(s@ =~= eval_expression_text(js_expr@));
    }
    s
}

/// The source that wraps a standalone statement for one evaluation.
pub fn eval_statement_source(js_expr: &str) -> (s: String)
    ensures
        s@ == eval_statement_text(js_expr@),
{
    let mut s = String::from_str("function __rust_expr() { ");
    s.append(js_expr);
    s.append("; }");
    proof {
        assert(s@ =~= eval_statement_text(js_expr@));
    }
    s
}

} // verus!
