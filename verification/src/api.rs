//! Validating a declared typed interface and shaping its calls.
//!
//! A typed interface is a set of declared method signatures; each method,
//! once validated, performs one bridge invocation.  Validation enforces the
//! declaration rules: no const or async methods, no default bodies, an
//! exclusive `&mut` receiver, plain by-value parameter names, and a return
//! type that is `()`, `T`, or `JsResult<T>`.  The checks run in declaration
//! order and the first offence wins, with the message naming it.

use vstd::prelude::*;
use vstd::string::StrSliceExecFns;
use vstd::string::StringExecFns;

use crate::js_error::CallError;
use crate::json::JsValue;
use crate::json::arr_rep;
use crate::render::arr_text;
use crate::render::encode_args;
use crate::script::Script;
use crate::script::invocation_text;
use crate::script::qualified_name;

verus! {

broadcast use vstd::std_specs::vec::group_vec_axioms;

/// One declared parameter, as the declaration's pattern shows it.
#[derive(Debug)]
pub struct ParamDecl {
    /// Whether the pattern is a bare identifier at all.
    pub is_ident: bool,
    /// The bound name, when the pattern is an identifier.
    pub name: String,
    /// Whether the pattern binds by reference (`ref x`).
    pub by_ref: bool,
    /// Whether the pattern binds mutably (`mut x`).
    pub mutable: bool,
    /// Whether the pattern carries a sub-pattern (`x @ ...`).
    pub has_subpattern: bool,
}

/// The receiver a declared method has.
#[derive(Debug)]
pub enum ReceiverDecl {
    /// No receiver: an associated function.
    Missing,
    /// `&self` or `self`: shared or by-value access.
    Shared,
    /// `&mut self`: the exclusive access a call needs.
    Exclusive,
}

/// One declared method signature.
#[derive(Debug)]
pub struct MethodDecl {
    pub name: String,
    pub is_const: bool,
    pub is_async: bool,
    pub has_default_body: bool,
    pub receiver: ReceiverDecl,
    pub params: Vec<ParamDecl>,
    /// The declared return type's text; empty when none is written.
    pub ret: String,
}

/// The shape a validated method returns: nothing, a value decoded directly
/// (where a mismatch is irrecoverable), or a result that surfaces decode
/// failure as an error.
#[derive(Debug)]
pub enum ReturnShape {
    Unit,
    Direct(String),
    ResultWrap(String),
}

/// A rejected declaration, with the message naming the offence.
#[derive(Debug)]
pub struct ApiError {
    pub message: String,
}

/// A validated method: its name, its parameter names in declaration order,
/// and its return shape.
#[derive(Debug)]
pub struct ApiMethod {
    pub name: String,
    pub param_names: Vec<String>,
    pub shape: ReturnShape,
}

/// The mathematical form of a return shape.
pub enum SpecRet {
    Unit,
    Direct(Seq<char>),
    Wrap(Seq<char>),
}

pub open spec fn ret_rep(s: ReturnShape) -> SpecRet {
    match s {
        ReturnShape::Unit => SpecRet::Unit,
        ReturnShape::Direct(t) => SpecRet::Direct(t@),
        ReturnShape::ResultWrap(t) => SpecRet::Wrap(t@),
    }
}

/// Whether a character can open a path type's text.
pub open spec fn ident_start(c: char) -> bool {
    ('a' <= c && c <= 'z') || ('A' <= c && c <= 'Z') || c == '_'
}

/// How a declared return type's text classifies: no text is the unit
/// shape; `JsResult<T>` wraps `T`; any other path type decodes directly;
/// anything else — a non-path type, or a malformed `JsResult` — is
/// rejected.
pub open spec fn spec_parse_ret(ret: Seq<char>) -> Option<SpecRet> {
    if ret.len() == 0 {
        Some(SpecRet::Unit)
    } else if !ident_start(ret[0]) {
        None
    } else if ret.len() >= 9 && ret.take(9) == "JsResult<"@ {
        if ret.len() >= 11 && ret[ret.len() - 1] == '>' {
            Some(SpecRet::Wrap(ret.subrange(9, ret.len() - 1)))
        } else {
            None
        }
    } else if ret == "JsResult"@ {
        None
    } else {
        Some(SpecRet::Direct(ret))
    }
}

/// The message every return-type rejection carries.
pub open spec fn ret_error_text() -> Seq<char> {
    "unsupported return type; expected T or JsResult<T>, where T: Deserializable"@
}

/// Classifies a declared return type's text.
#[verifier::loop_isolation(false)]
pub fn parse_return_type(ret: &str) -> (r: Result<ReturnShape, ApiError>)
    ensures
        r matches Ok(shape) ==> spec_parse_ret(ret@) == Some(ret_rep(shape)),
        r is Err <==> spec_parse_ret(ret@) is None,
        r matches Err(e) ==> e.message@ == ret_error_text(),
{
    let len = ret.unicode_len();
    if len == 0 {
        return Ok(ReturnShape::Unit);
    }
    let c0 = ret.get_char(0);
    if !(('a' <= c0 && c0 <= 'z') || ('A' <= c0 && c0 <= 'Z') || c0 == '_') {
        return Err(ApiError { message: String::from_str(ret_error_message()) });
    }
    let prefix: Vec<char> = vec!['J', 's', 'R', 'e', 's', 'u', 'l', 't', '<'];
    proof {
        reveal_strlit("JsResult<");
        assert("JsResult<"@ =~= prefix@);
    }
    let mut is_wrap_prefix = len >= 9;
    if is_wrap_prefix {
        let mut i: usize = 0;
        while i < 9
            invariant
                i <= 9,
                9 <= len == ret@.len(),
                is_wrap_prefix,
                forall|j: int| 0 <= j < i ==> ret@[j] == prefix@[j],
            decreases 9 - i,
        {
            if ret.get_char(i) != prefix[i] {
                is_wrap_prefix = false;
                break;
            }
            i = i + 1;
        }
        proof {
            if is_wrap_prefix {
                assert(ret@.take(9) =~= "JsResult<"@);
            } else {
                assert(ret@.take(9) != "JsResult<"@) by {
                    assert(ret@.take(9).len() == 9);
                    assert(exists|j: int| 0 <= j < 9 && ret@[j] != prefix@[j]);
                    let j = choose|j: int| 0 <= j < 9 && ret@[j] != prefix@[j];
                    assert(ret@.take(9)[j] != "JsResult<"@[j]);
                }
            }
        }
    }
    if is_wrap_prefix {
        if len >= 11 && ret.get_char(len - 1) == '>' {
            let inner = ret.substring_char(9, len - 1);
            return Ok(ReturnShape::ResultWrap(inner.to_owned()));
        }
        return Err(ApiError { message: String::from_str(ret_error_message()) });
    }
    let bare: Vec<char> = vec!['J', 's', 'R', 'e', 's', 'u', 'l', 't'];
    proof {
        reveal_strlit("JsResult");
        assert("JsResult"@ =~= bare@);
    }
    if len == 8 {
        let mut same = true;
        let mut i: usize = 0;
        while i < 8
            invariant
                i <= 8,
                len == ret@.len() == 8,
                same ==> forall|j: int| 0 <= j < i ==> ret@[j] == bare@[j],
                !same ==> ret@ != "JsResult"@,
            decreases 8 - i,
        {
            if ret.get_char(i) != bare[i] {
                proof {
                    assert(ret@[i as int] != "JsResult"@[i as int]);
                }
                same = false;
                break;
            }
            i = i + 1;
        }
        if same {
            proof {
                assert(ret@ =~= "JsResult"@);
            }
            return Err(ApiError { message: String::from_str(ret_error_message()) });
        }
    }
    Ok(ReturnShape::Direct(ret.to_owned()))
}

/// The one rejection message for return types, shared by every branch.
fn ret_error_message() -> (s: &'static str)
    ensures
        s@ == ret_error_text(),
{
    "unsupported return type; expected T or JsResult<T>, where T: Deserializable"
}

/// The message the first offending parameter earns, scanning in order.
pub open spec fn first_param_issue(params: Seq<ParamDecl>) -> Option<Seq<char>>
    decreases params,
{
    if params.len() == 0 {
        None
    } else if !params[0].is_ident {
        Some("parameter must be a bare identifier"@)
    } else if params[0].by_ref {
        Some("parameter must be a value; by-reference unsupported"@)
    } else if params[0].mutable {
        Some("parameter must not be mutable"@)
    } else if params[0].has_subpattern {
        Some("parameter cannot have destructured bindings"@)
    } else {
        first_param_issue(params.drop_first())
    }
}

/// The message a declared method earns, or nothing when it is valid.  The
/// checks run in declaration order: constness, asyncness, a default body,
/// the receiver, each parameter, the return type.
pub open spec fn method_issue(m: MethodDecl) -> Option<Seq<char>> {
    if m.is_const {
        Some("const functions are not supported"@)
    } else if m.is_async {
        Some("async functions are not supported"@)
    } else if m.has_default_body {
        Some("cannot specify an implementation of methods"@)
    } else if m.receiver is Missing {
        Some("receiver must be `&mut self`; associated methods are not supported"@)
    } else if m.receiver is Shared {
        Some("receiver must be `&mut self`; values and shared references are not supported"@)
    } else if first_param_issue(m.params@) is Some {
        first_param_issue(m.params@)
    } else if spec_parse_ret(m.ret@) is None {
        Some(ret_error_text())
    } else {
        None
    }
}

/// The parameter names of a declaration, in order.
pub open spec fn param_name_views(params: Seq<ParamDecl>) -> Seq<Seq<char>> {
    Seq::new(params.len(), |i: int| params[i].name@)
}

/// Validates one declared method, yielding its callable form or the first
/// offence's message.
#[verifier::loop_isolation(false)]
pub fn validate_method(m: &MethodDecl) -> (r: Result<ApiMethod, ApiError>)
    ensures
        r is Err <==> method_issue(*m) is Some,
        r matches Err(e) ==> method_issue(*m) == Some(e.message@),
        r matches Ok(api) ==> {
            &&& api.name@ == m.name@
            &&& Seq::new(api.param_names@.len(), |i: int| api.param_names@[i]@)
                == param_name_views(m.params@)
            &&& spec_parse_ret(m.ret@) == Some(ret_rep(api.shape))
        },
{
    if m.is_const {
        return Err(ApiError { message: String::from_str("const functions are not supported") });
    }
    if m.is_async {
        return Err(ApiError { message: String::from_str("async functions are not supported") });
    }
    if m.has_default_body {
        return Err(
            ApiError { message: String::from_str("cannot specify an implementation of methods") },
        );
    }
    match m.receiver {
        ReceiverDecl::Missing => {
            return Err(
                ApiError {
                    message: String::from_str(
                        "receiver must be `&mut self`; associated methods are not supported",
                    ),
                },
            );
        },
        ReceiverDecl::Shared => {
            return Err(
                ApiError {
                    message: String::from_str(
                        "receiver must be `&mut self`; values and shared references are not supported",
                    ),
                },
            );
        },
        ReceiverDecl::Exclusive => {},
    }
    let ghost params_rep = m.params@;
    proof {
        assert(params_rep.skip(0) =~= params_rep);
    }
    let n = m.params.len();
    let mut names: Vec<String> = Vec::new();
    let mut i: usize = 0;
    while i < n
        invariant
            i <= n,
            n == params_rep.len(),
            first_param_issue(params_rep.skip(i as int)) == first_param_issue(params_rep),
            names@.len() == i,
            forall|j: int| 0 <= j < i ==> (#[trigger] names@[j])@ == params_rep[j].name@,
        decreases n - i,
    {
        proof {
            assert(params_rep.skip(i as int)[0] == params_rep[i as int]);
        }
        let p = &m.params[i];
        if !p.is_ident {
            return Err(
                ApiError { message: String::from_str("parameter must be a bare identifier") },
            );
        }
        if p.by_ref {
            return Err(
                ApiError {
                    message: String::from_str("parameter must be a value; by-reference unsupported"),
                },
            );
        }
        if p.mutable {
            return Err(ApiError { message: String::from_str("parameter must not be mutable") });
        }
        if p.has_subpattern {
            return Err(
                ApiError {
                    message: String::from_str("parameter cannot have destructured bindings"),
                },
            );
        }
        names.push(p.name.clone());
        proof {
            assert(params_rep.skip(i as int).drop_first() =~= params_rep.skip(i + 1));
        }
        i = i + 1;
    }
    proof {
        assert(params_rep.skip(n as int) =~= Seq::<ParamDecl>::empty());
    }
    let shape = match parse_return_type(m.ret.as_str()) {
        Ok(shape) => shape,
        Err(e) => {
            return Err(e);
        },
    };
    let api = ApiMethod { name: m.name.clone(), param_names: names, shape };
    proof {
        assert(Seq::new(api.param_names@.len(), |i: int| api.param_names@[i]@) =~= param_name_views(
            m.params@,
        ));
    }
    Ok(api)
}

/// Validates a whole declared interface in order; the first offending
/// method's message wins.
#[verifier::loop_isolation(false)]
pub fn generate_api(decls: &Vec<MethodDecl>) -> (r: Result<Vec<ApiMethod>, ApiError>)
    ensures
        r is Ok <==> (forall|i: int|
            0 <= i < decls@.len() ==> method_issue(#[trigger] decls@[i]) is None),
        r matches Ok(api) ==> {
            &&& api@.len() == decls@.len()
            &&& forall|i: int|
                0 <= i < decls@.len() ==> {
                    &&& (#[trigger] api@[i]).name@ == decls@[i].name@
                    &&& Seq::new(
                        api@[i].param_names@.len(),
                        |j: int| api@[i].param_names@[j]@,
                    ) == param_name_views(decls@[i].params@)
                    &&& spec_parse_ret(decls@[i].ret@) == Some(ret_rep(api@[i].shape))
                }
        },
        r matches Err(e) ==> exists|i: int|
            {
                &&& 0 <= i < decls@.len()
                &&& method_issue(#[trigger] decls@[i]) == Some(e.message@)
                &&& forall|j: int| 0 <= j < i ==> method_issue(#[trigger] decls@[j]) is None
            },
{
    let n = decls.len();
    let mut api: Vec<ApiMethod> = Vec::new();
    let mut i: usize = 0;
    while i < n
        invariant
            i <= n,
            n == decls@.len(),
            api@.len() == i,
            forall|j: int| 0 <= j < i ==> method_issue(#[trigger] decls@[j]) is None,
            forall|j: int|
                0 <= j < i ==> {
                    &&& (#[trigger] api@[j]).name@ == decls@[j].name@
                    &&& Seq::new(
                        api@[j].param_names@.len(),
                        |k: int| api@[j].param_names@[k]@,
                    ) == param_name_views(decls@[j].params@)
                    &&& spec_parse_ret(decls@[j].ret@) == Some(ret_rep(api@[j].shape))
                },
        decreases n - i,
    {
        match validate_method(&decls[i]) {
            Ok(method) => {
                api.push(method);
            },
            Err(e) => {
                return Err(e);
            },
        }
        i = i + 1;
    }
    Ok(api)
}

/// One call, described in full: the addressed function, optionally behind
/// a namespace, and the pre-encoded argument list.  Built per call, not
/// persisted.
#[derive(Debug)]
pub struct CallDescriptor {
    pub namespace: Option<String>,
    pub fn_name: String,
    pub json_args: String,
}

impl CallDescriptor {
    /// The invocation source this call hands to the engine.
    pub fn source(&self) -> (s: String)
        ensures
            s@ == invocation_text(
                qualified_name(
                    match self.namespace {
                        Some(n) => Some(n@),
                        None => None,
                    },
                    self.fn_name@,
                ),
                self.json_args@,
            ),
    {
        match &self.namespace {
            Some(n) => Script::invocation_source(
                Some(n.as_str()),
                self.fn_name.as_str(),
                self.json_args.as_str(),
            ),
            None => Script::invocation_source(
                None,
                self.fn_name.as_str(),
                self.json_args.as_str(),
            ),
        }
    }
}

/// Packs a validated method's arguments, in declaration order, into the
/// call it performs.
pub fn descriptor_for(method: &ApiMethod, args: &Vec<JsValue>) -> (d: CallDescriptor)
    requires
        args@.len() == method.param_names@.len(),
    ensures
        d.namespace is None,
        d.fn_name@ == method.name@,
        d.json_args@ == arr_text(arr_rep(args@)),
{
    CallDescriptor {
        namespace: None,
        fn_name: method.name.clone(),
        json_args: encode_args(args),
    }
}

/// What a typed method's caller receives once the bridge call came back.
#[derive(Debug)]
pub enum ApiOutcome {
    /// A declared-unit method succeeded; the (present) result is discarded.
    Done,
    /// The call's value, for the caller to decode.
    Value(JsValue),
    /// A recoverable failure, surfaced by a `JsResult`-shaped method.
    Fail(CallError),
    /// An irrecoverable misuse: the declared contract was violated, and
    /// the generated wrapper stops loudly with this message.
    Misuse(String),
}

/// Applies a method's declared return shape to the bridge call's outcome:
/// a unit method discards a present value and treats any failure as
/// misuse; a direct method hands the value on and treats any failure as
/// misuse naming the declared type; a result-wrapped method passes both
/// through.
pub fn handle_return(shape: &ReturnShape, call: Result<JsValue, CallError>) -> (r: ApiOutcome)
    ensures
        shape is Unit && call is Ok ==> r is Done,
        shape is Unit && call is Err ==> (r matches ApiOutcome::Misuse(m) && m@
            == "JS function call failed"@),
        call matches Ok(v) ==> !(shape is Unit) ==> (r matches ApiOutcome::Value(out) && out@
            == v@),
        shape matches ReturnShape::Direct(t) ==> call is Err ==> (r matches ApiOutcome::Misuse(m)
            && m@ == "cannot convert to type `"@ + t@ + "`"@),
        call matches Err(e) ==> shape is ResultWrap ==> (r matches ApiOutcome::Fail(e2) && e2
            == e),
{
    match shape {
        ReturnShape::Unit => match call {
            Ok(_) => ApiOutcome::Done,
            Err(_) => ApiOutcome::Misuse(String::from_str("JS function call failed")),
        },
        ReturnShape::Direct(t) => match call {
            Ok(v) => ApiOutcome::Value(v),
            Err(_) => {
                let mut m = String::from_str("cannot convert to type `");
                m.append(t.as_str());
                m.append("`");
                proof {
                    assert(m@ =~= "cannot convert to type `"@ + t@ + "`"@);
                }
                ApiOutcome::Misuse(m)
            },
        },
        ReturnShape::ResultWrap(_) => match call {
            Ok(v) => ApiOutcome::Value(v),
            Err(e) => ApiOutcome::Fail(e),
        },
    }
}

} // verus!
