//! Decoding engine results into the shapes callers expect.
//!
//! A caller states the JSON shape it expects back; decoding succeeds exactly
//! when the value has that shape, and otherwise fails with a decode error
//! naming the expected shape.  Number decoding accepts a signed integer, and
//! an unsigned one when it fits, which is also what sanitisation produces.

use vstd::prelude::*;
use vstd::string::StringExecFns;

use crate::js_error::CallError;
use crate::json::JsValue;
use crate::json::JsonNumber;
use crate::json::SpecJson;
use crate::json::SpecNumber;

verus! {

broadcast use vstd::std_specs::vec::group_vec_axioms;

/// The JSON shape a caller expects a result to have.
#[derive(Debug)]
pub enum Shape {
    /// Exactly `null`: the shape of a discarded result.
    Null,
    Bool,
    /// An integer: a signed value, or an unsigned one that fits.
    Int,
    Str,
    /// An array whose every element has the given shape.
    Arr(Box<Shape>),
    /// Any value at all.
    Any,
}

/// The name of a shape, used in decode errors.
pub open spec fn shape_name(s: Shape) -> Seq<char>
    decreases s,
{
    match s {
        Shape::Null => seq!['n', 'u', 'l', 'l'],
        Shape::Bool => seq!['b', 'o', 'o', 'l'],
        Shape::Int => seq!['i', 'n', 't'],
        Shape::Str => seq!['s', 't', 'r', 'i', 'n', 'g'],
        Shape::Arr(elem) => seq!['a', 'r', 'r', 'a', 'y', ' ', 'o', 'f', ' '] + shape_name(*elem),
        Shape::Any => seq!['a', 'n', 'y'],
    }
}

/// Whether a number has the integer shape: signed, or unsigned and in range.
pub open spec fn number_is_int(n: SpecNumber) -> bool {
    match n {
        SpecNumber::Int(_) => true,
        SpecNumber::UInt(u) => u <= i64::MAX as int,
        SpecNumber::Float(_, _) => false,
    }
}

/// Whether `v` has shape `s`.
pub open spec fn shape_matches(s: Shape, v: SpecJson) -> bool
    decreases s, v,
{
    match s {
        Shape::Null => v is Null,
        Shape::Bool => v is Bool,
        Shape::Int => v matches SpecJson::Num(n) && number_is_int(n),
        Shape::Str => v is Str,
        Shape::Arr(elem) => v matches SpecJson::Arr(items) && seq_shape_matches(*elem, items),
        Shape::Any => true,
    }
}

pub open spec fn seq_shape_matches(s: Shape, items: Seq<SpecJson>) -> bool
    decreases s, items,
{
    items.len() == 0 || (shape_matches(s, items[0]) && seq_shape_matches(s, items.drop_first()))
}

pub proof fn lemma_seq_shape_matches_pointwise(s: Shape, items: Seq<SpecJson>)
    ensures
        seq_shape_matches(s, items) <==> (forall|i: int|
            0 <= i < items.len() ==> shape_matches(s, #[trigger] items[i])),
    decreases items.len(),
{
    if items.len() > 0 {
        lemma_seq_shape_matches_pointwise(s, items.drop_first());
        assert(forall|i: int|
            1 <= i < items.len() ==> #[trigger] items[i] == items.drop_first()[i - 1]);
    }
}

/// What decoding returns: the value itself when it matches, nothing
/// otherwise.
pub open spec fn spec_decode(s: Shape, v: SpecJson) -> Option<SpecJson> {
    if shape_matches(s, v) {
        Some(v)
    } else {
        None
    }
}

/// Whether `v` has shape `s`, executably.
#[verifier::loop_isolation(false)]
pub fn matches_shape(v: &JsValue, s: &Shape) -> (b: bool)
    ensures
        b == shape_matches(*s, v@),
    decreases v,
{
    match s {
        Shape::Null => matches!(v, JsValue::Null),
        Shape::Bool => matches!(v, JsValue::Bool(_)),
        Shape::Int => match v {
            JsValue::Num(JsonNumber::Int(_)) => true,
            JsValue::Num(JsonNumber::UInt(u)) => *u <= i64::MAX as u64,
            _ => false,
        },
        Shape::Str => matches!(v, JsValue::Str(_)),
        Shape::Any => true,
        Shape::Arr(elem) => match v {
            JsValue::Arr(items) => {
                let ghost rep = crate::json::arr_rep(items@);
                proof {
                    crate::json::lemma_arr_rep_index(items@);
                    lemma_seq_shape_matches_pointwise(**elem, rep);
                }
                let n = items.len();
                let mut i: usize = 0;
                while i < n
                    invariant
                        i <= n,
                        forall|j: int| 0 <= j < i ==> shape_matches(**elem, #[trigger] rep[j]),
                    decreases n - i,
                {
                    proof {
                        assert(decreases_to!(v => items@[i as int]));
                    }
                    if !matches_shape(&items[i], elem) {
                        proof {
                            assert(!shape_matches(**elem, rep[i as int]));
                            assert(!seq_shape_matches(**elem, rep));
                            assert(v@ == SpecJson::Arr(rep));
                        }
                        return false;
                    }
                    i = i + 1;
                }
                proof {
                    assert(seq_shape_matches(**elem, rep));
                    assert(v@ == SpecJson::Arr(rep));
                }
                true
            },
            _ => false,
        },
    }
}

/// The name of a shape, as a string for decode errors.
pub fn shape_name_text(s: &Shape) -> (t: String)
    ensures
        t@ == shape_name(*s),
    decreases s,
{
    match s {
        Shape::Null => {
            proof {
                reveal_strlit("null");
                assert("null"@ =~= shape_name(Shape::Null));
            }
            String::from_str("null")
        },
        Shape::Bool => {
            proof {
                reveal_strlit("bool");
                assert("bool"@ =~= shape_name(Shape::Bool));
            }
            String::from_str("bool")
        },
        Shape::Int => {
            proof {
                reveal_strlit("int");
                assert("int"@ =~= shape_name(Shape::Int));
            }
            String::from_str("int")
        },
        Shape::Str => {
            proof {
                reveal_strlit("string");
                assert("string"@ =~= shape_name(Shape::Str));
            }
            String::from_str("string")
        },
        Shape::Arr(elem) => {
            let mut t = String::from_str("array of ");
            let rest = shape_name_text(elem);
            t.append(rest.as_str());
            proof {
                reveal_strlit("array of ");
                assert(t@ =~= shape_name(*s));
            }
            t
        },
        Shape::Any => {
            proof {
                reveal_strlit("any");
                assert("any"@ =~= shape_name(Shape::Any));
            }
            String::from_str("any")
        },
    }
}

/// Decodes a result into the expected shape: the value is returned untouched
/// when it matches, and otherwise the call fails with a decode error naming
/// the expected shape.
pub fn decode_result(v: JsValue, expected: &Shape) -> (r: Result<JsValue, CallError>)
    ensures
        r matches Ok(out) ==> spec_decode(*expected, v@) == Some(out@),
        r is Err <==> spec_decode(*expected, v@) is None,
        r matches Err(e) ==> e matches CallError::DecodeError(m) && m@ == shape_name(*expected),
{
    if matches_shape(&v, expected) {
        Ok(v)
    } else {
        Err(CallError::DecodeError(shape_name_text(expected)))
    }
}

/// A matching value decodes to itself: decoding what was encoded gives the
/// encoded value back whenever the expected shape fits it.
pub proof fn lemma_decode_roundtrip(s: Shape, v: SpecJson)
    requires
        shape_matches(s, v),
    ensures
        spec_decode(s, v) == Some(v),
{
}

/// The integer a value decodes to, when it has the integer shape.
pub open spec fn spec_int_of(v: SpecJson) -> Option<int> {
    match v {
        SpecJson::Num(SpecNumber::Int(i)) => Some(i),
        SpecJson::Num(SpecNumber::UInt(u)) => if u <= i64::MAX as int {
            Some(u)
        } else {
            None
        },
        _ => None,
    }
}

impl JsValue {
    /// Encodes a signed integer.
    pub fn from_i64(i: i64) -> (v: JsValue)
        ensures
            v@ == SpecJson::Num(SpecNumber::Int(i as int)),
    {
        JsValue::Num(JsonNumber::Int(i))
    }

    /// Encodes a boolean.
    pub fn from_bool(b: bool) -> (v: JsValue)
        ensures
            v@ == SpecJson::Bool(b),
    {
        JsValue::Bool(b)
    }

    /// Encodes a string.
    pub fn from_text(s: &str) -> (v: JsValue)
        ensures
            v@ == SpecJson::Str(s@),
    {
        JsValue::Str(s.to_owned())
    }

    /// Decodes an integer result.
    pub fn as_i64(&self) -> (r: Result<i64, CallError>)
        ensures
            r matches Ok(i) ==> spec_int_of(self@) == Some(i as int),
            r is Err <==> spec_int_of(self@) is None,
            r matches Err(e) ==> e matches CallError::DecodeError(m) && m@ == shape_name(
                Shape::Int,
            ),
    {
        match self {
            JsValue::Num(JsonNumber::Int(i)) => Ok(*i),
            JsValue::Num(JsonNumber::UInt(u)) => {
                if *u <= i64::MAX as u64 {
                    Ok(*u as i64)
                } else {
                    Err(CallError::DecodeError(shape_name_text(&Shape::Int)))
                }
            },
            _ => Err(CallError::DecodeError(shape_name_text(&Shape::Int))),
        }
    }

    /// Decodes a boolean result.
    pub fn as_bool(&self) -> (r: Result<bool, CallError>)
        ensures
            r matches Ok(b) ==> self@ == SpecJson::Bool(b),
            r is Err <==> !(self@ is Bool),
            r matches Err(e) ==> e matches CallError::DecodeError(m) && m@ == shape_name(
                Shape::Bool,
            ),
    {
        match self {
            JsValue::Bool(b) => Ok(*b),
            _ => Err(CallError::DecodeError(shape_name_text(&Shape::Bool))),
        }
    }

    /// Decodes a string result.
    pub fn as_text(&self) -> (r: Result<String, CallError>)
        ensures
            r matches Ok(s) ==> self@ == SpecJson::Str(s@),
            r is Err <==> !(self@ is Str),
            r matches Err(e) ==> e matches CallError::DecodeError(m) && m@ == shape_name(
                Shape::Str,
            ),
    {
        match self {
            JsValue::Str(s) => Ok(s.clone()),
            _ => Err(CallError::DecodeError(shape_name_text(&Shape::Str))),
        }
    }

    /// Decodes a discarded (`null`) result, as a call declared to return
    /// nothing expects.
    pub fn as_unit(&self) -> (r: Result<(), CallError>)
        ensures
            r is Ok <==> self@ is Null,
            r matches Err(e) ==> e matches CallError::DecodeError(m) && m@ == shape_name(
                Shape::Null,
            ),
    {
        match self {
            JsValue::Null => Ok(()),
            _ => Err(CallError::DecodeError(shape_name_text(&Shape::Null))),
        }
    }
}

/// Encoding an integer and decoding it back gives the integer.
pub proof fn lemma_int_roundtrip(i: int)
    ensures
        spec_int_of(SpecJson::Num(SpecNumber::Int(i))) == Some(i),
        shape_matches(Shape::Int, SpecJson::Num(SpecNumber::Int(i))),
{
}

/// Encoding a boolean and decoding it back gives the boolean; likewise for
/// a string: each encoded value has its own shape, so decoding it in that
/// shape hands it back unchanged.
pub proof fn lemma_scalar_roundtrip(b: bool, s: Seq<char>)
    ensures
        shape_matches(Shape::Bool, SpecJson::Bool(b)),
        spec_decode(Shape::Bool, SpecJson::Bool(b)) == Some(SpecJson::Bool(b)),
        shape_matches(Shape::Str, SpecJson::Str(s)),
        spec_decode(Shape::Str, SpecJson::Str(s)) == Some(SpecJson::Str(s)),
        shape_matches(Shape::Null, SpecJson::Null),
        spec_decode(Shape::Null, SpecJson::Null) == Some(SpecJson::Null),
{
}

/// A floating value with zero fractional part decodes as an integer after
/// sanitisation, rather than failing.
pub proof fn lemma_integral_float_decodes(text: Seq<char>, i: int)
    ensures
        crate::json::sanitized_value(SpecJson::Num(SpecNumber::Float(text, Some(i))))
            == SpecJson::Num(SpecNumber::Int(i)),
        spec_int_of(
            crate::json::sanitized_value(SpecJson::Num(SpecNumber::Float(text, Some(i)))),
        ) == Some(i),
        shape_matches(
            Shape::Int,
            crate::json::sanitized_value(SpecJson::Num(SpecNumber::Float(text, Some(i)))),
        ),
{
}

} // verus!
