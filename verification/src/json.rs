//! The JSON values the bridge exchanges with the embedded engine.
//!
//! The engine's single numeric type does not distinguish integers from
//! floating-point values, so a number arrives in one of three forms: a signed
//! integer, an unsigned integer, or a floating value.  A floating value is
//! kept as the engine reported it: its JSON text, and, when its fractional
//! part is zero, the integer the engine's cast yields.

use vstd::prelude::*;
use vstd::string::StringExecFns;

use crate::js_error::CallError;

verus! {

broadcast use vstd::std_specs::vec::group_vec_axioms;

/// A floating-point number as the engine reported it.
///
/// `text` is the number's JSON text; `integral` is `Some(i)` exactly when the
/// value has zero fractional part and the engine's integer cast yields `i`.
#[derive(Debug)]
pub struct FloatRepr {
    pub text: String,
    pub integral: Option<i64>,
}

/// A JSON number in one of the engine's three representations.
#[derive(Debug)]
pub enum JsonNumber {
    Int(i64),
    UInt(u64),
    Float(FloatRepr),
}

/// A value passed to or from the engine.
#[derive(Debug)]
pub enum JsValue {
    Null,
    Bool(bool),
    Num(JsonNumber),
    Str(String),
    Arr(Vec<JsValue>),
    Obj(Vec<(String, JsValue)>),
}

/// The mathematical shape of a [`JsonNumber`].
pub enum SpecNumber {
    Int(int),
    UInt(int),
    Float(Seq<char>, Option<int>),
}

/// The mathematical shape of a [`JsValue`].
pub enum SpecJson {
    Null,
    Bool(bool),
    Num(SpecNumber),
    Str(Seq<char>),
    Arr(Seq<SpecJson>),
    Obj(Seq<(Seq<char>, SpecJson)>),
}

impl View for JsonNumber {
    type V = SpecNumber;

    open spec fn view(&self) -> SpecNumber {
        match self {
            JsonNumber::Int(i) => SpecNumber::Int(*i as int),
            JsonNumber::UInt(u) => SpecNumber::UInt(*u as int),
            JsonNumber::Float(f) => SpecNumber::Float(
                f.text@,
                match f.integral {
                    Some(i) => Some(i as int),
                    None => None,
                },
            ),
        }
    }
}

/// The mathematical value of a [`JsValue`].
pub open spec fn value_rep(v: JsValue) -> SpecJson
    decreases v,
    via value_rep_decreases
{
    match v {
        JsValue::Null => SpecJson::Null,
        JsValue::Bool(b) => SpecJson::Bool(b),
        JsValue::Num(n) => SpecJson::Num(n@),
        JsValue::Str(s) => SpecJson::Str(s@),
        JsValue::Arr(items) => SpecJson::Arr(arr_rep(items@)),
        JsValue::Obj(fields) => SpecJson::Obj(obj_rep(fields@)),
    }
}

#[via_fn]
proof fn value_rep_decreases(v: JsValue) {
    match v {
        JsValue::Arr(items) => {
            assert(decreases_to!(v => items));
            assert(decreases_to!(items => items@));
        }
        JsValue::Obj(fields) => {
            assert(decreases_to!(v => fields));
            assert(decreases_to!(fields => fields@));
        }
        _ => {}
    }
}

/// The mathematical values of an array's elements, in order.
pub open spec fn arr_rep(items: Seq<JsValue>) -> Seq<SpecJson>
    decreases items,
    via arr_rep_decreases
{
    if items.len() == 0 {
        Seq::empty()
    } else {
        seq![value_rep(items[0])] + arr_rep(items.drop_first())
    }
}

#[via_fn]
proof fn arr_rep_decreases(items: Seq<JsValue>) {
    if items.len() > 0 {
        assert(decreases_to!(items => items[0]));
        assert(items.drop_first() == items.subrange(1, items.len() as int));
        assert(decreases_to!(items => items.subrange(1, items.len() as int)));
    }
}

/// The mathematical keys and values of an object's fields, in order.
pub open spec fn obj_rep(fields: Seq<(String, JsValue)>) -> Seq<(Seq<char>, SpecJson)>
    decreases fields,
    via obj_rep_decreases
{
    if fields.len() == 0 {
        Seq::empty()
    } else {
        seq![(fields[0].0@, value_rep(fields[0].1))] + obj_rep(fields.drop_first())
    }
}

#[via_fn]
proof fn obj_rep_decreases(fields: Seq<(String, JsValue)>) {
    if fields.len() > 0 {
        assert(decreases_to!(fields => fields[0]));
        assert(decreases_to!(fields[0] => fields[0].1));
        assert(fields.drop_first() == fields.subrange(1, fields.len() as int));
        assert(decreases_to!(fields => fields.subrange(1, fields.len() as int)));
    }
}

impl View for JsValue {
    type V = SpecJson;

    open spec fn view(&self) -> SpecJson {
        value_rep(*self)
    }
}

/// How long [`arr_rep`] and [`obj_rep`] are, and which element stands where.
pub proof fn lemma_arr_rep_index(items: Seq<JsValue>)
    ensures
        arr_rep(items).len() == items.len(),
        forall|i: int| 0 <= i < items.len() ==> arr_rep(items)[i] == value_rep(items[i]),
    decreases items.len(),
{
    if items.len() > 0 {
        lemma_arr_rep_index(items.drop_first());
    }
}

pub proof fn lemma_obj_rep_index(fields: Seq<(String, JsValue)>)
    ensures
        obj_rep(fields).len() == fields.len(),
        forall|i: int| 0 <= i < fields.len() ==> obj_rep(fields)[i] == (
            fields[i].0@,
            value_rep(fields[i].1),
        ),
    decreases fields.len(),
{
    if fields.len() > 0 {
        lemma_obj_rep_index(fields.drop_first());
    }
}

/// Whether a number survives sanitisation: an unsigned value does only when
/// it fits in a signed 64-bit integer.
pub open spec fn number_ok(n: SpecNumber) -> bool {
    match n {
        SpecNumber::UInt(u) => u <= i64::MAX as int,
        _ => true,
    }
}

/// What sanitisation turns a number into: an in-range unsigned value becomes
/// signed, a floating value with zero fractional part becomes the integer
/// the engine's cast yields, everything else is unchanged.
pub open spec fn sanitized_number(n: SpecNumber) -> SpecNumber {
    match n {
        SpecNumber::Int(i) => SpecNumber::Int(i),
        SpecNumber::UInt(u) => SpecNumber::Int(u),
        SpecNumber::Float(text, integral) => match integral {
            Some(i) => SpecNumber::Int(i),
            None => SpecNumber::Float(text, None),
        },
    }
}

/// Whether every number nested anywhere in `v` survives sanitisation.
pub open spec fn sanitize_ok(v: SpecJson) -> bool
    decreases v,
{
    match v {
        SpecJson::Num(n) => number_ok(n),
        SpecJson::Arr(items) => seq_sanitize_ok(items),
        SpecJson::Obj(fields) => fields_sanitize_ok(fields),
        _ => true,
    }
}

pub open spec fn seq_sanitize_ok(items: Seq<SpecJson>) -> bool
    decreases items,
{
    items.len() == 0 || (sanitize_ok(items[0]) && seq_sanitize_ok(items.drop_first()))
}

pub open spec fn fields_sanitize_ok(fields: Seq<(Seq<char>, SpecJson)>) -> bool
    decreases fields,
    via fields_sanitize_ok_decreases
{
    fields.len() == 0 || (sanitize_ok(fields[0].1) && fields_sanitize_ok(fields.drop_first()))
}

#[via_fn]
proof fn fields_sanitize_ok_decreases(fields: Seq<(Seq<char>, SpecJson)>) {
    if fields.len() > 0 {
        assert(decreases_to!(fields => fields[0]));
    }
}

/// The sanitised form of `v`, meaningful when `sanitize_ok(v)` holds:
/// every nested number is replaced by its [`sanitized_number`].
pub open spec fn sanitized_value(v: SpecJson) -> SpecJson
    decreases v,
{
    match v {
        SpecJson::Null => SpecJson::Null,
        SpecJson::Bool(b) => SpecJson::Bool(b),
        SpecJson::Num(n) => SpecJson::Num(sanitized_number(n)),
        SpecJson::Str(s) => SpecJson::Str(s),
        SpecJson::Arr(items) => SpecJson::Arr(seq_sanitized(items)),
        SpecJson::Obj(fields) => SpecJson::Obj(fields_sanitized(fields)),
    }
}

pub open spec fn seq_sanitized(items: Seq<SpecJson>) -> Seq<SpecJson>
    decreases items,
{
    if items.len() == 0 {
        Seq::empty()
    } else {
        seq![sanitized_value(items[0])] + seq_sanitized(items.drop_first())
    }
}

pub open spec fn fields_sanitized(fields: Seq<(Seq<char>, SpecJson)>) -> Seq<(Seq<char>, SpecJson)>
    decreases fields,
    via fields_sanitized_decreases
{
    if fields.len() == 0 {
        Seq::empty()
    } else {
        seq![(fields[0].0, sanitized_value(fields[0].1))] + fields_sanitized(fields.drop_first())
    }
}

#[via_fn]
proof fn fields_sanitized_decreases(fields: Seq<(Seq<char>, SpecJson)>) {
    if fields.len() > 0 {
        assert(decreases_to!(fields => fields[0]));
    }
}

pub proof fn lemma_seq_sanitize_pointwise(items: Seq<SpecJson>)
    ensures
        seq_sanitize_ok(items) <==> (forall|i: int|
            0 <= i < items.len() ==> sanitize_ok(#[trigger] items[i])),
        seq_sanitized(items).len() == items.len(),
        forall|i: int| 0 <= i < items.len() ==> seq_sanitized(items)[i] == sanitized_value(
            items[i],
        ),
    decreases items.len(),
{
    if items.len() > 0 {
        lemma_seq_sanitize_pointwise(items.drop_first());
        assert(forall|i: int|
            1 <= i < items.len() ==> #[trigger] items[i] == items.drop_first()[i - 1]);
    }
}

pub proof fn lemma_fields_sanitize_pointwise(fields: Seq<(Seq<char>, SpecJson)>)
    ensures
        fields_sanitize_ok(fields) <==> (forall|i: int|
            0 <= i < fields.len() ==> sanitize_ok(#[trigger] fields[i].1)),
        fields_sanitized(fields).len() == fields.len(),
        forall|i: int| 0 <= i < fields.len() ==> fields_sanitized(fields)[i] == (
            fields[i].0,
            sanitized_value(fields[i].1),
        ),
    decreases fields.len(),
{
    if fields.len() > 0 {
        lemma_fields_sanitize_pointwise(fields.drop_first());
        assert(forall|i: int|
            1 <= i < fields.len() ==> #[trigger] fields[i] == fields.drop_first()[i - 1]);
    }
}

/// Sanitisation is idempotent: a sanitised value is still sanitisable, and
/// sanitising it again changes nothing.
pub proof fn lemma_sanitize_idempotent(v: SpecJson)
    requires
        sanitize_ok(v),
    ensures
        sanitize_ok(sanitized_value(v)),
        sanitized_value(sanitized_value(v)) == sanitized_value(v),
    decreases v,
{
    match v {
        SpecJson::Arr(items) => {
            lemma_seq_sanitize_idempotent(items);
        }
        SpecJson::Obj(fields) => {
            lemma_fields_sanitize_idempotent(fields);
        }
        _ => {}
    }
}

pub proof fn lemma_seq_sanitize_idempotent(items: Seq<SpecJson>)
    requires
        seq_sanitize_ok(items),
    ensures
        seq_sanitize_ok(seq_sanitized(items)),
        seq_sanitized(seq_sanitized(items)) == seq_sanitized(items),
    decreases items,
{
    if items.len() > 0 {
        lemma_sanitize_idempotent(items[0]);
        lemma_seq_sanitize_idempotent(items.drop_first());
        let once = seq_sanitized(items);
        assert(once[0] == sanitized_value(items[0]));
        assert(once.drop_first() =~= seq_sanitized(items.drop_first()));
        assert(seq_sanitized(once) =~= once);
    }
}

pub proof fn lemma_fields_sanitize_idempotent(fields: Seq<(Seq<char>, SpecJson)>)
    requires
        fields_sanitize_ok(fields),
    ensures
        fields_sanitize_ok(fields_sanitized(fields)),
        fields_sanitized(fields_sanitized(fields)) == fields_sanitized(fields),
    decreases fields,
{
    if fields.len() > 0 {
        lemma_sanitize_idempotent(fields[0].1);
        lemma_fields_sanitize_idempotent(fields.drop_first());
        let once = fields_sanitized(fields);
        assert(once[0] == (fields[0].0, sanitized_value(fields[0].1)));
        assert(once.drop_first() =~= fields_sanitized(fields.drop_first()));
        assert(fields_sanitized(once) =~= once);
    }
}

/// Whether no number nested in `v` uses the unsigned representation.
pub open spec fn signed_only(v: SpecJson) -> bool
    decreases v,
{
    match v {
        SpecJson::Num(n) => !(n is UInt),
        SpecJson::Arr(items) => seq_signed_only(items),
        SpecJson::Obj(fields) => fields_signed_only(fields),
        _ => true,
    }
}

pub open spec fn seq_signed_only(items: Seq<SpecJson>) -> bool
    decreases items,
{
    items.len() == 0 || (signed_only(items[0]) && seq_signed_only(items.drop_first()))
}

pub open spec fn fields_signed_only(fields: Seq<(Seq<char>, SpecJson)>) -> bool
    decreases fields,
    via fields_signed_only_decreases
{
    fields.len() == 0 || (signed_only(fields[0].1) && fields_signed_only(fields.drop_first()))
}

#[via_fn]
proof fn fields_signed_only_decreases(fields: Seq<(Seq<char>, SpecJson)>) {
    if fields.len() > 0 {
        assert(decreases_to!(fields => fields[0]));
    }
}

/// Sanitisation down-casts every unsigned value: no number of a sanitised
/// value is left in the unsigned representation.
pub proof fn lemma_sanitized_signed_only(v: SpecJson)
    requires
        sanitize_ok(v),
    ensures
        signed_only(sanitized_value(v)),
    decreases v,
{
    match v {
        SpecJson::Arr(items) => {
            lemma_seq_sanitized_signed_only(items);
        }
        SpecJson::Obj(fields) => {
            lemma_fields_sanitized_signed_only(fields);
        }
        _ => {}
    }
}

proof fn lemma_seq_sanitized_signed_only(items: Seq<SpecJson>)
    requires
        seq_sanitize_ok(items),
    ensures
        seq_signed_only(seq_sanitized(items)),
    decreases items,
{
    if items.len() > 0 {
        lemma_sanitized_signed_only(items[0]);
        lemma_seq_sanitized_signed_only(items.drop_first());
        let once = seq_sanitized(items);
        assert(once[0] == sanitized_value(items[0]));
        assert(once.drop_first() =~= seq_sanitized(items.drop_first()));
    }
}

proof fn lemma_fields_sanitized_signed_only(fields: Seq<(Seq<char>, SpecJson)>)
    requires
        fields_sanitize_ok(fields),
    ensures
        fields_signed_only(fields_sanitized(fields)),
    decreases fields,
{
    if fields.len() > 0 {
        lemma_sanitized_signed_only(fields[0].1);
        lemma_fields_sanitized_signed_only(fields.drop_first());
        let once = fields_sanitized(fields);
        assert(once[0] == (fields[0].0, sanitized_value(fields[0].1)));
        assert(once.drop_first() =~= fields_sanitized(fields.drop_first()));
    }
}

impl JsValue {
    /// Normalises every number nested in the value, as the engine's single
    /// numeric type requires: in-range unsigned integers become signed,
    /// floating values with zero fractional part become the integer the
    /// engine's cast yields, and an unsigned value beyond the signed range
    /// is rejected.
    #[verifier::loop_isolation(false)]
    pub fn sanitize_number(&self) -> (r: Result<JsValue, CallError>)
        ensures
            r is Ok <==> sanitize_ok(self@),
            r matches Ok(out) ==> out@ == sanitized_value(self@),
            r matches Err(e) ==> e matches CallError::DecodeError(m) && m@
                == "Failed to convert number to i64"@,
        decreases self,
    {
        match self {
            JsValue::Null => Ok(JsValue::Null),
            JsValue::Bool(b) => Ok(JsValue::Bool(*b)),
            JsValue::Str(s) => Ok(JsValue::Str(s.clone())),
            JsValue::Num(n) => match n {
                JsonNumber::Int(i) => Ok(JsValue::Num(JsonNumber::Int(*i))),
                JsonNumber::UInt(u) => {
                    if *u <= i64::MAX as u64 {
                        Ok(JsValue::Num(JsonNumber::Int(*u as i64)))
                    } else {
                        Err(CallError::DecodeError(
                            String::from_str("Failed to convert number to i64"),
                        ))
                    }
                },
                JsonNumber::Float(f) => match f.integral {
                    Some(i) => Ok(JsValue::Num(JsonNumber::Int(i))),
                    None => Ok(
                        JsValue::Num(
                            JsonNumber::Float(FloatRepr { text: f.text.clone(), integral: None }),
                        ),
                    ),
                },
            },
            JsValue::Arr(items) => {
                let mut out: Vec<JsValue> = Vec::new();
                let n = items.len();
                let mut i: usize = 0;
                proof {
                    lemma_arr_rep_index(items@);
                    lemma_seq_sanitize_pointwise(arr_rep(items@));
                }
                while i < n
                    invariant
                        i <= n,
                        n == items@.len(),
                        out@.len() == i,
                        arr_rep(items@).len() == n,
                        forall|j: int| 0 <= j < n ==> arr_rep(items@)[j] == value_rep(
                            items@[j],
                        ),
                        forall|j: int| 0 <= j < i ==> sanitize_ok(#[trigger] arr_rep(items@)[j]),
                        forall|j: int| 0 <= j < i ==> value_rep(#[trigger] out@[j])
                            == sanitized_value(arr_rep(items@)[j]),
                    decreases n - i,
                {
                    proof {
                        assert(decreases_to!(items => items@[i as int]));
                    }
                    match (&items[i]).sanitize_number() {
                        Ok(v) => out.push(v),
                        Err(e) => {
                            proof {
                                lemma_seq_sanitize_pointwise(arr_rep(items@));
                                assert(!sanitize_ok(value_rep(items@[i as int])));
                                assert(arr_rep(items@)[i as int] == value_rep(items@[i as int]));
                                assert(!seq_sanitize_ok(arr_rep(items@)));
                                assert(self@ == SpecJson::Arr(arr_rep(items@)));
                            }
                            return Err(e);
                        },
                    }
                    i = i + 1;
                }
                proof {
                    lemma_seq_sanitize_pointwise(arr_rep(items@));
                    lemma_arr_rep_index(out@);
                    assert(arr_rep(out@) =~= seq_sanitized(arr_rep(items@)));
                }
                Ok(JsValue::Arr(out))
            },
            JsValue::Obj(fields) => {
                let mut out: Vec<(String, JsValue)> = Vec::new();
                let n = fields.len();
                let mut i: usize = 0;
                proof {
                    lemma_obj_rep_index(fields@);
                    lemma_fields_sanitize_pointwise(obj_rep(fields@));
                }
                while i < n
                    invariant
                        i <= n,
                        n == fields@.len(),
                        out@.len() == i,
                        obj_rep(fields@).len() == n,
                        forall|j: int| 0 <= j < n ==> obj_rep(fields@)[j] == (
                            fields@[j].0@,
                            value_rep(fields@[j].1),
                        ),
                        forall|j: int| 0 <= j < i ==> sanitize_ok(
                            #[trigger] obj_rep(fields@)[j].1,
                        ),
                        forall|j: int| 0 <= j < i ==> (#[trigger] out@[j]).0@ == obj_rep(
                            fields@,
                        )[j].0,
                        forall|j: int| 0 <= j < i ==> value_rep(out@[j].1) == sanitized_value(
                            obj_rep(fields@)[j].1,
                        ),
                    decreases n - i,
                {
                    proof {
                        assert(decreases_to!(fields => fields@[i as int].1));
                    }
                    let key = fields[i].0.clone();
                    match (&fields[i].1).sanitize_number() {
                        Ok(v) => out.push((key, v)),
                        Err(e) => {
                            proof {
                                lemma_fields_sanitize_pointwise(obj_rep(fields@));
                                assert(!sanitize_ok(value_rep(fields@[i as int].1)));
                                assert(obj_rep(fields@)[i as int].1 == value_rep(
                                    fields@[i as int].1,
                                ));
                                assert(!fields_sanitize_ok(obj_rep(fields@)));
                                assert(self@ == SpecJson::Obj(obj_rep(fields@)));
                            }
                            return Err(e);
                        },
                    }
                    i = i + 1;
                }
                proof {
                    lemma_fields_sanitize_pointwise(obj_rep(fields@));
                    lemma_obj_rep_index(out@);
                    assert(obj_rep(out@) =~= fields_sanitized(obj_rep(fields@)));
                }
                Ok(JsValue::Obj(out))
            },
        }
    }
}

} // verus!

