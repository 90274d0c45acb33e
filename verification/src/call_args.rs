//! Argument tuples for calls into the engine.
//!
//! A call passes zero to five positional arguments; each tuple arity encodes
//! its elements independently and joins them with commas into a literal JS
//! argument list.  Larger argument counts are packed into one structured
//! value.

use vstd::prelude::*;

use crate::js_error::EncodeError;
use crate::json::JsValue;
use crate::json::SpecJson;
use crate::json::arr_rep;
use crate::render::arr_text;
use crate::render::encode_args;

verus! {

/// Sealing token: only the argument tuples below implement [`CallArgs`].
pub trait Sealed {}

/// A tuple of values that can be passed as the arguments of a call.
pub trait CallArgs: Sealed + Sized {
    /// The mathematical values of the arguments, in order.
    spec fn arg_reps(self) -> Seq<SpecJson>;

    /// Encodes each argument as JSON text and joins them with commas,
    /// producing a literal JS argument list.
    fn into_arg_string(self) -> (r: Result<String, EncodeError>)
        ensures
            r is Ok,
            r matches Ok(s) ==> s@ == arr_text(self.arg_reps()),
    ;
}

impl Sealed for () {

}

impl CallArgs for () {
    open spec fn arg_reps(self) -> Seq<SpecJson> {
        Seq::empty()
    }

    fn into_arg_string(self) -> (r: Result<String, EncodeError>) {
        Ok(String::new())
    }
}

impl Sealed for (JsValue,) {

}

impl CallArgs for (JsValue,) {
    open spec fn arg_reps(self) -> Seq<SpecJson> {
        seq![self.0@]
    }

    fn into_arg_string(self) -> (r: Result<String, EncodeError>) {
        let ghost reps = self.arg_reps();
        let mut parts: Vec<JsValue> = Vec::new();
        parts.push(self.0);
        proof {
            crate::json::lemma_arr_rep_index(parts@);
            assert(arr_rep(parts@) =~= reps);
        }
        Ok(encode_args(&parts))
    }
}

impl Sealed for (JsValue, JsValue) {

}

impl CallArgs for (JsValue, JsValue) {
    open spec fn arg_reps(self) -> Seq<SpecJson> {
        seq![self.0@, self.1@]
    }

    fn into_arg_string(self) -> (r: Result<String, EncodeError>) {
        let ghost reps = self.arg_reps();
        let mut parts: Vec<JsValue> = Vec::new();
        parts.push(self.0);
        parts.push(self.1);
        proof {
            crate::json::lemma_arr_rep_index(parts@);
            assert(arr_rep(parts@) =~= reps);
        }
        Ok(encode_args(&parts))
    }
}

impl Sealed for (JsValue, JsValue, JsValue) {

}

impl CallArgs for (JsValue, JsValue, JsValue) {
    open spec fn arg_reps(self) -> Seq<SpecJson> {
        seq![self.0@, self.1@, self.2@]
    }

    fn into_arg_string(self) -> (r: Result<String, EncodeError>) {
        let ghost reps = self.arg_reps();
        let mut parts: Vec<JsValue> = Vec::new();
        parts.push(self.0);
        parts.push(self.1);
        parts.push(self.2);
        proof {
            crate::json::lemma_arr_rep_index(parts@);
            assert(arr_rep(parts@) =~= reps);
        }
        Ok(encode_args(&parts))
    }
}

impl Sealed for (JsValue, JsValue, JsValue, JsValue) {

}

impl CallArgs for (JsValue, JsValue, JsValue, JsValue) {
    open spec fn arg_reps(self) -> Seq<SpecJson> {
        seq![self.0@, self.1@, self.2@, self.3@]
    }

    fn into_arg_string(self) -> (r: Result<String, EncodeError>) {
        let ghost reps = self.arg_reps();
        let mut parts: Vec<JsValue> = Vec::new();
        parts.push(self.0);
        parts.push(self.1);
        parts.push(self.2);
        parts.push(self.3);
        proof {
            crate::json::lemma_arr_rep_index(parts@);
            assert(arr_rep(parts@) =~= reps);
        }
        Ok(encode_args(&parts))
    }
}

impl Sealed for (JsValue, JsValue, JsValue, JsValue, JsValue) {

}

impl CallArgs for (JsValue, JsValue, JsValue, JsValue, JsValue) {
    open spec fn arg_reps(self) -> Seq<SpecJson> {
        seq![self.0@, self.1@, self.2@, self.3@, self.4@]
    }

    fn into_arg_string(self) -> (r: Result<String, EncodeError>) {
        let ghost reps = self.arg_reps();
        let mut parts: Vec<JsValue> = Vec::new();
        parts.push(self.0);
        parts.push(self.1);
        parts.push(self.2);
        parts.push(self.3);
        parts.push(self.4);
        proof {
            crate::json::lemma_arr_rep_index(parts@);
            assert(arr_rep(parts@) =~= reps);
        }
        Ok(encode_args(&parts))
    }
}

} // verus!
