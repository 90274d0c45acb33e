//! Rendering a [`JsValue`] as JSON text.
//!
//! The bridge frames every argument list it hands to the engine as JSON
//! text, so the text produced here is pinned down exactly: the spec
//! functions below give the characters, and the executable renderer is
//! proved to produce them.  String escaping follows JSON: quote, backslash
//! and control characters are escaped, everything else is kept as it is.

use vstd::prelude::*;
use vstd::string::StrSliceExecFns;
use vstd::string::StringExecFns;

use crate::json::JsValue;
use crate::json::JsonNumber;
use crate::json::SpecJson;
use crate::json::SpecNumber;
use crate::json::arr_rep;
use crate::json::obj_rep;
use crate::json::value_rep;

verus! {

broadcast use vstd::std_specs::vec::group_vec_axioms;

/// The decimal digit character for `d` (`0 <= d <= 9`).
pub open spec fn dec_digit(d: int) -> char {
    if d == 0 {
        '0'
    } else if d == 1 {
        '1'
    } else if d == 2 {
        '2'
    } else if d == 3 {
        '3'
    } else if d == 4 {
        '4'
    } else if d == 5 {
        '5'
    } else if d == 6 {
        '6'
    } else if d == 7 {
        '7'
    } else if d == 8 {
        '8'
    } else {
        '9'
    }
}

/// The hexadecimal digit character for `d` (`0 <= d <= 15`), lower case.
pub open spec fn hex_digit(d: int) -> char {
    if d < 10 {
        dec_digit(d)
    } else if d == 10 {
        'a'
    } else if d == 11 {
        'b'
    } else if d == 12 {
        'c'
    } else if d == 13 {
        'd'
    } else if d == 14 {
        'e'
    } else {
        'f'
    }
}

/// The decimal text of a non-negative integer, without a sign.
pub open spec fn dec_text(n: nat) -> Seq<char>
    decreases n,
{
    if n < 10 {
        seq![dec_digit(n as int)]
    } else {
        dec_text(n / 10) + seq![dec_digit((n % 10) as int)]
    }
}

/// The decimal text of an integer, with a leading minus sign when negative.
pub open spec fn int_text(i: int) -> Seq<char> {
    if i < 0 {
        seq!['-'] + dec_text((-i) as nat)
    } else {
        dec_text(i as nat)
    }
}

/// How one character appears inside a JSON string literal.
pub open spec fn escaped_char(c: char) -> Seq<char> {
    if c == '"' {
        seq!['\\', '"']
    } else if c == '\\' {
        seq!['\\', '\\']
    } else if c == '\u{8}' {
        seq!['\\', 'b']
    } else if c == '\u{c}' {
        seq!['\\', 'f']
    } else if c == '\n' {
        seq!['\\', 'n']
    } else if c == '\r' {
        seq!['\\', 'r']
    } else if c == '\t' {
        seq!['\\', 't']
    } else if (c as u32) < 32 {
        seq![
            '\\',
            'u',
            '0',
            '0',
            hex_digit((c as u32 / 16) as int),
            hex_digit((c as u32 % 16) as int),
        ]
    } else {
        seq![c]
    }
}

/// How a whole character sequence appears inside a JSON string literal.
pub open spec fn escaped(s: Seq<char>) -> Seq<char>
    decreases s,
{
    if s.len() == 0 {
        Seq::empty()
    } else {
        escaped_char(s[0]) + escaped(s.drop_first())
    }
}

/// A JSON string literal: the escaped characters between double quotes.
pub open spec fn quoted(s: Seq<char>) -> Seq<char> {
    seq!['"'] + escaped(s) + seq!['"']
}

/// Escaping distributes over concatenation.
pub proof fn lemma_escaped_concat(a: Seq<char>, b: Seq<char>)
    ensures
        escaped(a + b) == escaped(a) + escaped(b),
    decreases a.len(),
{
    if a.len() == 0 {
        assert(a + b =~= b);
        assert(escaped(a) + escaped(b) =~= escaped(b));
    } else {
        lemma_escaped_concat(a.drop_first(), b);
        assert((a + b).drop_first() =~= a.drop_first() + b);
        assert(escaped(a + b) =~= escaped(a) + escaped(b));
    }
}

/// Escaping a sequence extended by one character appends that character's
/// escape.
pub proof fn lemma_escaped_push(a: Seq<char>, c: char)
    ensures
        escaped(a.push(c)) == escaped(a) + escaped_char(c),
{
    lemma_escaped_concat(a, seq![c]);
    assert(a.push(c) =~= a + seq![c]);
    let single = seq![c];
    assert(single.drop_first() =~= Seq::<char>::empty());
    assert(escaped(single) == escaped_char(c) + escaped(Seq::<char>::empty()));
    assert(escaped(single) =~= escaped_char(c));
}

/// The JSON text of a number.  A floating value renders as the text the
/// engine reported for it.
pub open spec fn number_text(n: SpecNumber) -> Seq<char> {
    match n {
        SpecNumber::Int(i) => int_text(i),
        SpecNumber::UInt(u) => dec_text(u as nat),
        SpecNumber::Float(text, _) => text,
    }
}

/// The JSON text of a value.
pub open spec fn json_text(v: SpecJson) -> Seq<char>
    decreases v, 0int,
{
    match v {
        SpecJson::Null => seq!['n', 'u', 'l', 'l'],
        SpecJson::Bool(b) => if b {
            seq!['t', 'r', 'u', 'e']
        } else {
            seq!['f', 'a', 'l', 's', 'e']
        },
        SpecJson::Num(n) => number_text(n),
        SpecJson::Str(s) => quoted(s),
        SpecJson::Arr(items) => seq!['['] + arr_text(items) + seq![']'],
        SpecJson::Obj(fields) => seq!['{'] + obj_text(fields) + seq!['}'],
    }
}

/// The comma-separated JSON texts of an array's elements.
pub open spec fn arr_text(items: Seq<SpecJson>) -> Seq<char>
    decreases items, 1int,
{
    if items.len() == 0 {
        Seq::empty()
    } else {
        json_text(items[0]) + arr_rest(items.drop_first())
    }
}

pub open spec fn arr_rest(items: Seq<SpecJson>) -> Seq<char>
    decreases items, 2int,
{
    if items.len() == 0 {
        Seq::empty()
    } else {
        seq![','] + json_text(items[0]) + arr_rest(items.drop_first())
    }
}

/// The JSON text of one object field: the quoted key, a colon, the value.
pub open spec fn field_text(f: (Seq<char>, SpecJson)) -> Seq<char>
    decreases f, 0int,
{
    quoted(f.0) + seq![':'] + json_text(f.1)
}

/// The comma-separated JSON texts of an object's fields.
pub open spec fn obj_text(fields: Seq<(Seq<char>, SpecJson)>) -> Seq<char>
    decreases fields, 1int,
    via obj_text_decreases
{
    if fields.len() == 0 {
        Seq::empty()
    } else {
        field_text(fields[0]) + obj_rest(fields.drop_first())
    }
}

#[via_fn]
proof fn obj_text_decreases(fields: Seq<(Seq<char>, SpecJson)>) {
    if fields.len() > 0 {
        assert(decreases_to!(fields => fields[0]));
    }
}

pub open spec fn obj_rest(fields: Seq<(Seq<char>, SpecJson)>) -> Seq<char>
    decreases fields, 2int,
    via obj_rest_decreases
{
    if fields.len() == 0 {
        Seq::empty()
    } else {
        seq![','] + field_text(fields[0]) + obj_rest(fields.drop_first())
    }
}

#[via_fn]
proof fn obj_rest_decreases(fields: Seq<(Seq<char>, SpecJson)>) {
    if fields.len() > 0 {
        assert(decreases_to!(fields => fields[0]));
    }
}

/// Extending an array by one element appends a comma (except before the
/// first element) and the element's text.
pub proof fn lemma_arr_text_push(items: Seq<SpecJson>, x: SpecJson)
    ensures
        items.len() == 0 ==> arr_text(items.push(x)) == json_text(x),
        items.len() > 0 ==> arr_text(items.push(x)) == arr_text(items) + seq![','] + json_text(
            x,
        ),
    decreases items.len(),
{
    if items.len() == 0 {
        assert(items.push(x)[0] == x);
        assert(items.push(x).drop_first() =~= Seq::<SpecJson>::empty());
        assert(arr_text(items.push(x)) =~= json_text(x));
    } else {
        lemma_arr_rest_push(items.drop_first(), x);
        assert(items.push(x)[0] == items[0]);
        assert(items.push(x).drop_first() =~= items.drop_first().push(x));
        assert(arr_text(items.push(x)) =~= arr_text(items) + seq![','] + json_text(x));
    }
}

proof fn lemma_arr_rest_push(items: Seq<SpecJson>, x: SpecJson)
    ensures
        arr_rest(items.push(x)) == arr_rest(items) + seq![','] + json_text(x),
    decreases items.len(),
{
    if items.len() == 0 {
        assert(items.push(x)[0] == x);
        assert(items.push(x).drop_first() =~= Seq::<SpecJson>::empty());
        assert(arr_rest(Seq::<SpecJson>::empty()) == Seq::<char>::empty());
        assert(arr_rest(items.push(x)) =~= arr_rest(items) + seq![','] + json_text(x));
    } else {
        lemma_arr_rest_push(items.drop_first(), x);
        assert(items.push(x)[0] == items[0]);
        assert(items.push(x).drop_first() =~= items.drop_first().push(x));
        assert(arr_rest(items.push(x)) == seq![','] + json_text(items[0]) + arr_rest(
            items.drop_first().push(x),
        ));
        assert(arr_rest(items) == seq![','] + json_text(items[0]) + arr_rest(items.drop_first()));
        assert(arr_rest(items.push(x)) =~= arr_rest(items) + seq![','] + json_text(x));
    }
}

/// Extending an object by one field appends a comma (except before the
/// first field) and the field's text.
pub proof fn lemma_obj_text_push(fields: Seq<(Seq<char>, SpecJson)>, f: (Seq<char>, SpecJson))
    ensures
        fields.len() == 0 ==> obj_text(fields.push(f)) == field_text(f),
        fields.len() > 0 ==> obj_text(fields.push(f)) == obj_text(fields) + seq![',']
            + field_text(f),
    decreases fields.len(),
{
    if fields.len() == 0 {
        assert(fields.push(f)[0] == f);
        assert(fields.push(f).drop_first() =~= Seq::<(Seq<char>, SpecJson)>::empty());
        assert(obj_text(fields.push(f)) =~= field_text(f));
    } else {
        lemma_obj_rest_push(fields.drop_first(), f);
        assert(fields.push(f)[0] == fields[0]);
        assert(fields.push(f).drop_first() =~= fields.drop_first().push(f));
        assert(obj_text(fields.push(f)) =~= obj_text(fields) + seq![','] + field_text(f));
    }
}

proof fn lemma_obj_rest_push(fields: Seq<(Seq<char>, SpecJson)>, f: (Seq<char>, SpecJson))
    ensures
        obj_rest(fields.push(f)) == obj_rest(fields) + seq![','] + field_text(f),
    decreases fields.len(),
{
    if fields.len() == 0 {
        assert(fields.push(f)[0] == f);
        assert(fields.push(f).drop_first() =~= Seq::<(Seq<char>, SpecJson)>::empty());
        assert(obj_rest(Seq::<(Seq<char>, SpecJson)>::empty()) == Seq::<char>::empty());
        assert(obj_rest(fields.push(f)) =~= obj_rest(fields) + seq![','] + field_text(f));
    } else {
        lemma_obj_rest_push(fields.drop_first(), f);
        assert(fields.push(f)[0] == fields[0]);
        assert(fields.push(f).drop_first() =~= fields.drop_first().push(f));
        assert(obj_rest(fields.push(f)) == seq![','] + field_text(fields[0]) + obj_rest(
            fields.drop_first().push(f),
        ));
        assert(obj_rest(fields) == seq![','] + field_text(fields[0]) + obj_rest(
            fields.drop_first(),
        ));
        assert(obj_rest(fields.push(f)) =~= obj_rest(fields) + seq![','] + field_text(f));
    }
}

/// An argument list of one value is exactly that value's JSON text: no
/// comma, no brackets.
pub proof fn lemma_single_arg_text(v: SpecJson)
    ensures
        arr_text(seq![v]) == json_text(v),
{
    let single = seq![v];
    assert(single.drop_first() =~= Seq::<SpecJson>::empty());
    assert(arr_rest(Seq::<SpecJson>::empty()) == Seq::<char>::empty());
    assert(arr_text(single) =~= json_text(v));
}

/// Relies on String::push: it appends the one character to the string.
#[verifier::external_body]
fn push_char(out: &mut String, c: char)
    ensures
        final(out)@ == old(out)@.push(c),
{
    out.push(c)
}

/// The decimal digit character for a value below ten.
fn dec_digit_char(d: u64) -> (c: char)
    requires
        d < 10,
    ensures
        c == dec_digit(d as int),
{
    match d {
        0 => '0',
        1 => '1',
        2 => '2',
        3 => '3',
        4 => '4',
        5 => '5',
        6 => '6',
        7 => '7',
        8 => '8',
        _ => '9',
    }
}

/// The hexadecimal digit character for a value below sixteen, lower case.
fn hex_digit_char(d: u32) -> (c: char)
    requires
        d < 16,
    ensures
        c == hex_digit(d as int),
{
    match d {
        0 => '0',
        1 => '1',
        2 => '2',
        3 => '3',
        4 => '4',
        5 => '5',
        6 => '6',
        7 => '7',
        8 => '8',
        9 => '9',
        10 => 'a',
        11 => 'b',
        12 => 'c',
        13 => 'd',
        14 => 'e',
        _ => 'f',
    }
}

/// Appends the decimal text of `n`.
#[verifier::loop_isolation(false)]
fn append_u64(out: &mut String, n: u64)
    ensures
        final(out)@ == old(out)@ + dec_text(n as nat),
{
    let mut buf: Vec<char> = Vec::new();
    let mut m: u64 = n;
    buf.insert(0, dec_digit_char(m % 10));
    m = m / 10;
    while m > 0
        invariant
            dec_text(n as nat) == (if m > 0 {
                dec_text(m as nat) + buf@
            } else {
                buf@
            }),
        decreases m,
    {
        buf.insert(0, dec_digit_char(m % 10));
        let next = m / 10;
        proof {
            if next > 0 {
                assert(dec_text(m as nat) == dec_text((m as nat) / 10) + seq![
                    dec_digit(((m as nat) % 10) as int),
                ]);
                assert(dec_text(next as nat) + buf@ =~= dec_text(n as nat));
            } else {
                assert(dec_text(m as nat) == seq![dec_digit(m as int)]);
                assert(buf@ =~= dec_text(n as nat));
            }
        }
        m = next;
    }
    let mut i: usize = 0;
    while i < buf.len()
        invariant
            i <= buf@.len(),
            out@ == old(out)@ + buf@.take(i as int),
        decreases buf@.len() - i,
    {
        push_char(out, buf[i]);
        proof {
            assert(buf@.take(i + 1 as int) =~= buf@.take(i as int).push(buf@[i as int]));
            assert(old(out)@ + buf@.take(i + 1 as int) =~= (old(out)@ + buf@.take(i as int)).push(
                buf@[i as int],
            ));
        }
        i = i + 1;
    }
    proof {
        assert(buf@.take(buf@.len() as int) =~= buf@);
    }
}

/// Appends the decimal text of `i`, with a minus sign when negative.
fn append_i64(out: &mut String, i: i64)
    ensures
        final(out)@ == old(out)@ + int_text(i as int),
{
    if i >= 0 {
        append_u64(out, i as u64);
    } else {
        push_char(out, '-');
        let magnitude: u64 = ((-(i + 1)) as u64) + 1;
        proof {
            assert(magnitude as nat == (-(i as int)) as nat);
        }
        append_u64(out, magnitude);
        proof {
            assert(old(out)@.push('-') + dec_text((-(i as int)) as nat) =~= old(out)@ + int_text(
                i as int,
            ));
        }
    }
}

/// Appends the characters of `s`, escaped as they appear inside a JSON
/// string literal.
#[verifier::loop_isolation(false)]
fn append_escaped(out: &mut String, s: &str)
    ensures
        final(out)@ == old(out)@ + escaped(s@),
{
    let n = s.unicode_len();
    let mut i: usize = 0;
    proof {
        assert(s@.take(0) =~= Seq::<char>::empty());
        assert(out@ + escaped(s@.take(0)) =~= out@);
    }
    while i < n
        invariant
            i <= n,
            n == s@.len(),
            out@ == old(out)@ + escaped(s@.take(i as int)),
        decreases n - i,
    {
        let c = s.get_char(i);
        let code = c as u32;
        if c == '"' {
            push_char(out, '\\');
            push_char(out, '"');
        } else if c == '\\' {
            push_char(out, '\\');
            push_char(out, '\\');
        } else if code == 8 {
            push_char(out, '\\');
            push_char(out, 'b');
        } else if code == 12 {
            push_char(out, '\\');
            push_char(out, 'f');
        } else if c == '\n' {
            push_char(out, '\\');
            push_char(out, 'n');
        } else if c == '\r' {
            push_char(out, '\\');
            push_char(out, 'r');
        } else if c == '\t' {
            push_char(out, '\\');
            push_char(out, 't');
        } else if code < 32 {
            push_char(out, '\\');
            push_char(out, 'u');
            push_char(out, '0');
            push_char(out, '0');
            push_char(out, hex_digit_char(code / 16));
            push_char(out, hex_digit_char(code % 16));
        } else {
            push_char(out, c);
        }
        proof {
            lemma_escaped_push(s@.take(i as int), c);
            assert(s@.take(i + 1 as int) =~= s@.take(i as int).push(c));
            assert(out@ =~= old(out)@ + escaped(s@.take(i + 1 as int)));
        }
        i = i + 1;
    }
    proof {
        assert(s@.take(n as int) =~= s@);
    }
}

/// Appends the JSON text of `v`.
#[verifier::loop_isolation(false)]
#[verifier::rlimit(60)]
fn append_json(out: &mut String, v: &JsValue)
    ensures
        final(out)@ == old(out)@ + json_text(v@),
    decreases v,
{
    match v {
        JsValue::Null => {
            push_char(out, 'n');
            push_char(out, 'u');
            push_char(out, 'l');
            push_char(out, 'l');
            proof {
                assert(out@ =~= old(out)@ + seq!['n', 'u', 'l', 'l']);
            }
        },
        JsValue::Bool(b) => {
            if *b {
                push_char(out, 't');
                push_char(out, 'r');
                push_char(out, 'u');
                push_char(out, 'e');
                proof {
                    assert(out@ =~= old(out)@ + seq!['t', 'r', 'u', 'e']);
                }
            } else {
                push_char(out, 'f');
                push_char(out, 'a');
                push_char(out, 'l');
                push_char(out, 's');
                push_char(out, 'e');
                proof {
                    assert(out@ =~= old(out)@ + seq!['f', 'a', 'l', 's', 'e']);
                }
            }
        },
        JsValue::Num(n) => match n {
            JsonNumber::Int(i) => append_i64(out, *i),
            JsonNumber::UInt(u) => append_u64(out, *u),
            JsonNumber::Float(f) => out.append(f.text.as_str()),
        },
        JsValue::Str(s) => {
            push_char(out, '"');
            append_escaped(out, s.as_str());
            push_char(out, '"');
            proof {
                assert(out@ =~= old(out)@ + quoted(s@));
            }
        },
        JsValue::Arr(items) => {
            push_char(out, '[');
            let ghost rep = arr_rep(items@);
            proof {
                crate::json::lemma_arr_rep_index(items@);
                assert(rep.take(0) =~= Seq::<SpecJson>::empty());
            }
            let n = items.len();
            let mut i: usize = 0;
            while i < n
                invariant
                    i <= n,
                    out@ == old(out)@ + seq!['['] + arr_text(rep.take(i as int)),
                decreases n - i,
            {
                if i > 0 {
                    push_char(out, ',');
                }
                proof {
                    assert(decreases_to!(items => items@[i as int]));
                }
                append_json(out, &items[i]);
                proof {
                    lemma_arr_text_push(rep.take(i as int), rep[i as int]);
                    assert(rep.take(i + 1 as int) =~= rep.take(i as int).push(rep[i as int]));
                    assert(rep[i as int] == value_rep(items@[i as int]));
                    assert(out@ =~= old(out)@ + seq!['['] + arr_text(rep.take(i + 1 as int)));
                }
                i = i + 1;
            }
            push_char(out, ']');
            proof {
                assert(rep.take(n as int) =~= rep);
                assert(v@ == SpecJson::Arr(rep));
                assert(out@ =~= old(out)@ + json_text(v@));
            }
        },
        JsValue::Obj(fields) => {
            push_char(out, '{');
            let ghost rep = obj_rep(fields@);
            proof {
                crate::json::lemma_obj_rep_index(fields@);
                assert(rep.take(0) =~= Seq::<(Seq<char>, SpecJson)>::empty());
            }
            let n = fields.len();
            let mut i: usize = 0;
            while i < n
                invariant
                    i <= n,
                    out@ == old(out)@ + seq!['{'] + obj_text(rep.take(i as int)),
                decreases n - i,
            {
                if i > 0 {
                    push_char(out, ',');
                }
                let ghost mid = out@;
                push_char(out, '"');
                append_escaped(out, fields[i].0.as_str());
                push_char(out, '"');
                push_char(out, ':');
                proof {
                    assert(decreases_to!(fields => fields@[i as int].1));
                }
                append_json(out, &fields[i].1);
                proof {
                    lemma_obj_text_push(rep.take(i as int), rep[i as int]);
                    assert(rep.take(i + 1 as int) =~= rep.take(i as int).push(rep[i as int]));
                    assert(rep[i as int] == (fields@[i as int].0@, value_rep(fields@[i as int].1)));
                    assert(out@ =~= mid + field_text(rep[i as int]));
                    assert(out@ =~= old(out)@ + seq!['{'] + obj_text(rep.take(i + 1 as int)));
                }
                i = i + 1;
            }
            push_char(out, '}');
            proof {
                assert(rep.take(n as int) =~= rep);
                assert(v@ == SpecJson::Obj(rep));
                assert(out@ =~= old(out)@ + json_text(v@));
            }
        },
    }
}

impl JsValue {
    /// The JSON text of this value, exactly as [`json_text`] gives it.
    pub fn to_json_text(&self) -> (s: String)
        ensures
            s@ == json_text(self@),
    {
        let mut out = String::new();
        append_json(&mut out, self);
        proof {
            assert(Seq::<char>::empty() + json_text(self@) =~= json_text(self@));
        }
        out
    }
}

/// Encodes each value as JSON text and joins them with commas, producing a
/// literal JS argument list.
#[verifier::loop_isolation(false)]
pub fn encode_args(args: &Vec<JsValue>) -> (s: String)
    ensures
        s@ == arr_text(arr_rep(args@)),
{
    let ghost rep = arr_rep(args@);
    proof {
        crate::json::lemma_arr_rep_index(args@);
        assert(rep.take(0) =~= Seq::<SpecJson>::empty());
    }
    let mut out = String::new();
    let n = args.len();
    let mut i: usize = 0;
    while i < n
        invariant
            i <= n,
            out@ == arr_text(rep.take(i as int)),
        decreases n - i,
    {
        if i > 0 {
            push_char(&mut out, ',');
        }
        append_json(&mut out, &args[i]);
        proof {
            lemma_arr_text_push(rep.take(i as int), rep[i as int]);
            assert(rep.take(i + 1 as int) =~= rep.take(i as int).push(rep[i as int]));
            assert(rep[i as int] == value_rep(args@[i as int]));
            assert(out@ =~= arr_text(rep.take(i + 1 as int)));
        }
        i = i + 1;
    }
    proof {
        assert(rep.take(n as int) =~= rep);
    }
    out
}

} // verus!
