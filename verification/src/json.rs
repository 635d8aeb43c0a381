//! The library's JSON model.
//!
//! Stored mock bodies, auth policies and request envelopes are JSON. The
//! library holds a JSON value in a type of its own, renders it to text with a
//! verified serializer whose output is pinned down by `text_of`, and reads
//! values out of objects with verified lookups. Only the step from JSON text
//! to a `JsonValue` goes through serde_json, behind a trusted wrapper.

use vstd::prelude::*;
use crate::chars::{str_chars, chars_string, str_eq};

verus! {

/// A JSON value. Numbers keep the exact token text they were parsed or
/// built with, so no floating point is involved. Objects keep their fields
/// in order; a later field with the same name wins on lookup.
pub enum JsonValue {
    Null,
    Bool(bool),
    Num(String),
    Str(String),
    Arr(Vec<JsonValue>),
    Obj(Vec<(String, JsonValue)>),
}

/// The hexadecimal digit for `n`, lower case.
pub open spec fn hex_digit(n: int) -> char {
    if n == 0 { '0' } else if n == 1 { '1' } else if n == 2 { '2' } else if n == 3 { '3' }
    else if n == 4 { '4' } else if n == 5 { '5' } else if n == 6 { '6' } else if n == 7 { '7' }
    else if n == 8 { '8' } else if n == 9 { '9' } else if n == 10 { 'a' } else if n == 11 { 'b' }
    else if n == 12 { 'c' } else if n == 13 { 'd' } else if n == 14 { 'e' } else { 'f' }
}

/// How one character of a JSON string is written: quotes, backslashes and
/// control characters are escaped, everything else stands as itself.
pub open spec fn escape_char(c: char) -> Seq<char> {
    if c == '"' { seq!['\\', '"'] }
    else if c == '\\' { seq!['\\', '\\'] }
    else if c == '\u{0008}' { seq!['\\', 'b'] }
    else if c == '\u{000C}' { seq!['\\', 'f'] }
    else if c == '\n' { seq!['\\', 'n'] }
    else if c == '\r' { seq!['\\', 'r'] }
    else if c == '\t' { seq!['\\', 't'] }
    else if (c as u32) < 0x20 {
        seq!['\\', 'u', '0', '0', hex_digit((c as u32) as int / 16), hex_digit((c as u32) as int % 16)]
    } else { seq![c] }
}

pub open spec fn escape_seq(s: Seq<char>) -> Seq<char>
    decreases s.len(),
{
    if s.len() == 0 {
        Seq::empty()
    } else {
        escape_char(s[0]) + escape_seq(s.drop_first())
    }
}

/// A JSON string literal: the escaped text between double quotes.
pub open spec fn quote_text(s: Seq<char>) -> Seq<char> {
    seq!['"'] + escape_seq(s) + seq!['"']
}

/// The text a JSON value is rendered to: compact, no added spaces, object
/// fields in their stored order.
pub open spec fn text_of(v: JsonValue) -> Seq<char>
    decreases v,
{
    match v {
        JsonValue::Null => seq!['n', 'u', 'l', 'l'],
        JsonValue::Bool(b) => if b { seq!['t', 'r', 'u', 'e'] } else { seq!['f', 'a', 'l', 's', 'e'] },
        JsonValue::Num(s) => s@,
        JsonValue::Str(s) => quote_text(s@),
        JsonValue::Arr(items) => seq!['['] + arr_text(items@, 0) + seq![']'],
        JsonValue::Obj(fields) => seq!['{'] + obj_text(fields@, 0) + seq!['}'],
    }
}

/// The comma-joined rendering of `items[i..]`.
pub open spec fn arr_text(items: Seq<JsonValue>, i: int) -> Seq<char>
    decreases items, items.len() - i,
{
    if i < 0 || i >= items.len() {
        Seq::empty()
    } else if i == items.len() - 1 {
        text_of(items[i])
    } else {
        text_of(items[i]) + seq![','] + arr_text(items, i + 1)
    }
}

/// The comma-joined rendering of `fields[i..]`, each as `"name":value`.
pub open spec fn obj_text(fields: Seq<(String, JsonValue)>, i: int) -> Seq<char>
    decreases fields, fields.len() - i,
{
    if i < 0 || i >= fields.len() {
        Seq::empty()
    } else if i == fields.len() - 1 {
        quote_text(fields[i].0@) + seq![':'] + text_of(fields[i].1)
    } else {
        quote_text(fields[i].0@) + seq![':'] + text_of(fields[i].1) + seq![','] + obj_text(fields, i + 1)
    }
}

/// The value stored under `k` in an object's field list; the last field with
/// that name wins, as an overwriting insert would leave it.
pub open spec fn obj_lookup(fields: Seq<(String, JsonValue)>, k: Seq<char>) -> Option<JsonValue>
    decreases fields.len(),
{
    if fields.len() == 0 {
        None
    } else if fields.last().0@ == k {
        Some(fields.last().1)
    } else {
        obj_lookup(fields.drop_last(), k)
    }
}

/// Field lookup on a value: something only for objects.
pub open spec fn json_get_spec(v: JsonValue, k: Seq<char>) -> Option<JsonValue> {
    match v {
        JsonValue::Obj(fields) => obj_lookup(fields@, k),
        _ => None,
    }
}

/// The text of a JSON string value, if the value is one.
pub open spec fn json_str_spec(v: JsonValue) -> Option<Seq<char>> {
    match v {
        JsonValue::Str(s) => Some(s@),
        _ => None,
    }
}

/// The structural size of a value: the executable serializer recurses on it.
pub open spec fn json_size(v: JsonValue) -> nat
    decreases v,
{
    match v {
        JsonValue::Arr(items) => 1 + json_size_arr(items@, 0),
        JsonValue::Obj(fields) => 1 + json_size_obj(fields@, 0),
        _ => 1,
    }
}

pub open spec fn json_size_arr(items: Seq<JsonValue>, i: int) -> nat
    decreases items, items.len() - i,
{
    if i < 0 || i >= items.len() {
        0
    } else {
        json_size(items[i]) + json_size_arr(items, i + 1)
    }
}

pub open spec fn json_size_obj(fields: Seq<(String, JsonValue)>, i: int) -> nat
    decreases fields, fields.len() - i,
{
    if i < 0 || i >= fields.len() {
        0
    } else {
        json_size(fields[i].1) + json_size_obj(fields, i + 1)
    }
}

proof fn lemma_json_size_arr_ge(items: Seq<JsonValue>, i: int, j: int)
    requires
        0 <= i <= j < items.len(),
    ensures
        json_size_arr(items, i) >= json_size(items[j]),
    decreases j - i,
{
    if i < j {
        lemma_json_size_arr_ge(items, i + 1, j);
    }
}

proof fn lemma_json_size_obj_ge(fields: Seq<(String, JsonValue)>, i: int, j: int)
    requires
        0 <= i <= j < fields.len(),
    ensures
        json_size_obj(fields, i) >= json_size(fields[j].1),
    decreases j - i,
{
    if i < j {
        lemma_json_size_obj_ge(fields, i + 1, j);
    }
}

fn hex_char(n: u32) -> (c: char)
    requires
        n < 16,
    ensures
        c == hex_digit(n as int),
{
    if n == 0 { '0' } else if n == 1 { '1' } else if n == 2 { '2' } else if n == 3 { '3' }
    else if n == 4 { '4' } else if n == 5 { '5' } else if n == 6 { '6' } else if n == 7 { '7' }
    else if n == 8 { '8' } else if n == 9 { '9' } else if n == 10 { 'a' } else if n == 11 { 'b' }
    else if n == 12 { 'c' } else if n == 13 { 'd' } else if n == 14 { 'e' } else { 'f' }
}

proof fn lemma_escape_snoc(s: Seq<char>, c: char)
    ensures
        escape_seq(s.push(c)) == escape_seq(s) + escape_char(c),
    decreases s.len(),
{
    if s.len() == 0 {
        assert(s.push(c).len() == 1);
        assert(s.push(c)[0] == c);
        assert(s.push(c).drop_first() =~= Seq::<char>::empty());
        assert(escape_seq(s.push(c)) == escape_char(c) + escape_seq(Seq::<char>::empty()));
        assert(escape_char(c) + Seq::<char>::empty() =~= escape_char(c));
        assert(escape_seq(s) + escape_char(c) =~= escape_char(c));
    } else {
        assert(s.push(c).drop_first() =~= s.drop_first().push(c));
        lemma_escape_snoc(s.drop_first(), c);
        assert(escape_seq(s.push(c)) =~= escape_seq(s) + escape_char(c));
    }
}

/// Writes the JSON string literal for `s` onto `out`.
pub(crate) fn write_quoted(s: &String, out: &mut Vec<char>)
    ensures
        final(out)@ == old(out)@ + quote_text(s@),
{
    out.push('"');
    let cs = str_chars(s.as_str());
    let mut j: usize = 0;
    while j < cs.len()
        invariant
            cs@ == s@,
            0 <= j <= cs@.len(),
            out@ == old(out)@ + seq!['"'] + escape_seq(cs@.subrange(0, j as int)),
        decreases cs@.len() - j,
    {
        let c = cs[j];
        proof {
            assert(cs@.subrange(0, j + 1) =~= cs@.subrange(0, j as int).push(cs@[j as int]));
            lemma_escape_snoc(cs@.subrange(0, j as int), cs@[j as int]);
        }
        if c == '"' {
            out.push('\\');
            out.push('"');
        } else if c == '\\' {
            out.push('\\');
            out.push('\\');
        } else if c == '\u{0008}' {
            out.push('\\');
            out.push('b');
        } else if c == '\u{000C}' {
            out.push('\\');
            out.push('f');
        } else if c == '\n' {
            out.push('\\');
            out.push('n');
        } else if c == '\r' {
            out.push('\\');
            out.push('r');
        } else if c == '\t' {
            out.push('\\');
            out.push('t');
        } else if (c as u32) < 0x20 {
            let n = c as u32;
            out.push('\\');
            out.push('u');
            out.push('0');
            out.push('0');
            out.push(hex_char(n / 16));
            out.push(hex_char(n % 16));
        } else {
            out.push(c);
        }
        proof {
            assert(out@ =~= old(out)@ + seq!['"'] + escape_seq(cs@.subrange(0, j + 1)));
        }
        j += 1;
    }
    proof {
        assert(cs@.subrange(0, cs@.len() as int) =~= cs@);
    }
    out.push('"');
    proof {
        assert(out@ =~= old(out)@ + quote_text(s@));
    }
}

/// Writes the rendering of `v` onto `out`.
#[verifier::loop_isolation(false)]
#[verifier::rlimit(80)]
pub fn write_json(v: &JsonValue, out: &mut Vec<char>)
    ensures
        final(out)@ == old(out)@ + text_of(*v),
    decreases json_size(*v),
{
    match v {
        JsonValue::Null => {
            out.push('n');
            out.push('u');
            out.push('l');
            out.push('l');
            proof {
                assert(out@ =~= old(out)@ + text_of(*v));
            }
        },
        JsonValue::Bool(b) => {
            if *b {
                out.push('t');
                out.push('r');
                out.push('u');
                out.push('e');
            } else {
                out.push('f');
                out.push('a');
                out.push('l');
                out.push('s');
                out.push('e');
            }
            proof {
                assert(out@ =~= old(out)@ + text_of(*v));
            }
        },
        JsonValue::Num(s) => {
            let cs = str_chars(s.as_str());
            let mut j: usize = 0;
            while j < cs.len()
                invariant
                    cs@ == s@,
                    0 <= j <= cs@.len(),
                    out@ == old(out)@ + cs@.subrange(0, j as int),
                decreases cs@.len() - j,
            {
                out.push(cs[j]);
                proof {
                    assert(out@ =~= old(out)@ + cs@.subrange(0, j + 1));
                }
                j += 1;
            }
            proof {
                assert(cs@.subrange(0, cs@.len() as int) =~= cs@);
            }
        },
        JsonValue::Str(s) => {
            write_quoted(s, out);
        },
        JsonValue::Arr(items) => {
            out.push('[');
            let ghost start = out@;
            let n = items.len();
            let mut j: usize = 0;
            while j < n
                invariant
                    n == items@.len(),
                    0 <= j <= n,
                    out@ + arr_text(items@, j as int) == start + arr_text(items@, 0),
                decreases n - j,
            {
                proof {
                    lemma_json_size_arr_ge(items@, 0, j as int);
                    assert(json_size(*v) == 1 + json_size_arr(items@, 0));
                }
                write_json(&items[j], out);
                if j < n - 1 {
                    out.push(',');
                }
                proof {
                    assert(out@ + arr_text(items@, j + 1) =~= start + arr_text(items@, 0));
                }
                j += 1;
            }
            out.push(']');
            proof {
                assert(out@ =~= old(out)@ + text_of(*v));
            }
        },
        JsonValue::Obj(fields) => {
            out.push('{');
            let ghost start = out@;
            let n = fields.len();
            let mut j: usize = 0;
            while j < n
                invariant
                    n == fields@.len(),
                    0 <= j <= n,
                    out@ + obj_text(fields@, j as int) == start + obj_text(fields@, 0),
                decreases n - j,
            {
                proof {
                    lemma_json_size_obj_ge(fields@, 0, j as int);
                    assert(json_size(*v) == 1 + json_size_obj(fields@, 0));
                }
                write_quoted(&fields[j].0, out);
                out.push(':');
                write_json(&fields[j].1, out);
                if j < n - 1 {
                    out.push(',');
                }
                proof {
                    assert(out@ + obj_text(fields@, j + 1) =~= start + obj_text(fields@, 0));
                }
                j += 1;
            }
            out.push('}');
            proof {
                assert(out@ =~= old(out)@ + text_of(*v));
            }
        },
    }
}

/// The compact JSON text of `v`.
pub fn to_json_string(v: &JsonValue) -> (r: String)
    ensures
        r@ == text_of(*v),
{
    let mut out: Vec<char> = Vec::new();
    write_json(v, &mut out);
    chars_string(&out)
}

/// Looks up field `k` of an object value; the last field named `k` wins.
#[verifier::loop_isolation(false)]
pub fn json_get<'a>(v: &'a JsonValue, k: &str) -> (r: Option<&'a JsonValue>)
    ensures
        match r {
            Some(x) => json_get_spec(*v, k@) == Some(*x),
            None => json_get_spec(*v, k@) is None,
        },
{
    match v {
        JsonValue::Obj(fields) => {
            proof {
                assert(*v == JsonValue::Obj(*fields));
            }
            let mut i: usize = fields.len();
            proof {
                assert(fields@.subrange(0, fields@.len() as int) =~= fields@);
            }
            while i > 0
                invariant
                    0 <= i <= fields@.len(),
                    obj_lookup(fields@, k@) == obj_lookup(fields@.subrange(0, i as int), k@),
                decreases i,
            {
                proof {
                    lemma_obj_lookup_prefix(fields@, k@, i as int);
                }
                i -= 1;
                if str_eq(fields[i].0.as_str(), k) {
                    proof {
                        assert(fields@.subrange(0, i + 1).last() == fields@[i as int]);
                    }
                    return Some(&fields[i].1);
                }
                proof {
                    assert(fields@.subrange(0, i + 1).last() == fields@[i as int]);
                    assert(fields@.subrange(0, i + 1).drop_last() =~= fields@.subrange(0, i as int));
                }
            }
            proof {
                assert(fields@.subrange(0, 0) =~= Seq::<(String, JsonValue)>::empty());
            }
            None
        },
        _ => None,
    }
}

proof fn lemma_obj_lookup_prefix(fields: Seq<(String, JsonValue)>, k: Seq<char>, i: int)
    requires
        0 < i <= fields.len(),
    ensures
        obj_lookup(fields.subrange(0, i), k) == if fields[i - 1].0@ == k {
            Some(fields[i - 1].1)
        } else {
            obj_lookup(fields.subrange(0, i - 1), k)
        },
{
    let pre = fields.subrange(0, i);
    assert(pre.last() == fields[i - 1]);
    assert(pre.drop_last() =~= fields.subrange(0, i - 1));
}

/// The text of a string value, when `v` is one.
pub fn json_str<'a>(v: &'a JsonValue) -> (r: Option<&'a String>)
    ensures
        match r {
            Some(s) => json_str_spec(*v) == Some(s@),
            None => json_str_spec(*v) is None,
        },
{
    match v {
        JsonValue::Str(s) => Some(s),
        _ => None,
    }
}

#[verifier::external_type_specification]
#[verifier::external_body]
pub struct ExValue(serde_json::Value);

/// The JSON value a text denotes, or nothing when the text is not JSON.
/// serde_json's reading of a text is a function of the text alone.
pub uninterp spec fn json_parse(s: Seq<char>) -> Option<JsonValue>;

/// Relies on `serde_json::from_str::<serde_json::Value>`: parses JSON text,
/// with object fields in the parser's order and duplicate names collapsed.
#[verifier::external_body]
pub(crate) fn parse_json(s: &str) -> (r: Option<JsonValue>)
    ensures
        r == json_parse(s@),
{
    serde_json::from_str::<serde_json::Value>(s).ok().map(value_to_json)
}

/// Carries serde_json's value over into the library's form, variant by
/// variant; numbers keep the token text serde_json would print for them.
#[verifier::external_body]
fn value_to_json(v: serde_json::Value) -> JsonValue {
    match v {
        serde_json::Value::Null => JsonValue::Null,
        serde_json::Value::Bool(b) => JsonValue::Bool(b),
        serde_json::Value::Number(n) => JsonValue::Num(n.to_string()),
        serde_json::Value::String(s) => JsonValue::Str(s),
        serde_json::Value::Array(a) => JsonValue::Arr(a.into_iter().map(value_to_json).collect()),
        serde_json::Value::Object(m) => JsonValue::Obj(
            m.into_iter().map(|(k, w)| (k, value_to_json(w))).collect(),
        ),
    }
}

} // verus!
