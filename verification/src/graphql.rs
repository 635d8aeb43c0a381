//! The GraphQL adapter: reads the request envelope, finds the operation
//! name and its requested fields, looks the operation up in the stored
//! mock, and projects the mock's `data` object onto the requested fields.
//!
//! The query text is read by graphql-parser behind a trusted wrapper; when
//! it cannot be parsed, the operation name falls back to the second
//! whitespace token, with an empty field set.

use vstd::prelude::*;
use graphql_parser::query::{parse_query, Definition, OperationDefinition, Selection, SelectionSet};
use graphql_parser::query::Definition::Operation;
use graphql_parser::query::OperationDefinition::{Mutation, Query, Subscription};
use graphql_parser::query::Selection::Field;
use crate::chars::{
    str_chars, chars_string, sub_chars, str_eq, is_space, is_space_char, match_at, seq_starts_with,
    has_substring, chars_contain,
};
use crate::json::{
    JsonValue, json_parse, parse_json, json_get_spec, json_str_spec, json_get, json_str, text_of,
    obj_text, quote_text, write_json, write_quoted,
};
use crate::models::{Endpoint, InvalidGraphQLRequest, adapter_status};

verus! {

pub open spec fn query_key() -> Seq<char> {
    seq!['q', 'u', 'e', 'r', 'y']
}

pub open spec fn mutation_key() -> Seq<char> {
    seq!['m', 'u', 't', 'a', 't', 'i', 'o', 'n']
}

pub open spec fn operation_name_key() -> Seq<char> {
    seq!['o', 'p', 'e', 'r', 'a', 't', 'i', 'o', 'n', '_', 'n', 'a', 'm', 'e']
}

pub open spec fn data_key() -> Seq<char> {
    seq!['d', 'a', 't', 'a']
}

/// The quoted token whose presence activates the adapter.
pub open spec fn query_marker() -> Seq<char> {
    seq!['"', 'q', 'u', 'e', 'r', 'y', '"']
}

/// What the guarded read of a query text yields: nothing when the text
/// holds the block-string marker or does not parse; otherwise the first
/// operation definition's name, and the field names mentioned in the
/// operations' selection sets. Texts with the marker are kept away from
/// the parser, whose block-string indentation handling can panic; a block
/// string could only be a literal argument value, which the adapter
/// ignores, so such texts go down the fallback path instead.
pub uninterp spec fn gql_parse(q: Seq<char>) -> Option<(Option<Seq<char>>, Seq<Seq<char>>)>;

/// Relies on `graphql_parser::parse_query`, guarded against block strings:
/// whether the text parses, and the first operation definition's name.
#[verifier::external_body]
fn parse_gql_name(q: &str) -> (r: Option<Option<String>>)
    ensures
        match r {
            Some(n) => gql_parse(q@) matches Some(g) && g.0 == (match n {
                Some(x) => Some(x@),
                None => None::<Seq<char>>,
            }),
            None => gql_parse(q@) is None,
        },
{
    if q.contains("\"\"\"") {
        return None;
    }
    let doc = parse_query::<&str>(q).ok()?;
    for def in doc.definitions {
        if let Operation(op) = def {
            return Some(match op { Query(o) => o.name, Mutation(o) => o.name, Subscription(o) => o.name, _ => None }.map(String::from));
        }
    }
    Some(None)
}

/// Relies on `graphql_parser::parse_query`, guarded against block strings
/// as `parse_gql_name` is: the field names the document's operation
/// selection sets mention, nested ones included, in one flat list.
#[verifier::external_body]
fn parse_gql_fields(q: &str) -> (r: Option<Vec<String>>)
    ensures
        match r {
            Some(fs) => gql_parse(q@) matches Some(g) && g.1 == fs@.map(|i: int, s: String| s@),
            None => gql_parse(q@) is None,
        },
{
    if q.contains("\"\"\"") {
        return None;
    }
    let doc = parse_query::<&str>(q).ok()?;
    let mut fields = Vec::new();
    let mut work = Vec::new();
    for def in doc.definitions {
        if let Operation(op) = def {
            work.push(match op { Query(o) => o.selection_set, Mutation(o) => o.selection_set, Subscription(o) => o.selection_set, OperationDefinition::SelectionSet(s) => s });
        }
    }
    while let Some(sel) = work.pop() { for item in sel.items { if let Field(f) = item { fields.push(f.name.to_string()); work.push(f.selection_set); } } }
    Some(fields)
}

/// The first non-space position at or after `i`.
pub open spec fn skip_spaces(s: Seq<char>, i: int) -> int
    decreases s.len() - i,
{
    if i < 0 || i >= s.len() {
        s.len() as int
    } else if is_space_char(s[i]) {
        skip_spaces(s, i + 1)
    } else {
        i
    }
}

/// The first space position at or after `i`, or the length.
pub open spec fn token_end(s: Seq<char>, i: int) -> int
    decreases s.len() - i,
{
    if i < 0 || i >= s.len() {
        s.len() as int
    } else if is_space_char(s[i]) {
        i
    } else {
        token_end(s, i + 1)
    }
}

fn skip_spaces_exec(v: &Vec<char>, from: usize) -> (r: usize)
    requires
        from <= v@.len(),
    ensures
        r == skip_spaces(v@, from as int),
        from <= r <= v@.len(),
{
    let mut i: usize = from;
    while i < v.len() && is_space(v[i])
        invariant
            from <= i <= v@.len(),
            skip_spaces(v@, from as int) == skip_spaces(v@, i as int),
        decreases v@.len() - i,
    {
        i += 1;
    }
    i
}

fn token_end_exec(v: &Vec<char>, from: usize) -> (r: usize)
    requires
        from <= v@.len(),
    ensures
        r == token_end(v@, from as int),
        from <= r <= v@.len(),
{
    let mut i: usize = from;
    while i < v.len() && !is_space(v[i])
        invariant
            from <= i <= v@.len(),
            token_end(v@, from as int) == token_end(v@, i as int),
        decreases v@.len() - i,
    {
        i += 1;
    }
    i
}

/// The operation name a fallback read of the query yields: the second
/// whitespace token, when the first is `query` or `mutation`.
pub open spec fn fallback_name(q: Seq<char>) -> Option<Seq<char>> {
    let a = skip_spaces(q, 0);
    let b = token_end(q, a);
    let c = skip_spaces(q, b);
    let d = token_end(q, c);
    if b > a && d > c && (q.subrange(a, b) == query_key() || q.subrange(a, b) == mutation_key()) {
        Some(q.subrange(c, d))
    } else {
        None
    }
}

/// The operation name and requested fields of a query text: from the
/// parsed document where it parses and names its operation, from the
/// fallback tokens — with no fields — where it does not parse.
pub open spec fn gql_operation(q: Seq<char>) -> Option<(Seq<char>, Seq<Seq<char>>)> {
    match gql_parse(q) {
        Option::Some(p) => match p.0 {
            Option::Some(n) => Some((n, p.1)),
            Option::None => None,
        },
        Option::None => match fallback_name(q) {
            Option::Some(n) => Some((n, Seq::empty())),
            Option::None => None,
        },
    }
}

/// The envelope's `operation_name` field, where present, must be a string
/// or null.
pub open spec fn envelope_opname_ok(v: JsonValue) -> bool {
    match json_get_spec(v, operation_name_key()) {
        Option::None => true,
        Option::Some(f) => f is Str || f is Null,
    }
}

/// The envelope's `query` field: the envelope must be an object holding a
/// string there.
pub open spec fn envelope_query(v: JsonValue) -> Option<Seq<char>> {
    if !(v is Obj) {
        None
    } else {
        match json_get_spec(v, query_key()) {
            Option::Some(f) => json_str_spec(f),
            Option::None => None,
        }
    }
}

pub open spec fn opt_get(v: Option<JsonValue>, k: Seq<char>) -> Option<JsonValue> {
    match v {
        Option::Some(x) => json_get_spec(x, k),
        Option::None => None,
    }
}

/// The mock node an operation addresses: under `query` or `mutation` by
/// the trimmed query's first word, then under the operation name.
pub open spec fn gql_target(mock: JsonValue, q: Seq<char>, op: Seq<char>) -> Option<JsonValue> {
    let t = q.subrange(skip_spaces(q, 0), q.len() as int);
    if seq_starts_with(t, query_key()) {
        opt_get(json_get_spec(mock, query_key()), op)
    } else if seq_starts_with(t, mutation_key()) {
        opt_get(json_get_spec(mock, mutation_key()), op)
    } else {
        None
    }
}

/// The fields of `fields[i..]` whose names are requested.
pub open spec fn keep_from(
    fields: Seq<(String, JsonValue)>,
    wanted: Seq<Seq<char>>,
    i: int,
) -> Seq<(String, JsonValue)>
    decreases fields.len() - i,
{
    if i < 0 || i >= fields.len() {
        Seq::empty()
    } else if wanted.contains(fields[i].0@) {
        seq![fields[i]] + keep_from(fields, wanted, i + 1)
    } else {
        keep_from(fields, wanted, i + 1)
    }
}

/// The adapter's response body: an object with the single member `data`,
/// holding the projection of the mock node's `data` object onto the
/// requested fields — or an empty object when `data` is missing or not an
/// object.
pub open spec fn response_text(data: Option<JsonValue>, wanted: Seq<Seq<char>>) -> Seq<char> {
    let inner = match data {
        Option::Some(v) => match v {
            JsonValue::Obj(fs) => obj_text(keep_from(fs@, wanted, 0), 0),
            _ => Seq::<char>::empty(),
        },
        Option::None => Seq::<char>::empty(),
    };
    seq!['{'] + quote_text(data_key()) + seq![':'] + seq!['{'] + inner + seq!['}'] + seq!['}']
}

/// What processing a GraphQL request yields: an error for an unreadable
/// envelope, mock or operation; nothing when the operation misses the
/// mock; else the projected response body.
pub open spec fn process_graphql_spec(body: Seq<char>, json_data: Seq<char>) -> Result<
    Option<Seq<char>>,
    (),
> {
    match json_parse(body) {
        Option::None => Err(()),
        Option::Some(env) => if !envelope_opname_ok(env) {
            Err(())
        } else {
            match envelope_query(env) {
                Option::None => Err(()),
                Option::Some(q) => match gql_operation(q) {
                    Option::None => Err(()),
                    Option::Some(opw) => match json_parse(json_data) {
                        Option::None => Err(()),
                        Option::Some(mock) => match gql_target(mock, q, opw.0) {
                            Option::None => Ok(None),
                            Option::Some(t) => Ok(
                                Some(response_text(json_get_spec(t, data_key()), opw.1)),
                            ),
                        },
                    },
                },
            }
        },
    }
}

/// GraphQL projection: every field of the projected `data` object is one
/// of the operation's requested field names. Together with the shape of
/// `response_text` — one object whose single member is `data` — this is
/// the projection guarantee.
pub proof fn lemma_graphql_projection(fields: Seq<(String, JsonValue)>, wanted: Seq<Seq<char>>)
    ensures
        forall|j: int|
            0 <= j < keep_from(fields, wanted, 0).len() ==> wanted.contains(
                #[trigger] keep_from(fields, wanted, 0)[j].0@,
            ),
{
    lemma_keep_from_wanted(fields, wanted, 0);
}

proof fn lemma_keep_from_wanted(fields: Seq<(String, JsonValue)>, wanted: Seq<Seq<char>>, i: int)
    ensures
        forall|j: int|
            0 <= j < keep_from(fields, wanted, i).len() ==> wanted.contains(
                #[trigger] keep_from(fields, wanted, i)[j].0@,
            ),
    decreases fields.len() - i,
{
    if 0 <= i < fields.len() {
        lemma_keep_from_wanted(fields, wanted, i + 1);
        if wanted.contains(fields[i].0@) {
            assert forall|j: int| 0 <= j < keep_from(fields, wanted, i).len() implies wanted
                .contains(#[trigger] keep_from(fields, wanted, i)[j].0@) by {
                if j > 0 {
                    assert(keep_from(fields, wanted, i)[j] == keep_from(fields, wanted, i + 1)[j
                        - 1]);
                }
            }
        }
    }
}

/// Whether `s` is one of the requested names.
fn contains_str(wanted: &Vec<String>, s: &str) -> (r: bool)
    ensures
        r == wanted@.map(|i: int, x: String| x@).contains(s@),
{
    let ghost w = wanted@.map(|i: int, x: String| x@);
    let mut j: usize = 0;
    while j < wanted.len()
        invariant
            0 <= j <= wanted@.len(),
            w == wanted@.map(|i: int, x: String| x@),
            forall|k: int| 0 <= k < j ==> w[k] != s@,
        decreases wanted@.len() - j,
    {
        if str_eq(wanted[j].as_str(), s) {
            proof {
                assert(w[j as int] == s@);
            }
            return true;
        }
        j += 1;
    }
    proof {
        if w.contains(s@) {
            let k = choose|k: int| 0 <= k < w.len() && w[k] == s@;
            assert(w[k] != s@);
        }
    }
    false
}

/// Writes the projection of `fields` onto `wanted` as an object body,
/// fields in stored order, commas between.
#[verifier::loop_isolation(false)]
#[verifier::rlimit(100)]
fn write_projection(fields: &Vec<(String, JsonValue)>, wanted: &Vec<String>, out: &mut Vec<char>)
    ensures
        final(out)@ == old(out)@ + obj_text(
            keep_from(fields@, wanted@.map(|i: int, x: String| x@), 0),
            0,
        ),
{
    let ghost w = wanted@.map(|i: int, x: String| x@);
    let ghost k_all = keep_from(fields@, w, 0);
    let n = fields.len();
    let mut total: usize = 0;
    let mut j: usize = 0;
    while j < n
        invariant
            0 <= j <= n,
            n == fields@.len(),
            total <= j,
            total + keep_from(fields@, w, j as int).len() == k_all.len(),
        decreases n - j,
    {
        if contains_str(wanted, fields[j].0.as_str()) {
            total += 1;
        }
        j += 1;
    }
    proof {
        assert(keep_from(fields@, w, n as int) =~= Seq::<(String, JsonValue)>::empty());
    }
    let mut c: usize = 0;
    let mut j2: usize = 0;
    while j2 < n
        invariant
            0 <= j2 <= n,
            0 <= c <= k_all.len(),
            total == k_all.len(),
            keep_from(fields@, w, j2 as int) == k_all.subrange(c as int, k_all.len() as int),
            out@ + obj_text(k_all, c as int) == old(out)@ + obj_text(k_all, 0),
        decreases n - j2,
    {
        proof {
            assert(keep_from(fields@, w, j2 as int) == if w.contains(fields@[j2 as int].0@) {
                seq![fields@[j2 as int]] + keep_from(fields@, w, j2 + 1)
            } else {
                keep_from(fields@, w, j2 + 1)
            });
        }
        if contains_str(wanted, fields[j2].0.as_str()) {
            proof {
                assert(k_all.subrange(c as int, k_all.len() as int) =~= seq![fields@[j2 as int]]
                    + keep_from(fields@, w, j2 + 1));
                assert(k_all.subrange(c as int, k_all.len() as int)[0] == fields@[j2 as int]);
                assert(k_all[c as int] == fields@[j2 as int]);
                assert forall|t: int| 0 <= t < keep_from(fields@, w, j2 + 1).len() implies
                    #[trigger] keep_from(fields@, w, j2 + 1)[t] == k_all[c + 1 + t] by {
                    assert(keep_from(fields@, w, j2 + 1)[t] == k_all.subrange(
                        c as int,
                        k_all.len() as int,
                    )[t + 1]);
                }
                assert(keep_from(fields@, w, j2 + 1) =~= k_all.subrange(c + 1, k_all.len() as int));
            }
            write_quoted(&fields[j2].0, out);
            out.push(':');
            write_json(&fields[j2].1, out);
            if c < total - 1 {
                out.push(',');
                proof {
                    assert(obj_text(k_all, c as int) == quote_text(k_all[c as int].0@) + seq![':']
                        + text_of(k_all[c as int].1) + seq![','] + obj_text(k_all, c + 1));
                    assert(out@ + obj_text(k_all, c + 1) =~= old(out)@ + obj_text(k_all, 0));
                }
            } else {
                proof {
                    assert(c == k_all.len() - 1);
                    assert(obj_text(k_all, c as int) == quote_text(k_all[c as int].0@) + seq![':']
                        + text_of(k_all[c as int].1));
                    assert(out@ + obj_text(k_all, c + 1) =~= old(out)@ + obj_text(k_all, 0));
                }
            }
            c += 1;
        }
        j2 += 1;
    }
    proof {
        assert(keep_from(fields@, w, n as int) =~= Seq::<(String, JsonValue)>::empty());
        assert(c == k_all.len());
        assert(obj_text(k_all, k_all.len() as int) =~= Seq::<char>::empty());
        assert(out@ =~= old(out)@ + obj_text(k_all, 0));
    }
}

/// Extracts the operation name and loads the mocked data: the verified
/// core of the GraphQL adapter.
#[verifier::rlimit(60)]
pub fn process_graphql(body: &str, json_data: &str) -> (r: Result<
    Option<String>,
    InvalidGraphQLRequest,
>)
    ensures
        ({
            let sp = process_graphql_spec(body@, json_data@);
            match r {
                Ok(o) => match o {
                    Some(s) => sp == Ok::<Option<Seq<char>>, ()>(Some(s@)),
                    None => sp == Ok::<Option<Seq<char>>, ()>(None),
                },
                Err(_) => sp is Err,
            }
        }),
{
    proof {
        reveal_strlit("query");
        reveal_strlit("mutation");
        reveal_strlit("operation_name");
        reveal_strlit("data");
        assert("query"@ =~= query_key());
        assert("mutation"@ =~= mutation_key());
        assert("operation_name"@ =~= operation_name_key());
        assert("data"@ =~= data_key());
    }
    let env = match parse_json(body) {
        Some(v) => v,
        None => {
            return Err(InvalidGraphQLRequest);
        },
    };
    match json_get(&env, "operation_name") {
        None => {},
        Some(f) => match f {
            JsonValue::Str(_) => {},
            JsonValue::Null => {},
            _ => {
                return Err(InvalidGraphQLRequest);
            },
        },
    }
    let is_obj = match &env {
        JsonValue::Obj(_) => true,
        _ => false,
    };
    if !is_obj {
        return Err(InvalidGraphQLRequest);
    }
    let q: String = match json_get(&env, "query") {
        Some(f) => match json_str(f) {
            Some(s) => s.clone(),
            None => {
                return Err(InvalidGraphQLRequest);
            },
        },
        None => {
            return Err(InvalidGraphQLRequest);
        },
    };
    let parsed: Option<(Option<String>, Vec<String>)> = match parse_gql_name(q.as_str()) {
        Some(nm) => match parse_gql_fields(q.as_str()) {
            Some(fs) => Some((nm, fs)),
            None => {
                proof {
                    assert(false);
                }
                return Err(InvalidGraphQLRequest);
            },
        },
        None => None,
    };
    let (op, wanted): (String, Vec<String>) = match parsed {
        Some((maybe_op, fs)) => match maybe_op {
            Some(o) => (o, fs),
            None => {
                return Err(InvalidGraphQLRequest);
            },
        },
        None => {
            let qv = str_chars(q.as_str());
            let a = skip_spaces_exec(&qv, 0);
            let b = token_end_exec(&qv, a);
            let c = skip_spaces_exec(&qv, b);
            let d = token_end_exec(&qv, c);
            let tok1 = chars_string(&sub_chars(&qv, a, b));
            if b > a && d > c && (str_eq(tok1.as_str(), "query") || str_eq(
                tok1.as_str(),
                "mutation",
            )) {
                let name = chars_string(&sub_chars(&qv, c, d));
                let empty_fields: Vec<String> = Vec::new();
                proof {
                    assert(fallback_name(q@) == Some(name@));
                    assert(empty_fields@.map(|i: int, x: String| x@) =~= Seq::<Seq<char>>::empty());
                }
                (name, empty_fields)
            } else {
                proof {
                    assert(fallback_name(q@) is None);
                }
                return Err(InvalidGraphQLRequest);
            }
        },
    };
    let mock = match parse_json(json_data) {
        Some(v) => v,
        None => {
            return Err(InvalidGraphQLRequest);
        },
    };
    let qv = str_chars(q.as_str());
    let a = skip_spaces_exec(&qv, 0);
    let ghost tq = q@.subrange(skip_spaces(q@, 0), q@.len() as int);
    let qk = str_chars("query");
    let mk = str_chars("mutation");
    let is_query = crate::chars::chars_start_with(&qv, &qk, a);
    let is_mutation = if is_query {
        false
    } else {
        crate::chars::chars_start_with(&qv, &mk, a)
    };
    proof {
        if match_at(q@, query_key(), a as int) {
            assert(tq.subrange(0, query_key().len() as int) =~= q@.subrange(
                a as int,
                a + query_key().len(),
            ));
            assert(seq_starts_with(tq, query_key()));
        } else {
            if seq_starts_with(tq, query_key()) {
                assert(q@.subrange(a as int, a + query_key().len()) =~= tq.subrange(
                    0,
                    query_key().len() as int,
                ));
            }
        }
        if match_at(q@, mutation_key(), a as int) {
            assert(tq.subrange(0, mutation_key().len() as int) =~= q@.subrange(
                a as int,
                a + mutation_key().len(),
            ));
            assert(seq_starts_with(tq, mutation_key()));
        } else {
            if seq_starts_with(tq, mutation_key()) {
                assert(q@.subrange(a as int, a + mutation_key().len()) =~= tq.subrange(
                    0,
                    mutation_key().len() as int,
                ));
            }
        }
    }
    let branch = if is_query {
        json_get(&mock, "query")
    } else if is_mutation {
        json_get(&mock, "mutation")
    } else {
        return Ok(None);
    };
    let target = match branch {
        Some(b) => json_get(b, op.as_str()),
        None => None,
    };
    let t = match target {
        Some(t) => t,
        None => {
            return Ok(None);
        },
    };
    let data = json_get(t, "data");
    let mut out: Vec<char> = Vec::new();
    out.push('{');
    let dname: String = String::from_str("data");
    write_quoted(&dname, &mut out);
    out.push(':');
    out.push('{');
    match data {
        Some(d) => match d {
            JsonValue::Obj(fs) => {
                write_projection(fs, &wanted, &mut out);
            },
            _ => {},
        },
        None => {},
    }
    out.push('}');
    out.push('}');
    let ghost wspec = wanted@.map(|i: int, x: String| x@);
    proof {
        assert(out@ =~= response_text(json_get_spec(*t, data_key()), wspec));
        assert(envelope_query(env) == Some(q@));
        assert(gql_operation(q@) == Some((op@, wspec)));
        assert(gql_target(mock, q@, op@) == Some(*t));
    }
    Ok(Some(chars_string(&out)))
}

/// Tries the GraphQL adapter on a request body. A body without the quoted
/// `query` marker is not the adapter's; with the marker, a processed
/// response answers with the descriptor's status (defaulting to 200), a
/// missed mock falls through, and a processing failure is the terminal
/// invalid-GraphQL error.
pub fn handle_graphql(body_str: &str, endpoint: &Endpoint, json_file_content: &str) -> (r: Result<
    Option<(u16, String)>,
    InvalidGraphQLRequest,
>)
    ensures
        ({
            let marked = has_substring(body_str@, query_marker());
            let sp = process_graphql_spec(body_str@, json_file_content@);
            match r {
                Ok(o) => match o {
                    Some(p) => marked && sp == Ok::<Option<Seq<char>>, ()>(Some(p.1@)) && p.0
                        == adapter_status(endpoint.status_code),
                    None => !marked || sp == Ok::<Option<Seq<char>>, ()>(None),
                },
                Err(_) => marked && sp is Err,
            }
        }),
{
    let bv = str_chars(body_str);
    let marker = str_chars("\"query\"");
    proof {
        reveal_strlit("\"query\"");
        assert("\"query\""@ =~= query_marker());
    }
    if !chars_contain(&bv, &marker) {
        return Ok(None);
    }
    match process_graphql(body_str, json_file_content) {
        Ok(Some(text)) => Ok(
            Some((crate::models::adapter_status_of(&endpoint.status_code), text)),
        ),
        Ok(None) => Ok(None),
        Err(e) => Err(e),
    }
}

} // verus!
