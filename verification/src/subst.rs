//! The variable substitutor: replaces `{{name}}` placeholders in a response
//! body with request parameters, or with the current time for `timestamp`.
//!
//! A placeholder is `{{`, one or more word characters, `}}`. The scan is a
//! single left-to-right pass: replaced text is not re-scanned, and text that
//! does not form a placeholder stands unchanged.

use vstd::prelude::*;
use crate::chars::{str_chars, chars_string, str_eq, push_chars, is_word_char, word_run_end, word_run, lemma_word_run_end};
use crate::table::StrTable;

verus! {

/// The request parameters, keyed by name.
pub type Params = StrTable<String>;

/// The parameter mapping with values as character sequences.
pub open spec fn param_map(m: Map<Seq<char>, String>) -> Map<Seq<char>, Seq<char>> {
    Map::new(|k: Seq<char>| m.contains_key(k), |k: Seq<char>| m[k]@)
}

pub open spec fn timestamp_name() -> Seq<char> {
    seq!['t', 'i', 'm', 'e', 's', 't', 'a', 'm', 'p']
}

/// A placeholder begins at position `i` of `body`.
pub open spec fn subst_hit(body: Seq<char>, i: int) -> bool {
    &&& 0 <= i
    &&& i + 1 < body.len()
    &&& body[i] == '{'
    &&& body[i + 1] == '{'
    &&& ({
        let e = word_run_end(body, i + 2);
        e > i + 2 && e + 1 < body.len() && body[e] == '}' && body[e + 1] == '}'
    })
}

/// What a placeholder named `name` becomes: the timestamp, the parameter's
/// value, or — for an unknown name — the placeholder text itself.
pub open spec fn replacement(
    name: Seq<char>,
    params: Map<Seq<char>, Seq<char>>,
    ts: Seq<char>,
) -> Seq<char> {
    if name == timestamp_name() {
        ts
    } else if params.contains_key(name) {
        params[name]
    } else {
        seq!['{', '{'] + name + seq!['}', '}']
    }
}

/// The substituted text of `body` from position `i` on.
pub open spec fn subst_from(
    body: Seq<char>,
    params: Map<Seq<char>, Seq<char>>,
    ts: Seq<char>,
    i: int,
) -> Seq<char>
    decreases body.len() - i,
{
    if i < 0 || i >= body.len() {
        Seq::empty()
    } else if subst_hit(body, i) {
        let e = word_run_end(body, i + 2);
        replacement(body.subrange(i + 2, e), params, ts) + subst_from(body, params, ts, e + 2)
    } else {
        seq![body[i]] + subst_from(body, params, ts, i + 1)
    }
}

/// The substituted text of the whole body.
pub open spec fn subst_text(
    body: Seq<char>,
    params: Map<Seq<char>, Seq<char>>,
    ts: Seq<char>,
) -> Seq<char> {
    subst_from(body, params, ts, 0)
}

/// Substitutes placeholders with `ts` standing in for the current time:
/// the verified core of the substitutor.
#[verifier::loop_isolation(false)]
#[verifier::rlimit(60)]
pub fn replace_variables_at(body: &str, params: &Params, ts: &str) -> (r: String)
    requires
        params.wf(),
    ensures
        r@ == subst_text(body@, param_map(params@), ts@),
{
    let ghost pm = param_map(params@);
    let cs = str_chars(body);
    let n = cs.len();
    let mut out: Vec<char> = Vec::new();
    let mut i: usize = 0;
    while i < n
        invariant
            0 <= i <= n,
            subst_text(body@, pm, ts@) == out@ + subst_from(body@, pm, ts@, i as int),
        decreases n - i,
    {
        let mut plain = true;
        if cs[i] == '{' && i + 1 < n && cs[i + 1] == '{' {
            let e = word_run(&cs, i + 2);
            proof {
                lemma_word_run_end(body@, i + 2);
            }
            if e > i + 2 && e < n && cs[e] == '}' && e + 1 < n && cs[e + 1] == '}' {
                plain = false;
                assert(subst_hit(body@, i as int));
                let mut name: Vec<char> = Vec::new();
                let mut j: usize = i + 2;
                while j < e
                    invariant
                        i + 2 <= j <= e <= n,
                        name@ == body@.subrange(i + 2, j as int),
                    decreases e - j,
                {
                    name.push(cs[j]);
                    proof {
                        assert(name@ =~= body@.subrange(i + 2, j + 1));
                    }
                    j += 1;
                }
                proof {
                    assert(name@ =~= body@.subrange(i + 2, e as int));
                }
                let ghost rep = replacement(name@, pm, ts@);
                let name_str = chars_string(&name);
                if str_eq(name_str.as_str(), "timestamp") {
                    proof {
                        reveal_strlit("timestamp");
                        assert("timestamp"@ =~= timestamp_name());
                    }
                    push_chars(&mut out, ts);
                } else {
                    proof {
                        reveal_strlit("timestamp");
                        assert("timestamp"@ =~= timestamp_name());
                    }
                    match params.get(name_str.as_str()) {
                        Some(v) => {
                            push_chars(&mut out, v.as_str());
                            proof {
                                assert(pm.contains_key(name@));
                                assert(pm[name@] == params@[name@]@);
                            }
                        },
                        None => {
                            proof {
                                assert(!pm.contains_key(name@));
                            }
                            let ghost out0 = out@;
                            out.push('{');
                            out.push('{');
                            let mut k: usize = 0;
                            while k < name.len()
                                invariant
                                    0 <= k <= name@.len(),
                                    out@ == out0 + seq!['{', '{'] + name@.subrange(0, k as int),
                                decreases name@.len() - k,
                            {
                                out.push(name[k]);
                                proof {
                                    assert(out@ =~= out0 + seq!['{', '{'] + name@.subrange(0, k + 1));
                                }
                                k += 1;
                            }
                            out.push('}');
                            out.push('}');
                            proof {
                                assert(name@.subrange(0, name@.len() as int) =~= name@);
                                assert(out@ =~= out0 + (seq!['{', '{'] + name@ + seq!['}', '}']));
                            }
                        },
                    }
                }
                proof {
                    assert(subst_from(body@, pm, ts@, i as int) == rep + subst_from(body@, pm, ts@, e + 2));
                    assert(subst_text(body@, pm, ts@) =~= out@ + subst_from(body@, pm, ts@, e + 2));
                }
                i = e + 2;
            }
        }
        if plain {
            proof {
                assert(!subst_hit(body@, i as int));
                assert(subst_from(body@, pm, ts@, i as int) == seq![body@[i as int]] + subst_from(
                    body@,
                    pm,
                    ts@,
                    i + 1,
                ));
            }
            out.push(cs[i]);
            proof {
                assert(subst_text(body@, pm, ts@) =~= out@ + subst_from(body@, pm, ts@, i + 1));
            }
            i += 1;
        }
    }
    proof {
        assert(subst_from(body@, pm, ts@, n as int) =~= Seq::<char>::empty());
        assert(out@ =~= subst_text(body@, pm, ts@));
    }
    chars_string(&out)
}

/// Relies on `chrono::Utc::now` and `to_rfc3339`: the current UTC time in
/// RFC 3339 form. Of the value only the format's fixed shape is assumed:
/// it is never empty and always holds the date-time separator `T`.
#[verifier::external_body]
fn now_rfc3339() -> (r: String)
    ensures
        r@.len() > 0,
        r@.contains('T'),
{
    chrono::Utc::now().to_rfc3339()
}

/// Substitutes placeholders, reading the clock once for `timestamp`. For
/// some non-empty reading of the clock holding the RFC 3339 separator,
/// the result is exactly the substituted text.
pub fn replace_variables(body: &str, params: &Params) -> (r: String)
    requires
        params.wf(),
    ensures
        exists|ts: Seq<char>|
            ts.len() > 0 && ts.contains('T') && r@ == #[trigger] subst_text(
                body@,
                param_map(params@),
                ts,
            ),
{
    let ts = now_rfc3339();
    let r = replace_variables_at(body, params, ts.as_str());
    proof {
        assert(r@ == subst_text(body@, param_map(params@), ts@));
    }
    r
}

} // verus!
