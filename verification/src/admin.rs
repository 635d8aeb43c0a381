//! The admin surface over the registries: register a parsed form, list the
//! registered endpoints as JSON, delete by percent-encoded path.

use vstd::prelude::*;
use crate::chars::{chars_string, push_chars};
use crate::json::{quote_text, write_quoted};
use crate::models::{Endpoint, RateLimit, ErrorKind};
use crate::multipart::ParsedRegistration;
use crate::numbers::{dec_rep, u64_to_string};
use crate::params::{percent_decoded, percent_decode};
use crate::registry::Endpoints;
use crate::grpc_registry::{GrpcRegistry, grpc_key};

verus! {

/// Installs a parsed registration: the descriptor under its path, and the
/// gRPC mock where one was named.
pub fn register_endpoint(
    parsed: ParsedRegistration,
    endpoints: &mut Endpoints,
    grpc_registry: &mut GrpcRegistry,
)
    requires
        old(endpoints).wf(),
        old(grpc_registry).wf(),
    ensures
        final(endpoints).wf(),
        final(grpc_registry).wf(),
        final(endpoints)@ == old(endpoints)@.insert(parsed.path@, parsed.endpoint),
        match parsed.grpc {
            Some(g) => final(grpc_registry)@ == old(grpc_registry)@.insert(
                grpc_key(g.0@, g.1@),
                g.2,
            ),
            None => final(grpc_registry)@ == old(grpc_registry)@,
        },
{
    match parsed.grpc {
        Some((service, method_name, mock)) => {
            grpc_registry.register_mock(service.as_str(), method_name.as_str(), mock);
        },
        None => {},
    }
    endpoints.insert(parsed.path, parsed.endpoint);
}

/// Unregisters the percent-encoded path, handing back the stored body's
/// file reference for the caller to release.
pub fn delete_endpoint(path_to_delete: &str, endpoints: &mut Endpoints) -> (r: Result<
    String,
    ErrorKind,
>)
    requires
        old(endpoints).wf(),
    ensures
        final(endpoints).wf(),
        match percent_decoded(path_to_delete@) {
            Some(d) => if old(endpoints)@.contains_key(d) {
                r matches Ok(f) && f@ == old(endpoints)@[d].file@ && final(endpoints)@ == old(
                    endpoints,
                )@.remove(d)
            } else {
                r == Err::<String, ErrorKind>(ErrorKind::NotFound) && final(endpoints)@ == old(
                    endpoints,
                )@
            },
            None => r == Err::<String, ErrorKind>(ErrorKind::NotFound) && final(endpoints)@ == old(
                endpoints,
            )@,
        },
{
    let decoded = match percent_decode(path_to_delete) {
        Some(d) => d,
        None => {
            proof {
                assert(final(endpoints)@ =~= old(endpoints)@);
            }
            return Err(ErrorKind::NotFound);
        },
    };
    match endpoints.remove(decoded.as_str()) {
        Some(ep) => Ok(ep.file),
        None => {
            proof {
                assert(final(endpoints)@ =~= old(endpoints)@.remove(decoded@));
                assert(final(endpoints)@ =~= old(endpoints)@);
            }
            Err(ErrorKind::NotFound)
        },
    }
}

/// The JSON for an optional number: the number, or `null`.
pub open spec fn opt_u64_text(d: Option<u64>) -> Seq<char> {
    match d {
        Option::Some(n) => dec_rep(n as nat),
        Option::None => seq!['n', 'u', 'l', 'l'],
    }
}

pub open spec fn opt_u16_text(d: Option<u16>) -> Seq<char> {
    match d {
        Option::Some(n) => dec_rep(n as nat),
        Option::None => seq!['n', 'u', 'l', 'l'],
    }
}

pub open spec fn opt_bool_text(d: Option<bool>) -> Seq<char> {
    match d {
        Option::Some(b) => if b {
            seq!['t', 'r', 'u', 'e']
        } else {
            seq!['f', 'a', 'l', 's', 'e']
        },
        Option::None => seq!['n', 'u', 'l', 'l'],
    }
}

/// The JSON array body of a method list, comma-joined string literals.
pub open spec fn methods_text(ms: Seq<String>, i: int) -> Seq<char>
    decreases ms.len() - i,
{
    if i < 0 || i >= ms.len() {
        Seq::empty()
    } else if i == ms.len() - 1 {
        quote_text(ms[i]@)
    } else {
        quote_text(ms[i]@) + seq![','] + methods_text(ms, i + 1)
    }
}

/// The JSON of an optional rate budget.
pub open spec fn rate_text(rl: Option<RateLimit>) -> Seq<char> {
    match rl {
        Option::Some(l) => seq!['{', '"', 'r', 'e', 'q', 'u', 'e', 's', 't', 's', '"', ':']
            + dec_rep(l.requests as nat) + seq![',', '"', 'w', 'i', 'n', 'd', 'o', 'w', '_', 'm',
            's', '"', ':'] + dec_rep(l.window_ms as nat) + seq!['}'],
        Option::None => seq!['n', 'u', 'l', 'l'],
    }
}

/// The opening fields of a descriptor's JSON: methods, file, status code.
pub open spec fn ep_head_text(e: Endpoint) -> Seq<char> {
    seq!['{', '"', 'm', 'e', 't', 'h', 'o', 'd', '"', ':', '['] + methods_text(e.method@, 0)
        + seq![']', ',', '"', 'f', 'i', 'l', 'e', '"', ':'] + quote_text(e.file@) + seq![',', '"',
        's', 't', 'a', 't', 'u', 's', '_', 'c', 'o', 'd', 'e', '"', ':'] + opt_u16_text(
        e.status_code,
    )
}

/// The auth member, omitted rather than null when the policy is absent.
pub open spec fn ep_auth_text(e: Endpoint) -> Seq<char> {
    match e.authentication {
        Option::Some(a) => seq![',', '"', 'a', 'u', 't', 'h', 'e', 'n', 't', 'i', 'c', 'a', 't',
            'i', 'o', 'n', '"', ':'] + quote_text(a@),
        Option::None => Seq::empty(),
    }
}

/// The closing fields: delay, rate limit, dynamic-variable flag.
pub open spec fn ep_tail_text(e: Endpoint) -> Seq<char> {
    seq![',', '"', 'd', 'e', 'l', 'a', 'y', '"', ':'] + opt_u64_text(e.delay) + seq![',', '"',
        'r', 'a', 't', 'e', '_', 'l', 'i', 'm', 'i', 't', '"', ':'] + rate_text(e.rate_limit)
        + seq![',', '"', 'w', 'i', 't', 'h', '_', 'd', 'y', 'n', 'a', 'm', 'i', 'c', '_', 'v', 'a',
        'r', 's', '"', ':'] + opt_bool_text(e.with_dynamic_vars) + seq!['}']
}

/// The JSON of one descriptor, fields in declaration order.
pub open spec fn endpoint_text(e: Endpoint) -> Seq<char> {
    ep_head_text(e) + ep_auth_text(e) + ep_tail_text(e)
}

/// The JSON object body of the whole listing, comma-joined members.
pub open spec fn listing_text(entries: Seq<(String, Endpoint)>, i: int) -> Seq<char>
    decreases entries.len() - i,
{
    if i < 0 || i >= entries.len() {
        Seq::empty()
    } else if i == entries.len() - 1 {
        quote_text(entries[i].0@) + seq![':'] + endpoint_text(entries[i].1)
    } else {
        quote_text(entries[i].0@) + seq![':'] + endpoint_text(entries[i].1) + seq![',']
            + listing_text(entries, i + 1)
    }
}

fn push_opt_u64(d: &Option<u64>, out: &mut Vec<char>)
    ensures
        final(out)@ == old(out)@ + opt_u64_text(*d),
{
    match d {
        Some(n) => {
            let t = u64_to_string(*n);
            push_chars(out, t.as_str());
        },
        None => {
            push_chars(out, "null");
            proof {
                reveal_strlit("null");
                assert("null"@ =~= seq!['n', 'u', 'l', 'l']);
                assert(out@ =~= old(out)@ + opt_u64_text(*d));
            }
        },
    }
}

fn push_opt_u16(d: &Option<u16>, out: &mut Vec<char>)
    ensures
        final(out)@ == old(out)@ + opt_u16_text(*d),
{
    match d {
        Some(n) => {
            let t = u64_to_string(*n as u64);
            push_chars(out, t.as_str());
        },
        None => {
            push_chars(out, "null");
            proof {
                reveal_strlit("null");
                assert("null"@ =~= seq!['n', 'u', 'l', 'l']);
                assert(out@ =~= old(out)@ + opt_u16_text(*d));
            }
        },
    }
}

fn push_opt_bool(d: &Option<bool>, out: &mut Vec<char>)
    ensures
        final(out)@ == old(out)@ + opt_bool_text(*d),
{
    match d {
        Some(b) => {
            if *b {
                push_chars(out, "true");
                proof {
                    reveal_strlit("true");
                    assert("true"@ =~= seq!['t', 'r', 'u', 'e']);
                    assert(out@ =~= old(out)@ + opt_bool_text(*d));
                }
            } else {
                push_chars(out, "false");
                proof {
                    reveal_strlit("false");
                    assert("false"@ =~= seq!['f', 'a', 'l', 's', 'e']);
                    assert(out@ =~= old(out)@ + opt_bool_text(*d));
                }
            }
        },
        None => {
            push_chars(out, "null");
            proof {
                reveal_strlit("null");
                assert("null"@ =~= seq!['n', 'u', 'l', 'l']);
                assert(out@ =~= old(out)@ + opt_bool_text(*d));
            }
        },
    }
}

/// Writes the method list as a JSON array of strings.
#[verifier::loop_isolation(false)]
fn push_methods(ms: &Vec<String>, out: &mut Vec<char>)
    ensures
        final(out)@ == old(out)@ + methods_text(ms@, 0),
{
    let n = ms.len();
    let mut i: usize = 0;
    while i < n
        invariant
            0 <= i <= n,
            out@ + methods_text(ms@, i as int) == old(out)@ + methods_text(ms@, 0),
        decreases n - i,
    {
        write_quoted(&ms[i], out);
        if i < n - 1 {
            out.push(',');
        }
        proof {
            assert(out@ + methods_text(ms@, i + 1) =~= old(out)@ + methods_text(ms@, 0));
        }
        i += 1;
    }
    proof {
        assert(methods_text(ms@, n as int) =~= Seq::<char>::empty());
        assert(out@ =~= old(out)@ + methods_text(ms@, 0));
    }
}

#[verifier::rlimit(100)]
fn push_endpoint(e: &Endpoint, out: &mut Vec<char>)
    ensures
        final(out)@ == old(out)@ + endpoint_text(*e),
{
    proof {
        reveal_strlit("{\"method\":[");
        reveal_strlit("],\"file\":");
        reveal_strlit(",\"status_code\":");
        reveal_strlit(",\"authentication\":");
        reveal_strlit(",\"delay\":");
        reveal_strlit(",\"rate_limit\":");
        reveal_strlit(",\"with_dynamic_vars\":");
        reveal_strlit("{\"requests\":");
        reveal_strlit(",\"window_ms\":");
        reveal_strlit("null");
        assert("null"@ =~= seq!['n', 'u', 'l', 'l']);
    }
    push_chars(out, "{\"method\":[");
    proof {
        assert("{\"method\":["@ =~= seq!['{', '"', 'm', 'e', 't', 'h', 'o', 'd', '"', ':', '[']);
    }
    push_methods(&e.method, out);
    push_chars(out, "],\"file\":");
    proof {
        assert("],\"file\":"@ =~= seq![']', ',', '"', 'f', 'i', 'l', 'e', '"', ':']);
    }
    write_quoted(&e.file, out);
    push_chars(out, ",\"status_code\":");
    proof {
        assert(",\"status_code\":"@ =~= seq![',', '"', 's', 't', 'a', 't', 'u', 's', '_', 'c',
            'o', 'd', 'e', '"', ':']);
    }
    push_opt_u16(&e.status_code, out);
    let ghost after_head = out@;
    proof {
        assert(after_head =~= old(out)@ + ep_head_text(*e));
    }
    match &e.authentication {
        Some(a) => {
            push_chars(out, ",\"authentication\":");
            proof {
                assert(",\"authentication\":"@ =~= seq![',', '"', 'a', 'u', 't', 'h', 'e', 'n',
                    't', 'i', 'c', 'a', 't', 'i', 'o', 'n', '"', ':']);
            }
            write_quoted(a, out);
        },
        None => {},
    }
    let ghost after_auth = out@;
    proof {
        assert(after_auth =~= after_head + ep_auth_text(*e));
    }
    push_chars(out, ",\"delay\":");
    proof {
        assert(",\"delay\":"@ =~= seq![',', '"', 'd', 'e', 'l', 'a', 'y', '"', ':']);
    }
    push_opt_u64(&e.delay, out);
    push_chars(out, ",\"rate_limit\":");
    proof {
        assert(",\"rate_limit\":"@ =~= seq![',', '"', 'r', 'a', 't', 'e', '_', 'l', 'i', 'm',
            'i', 't', '"', ':']);
    }
    match &e.rate_limit {
        Some(l) => {
            push_chars(out, "{\"requests\":");
            proof {
                assert("{\"requests\":"@ =~= seq!['{', '"', 'r', 'e', 'q', 'u', 'e', 's', 't',
                    's', '"', ':']);
            }
            let rq = u64_to_string(l.requests as u64);
            push_chars(out, rq.as_str());
            push_chars(out, ",\"window_ms\":");
            proof {
                assert(",\"window_ms\":"@ =~= seq![',', '"', 'w', 'i', 'n', 'd', 'o', 'w', '_',
                    'm', 's', '"', ':']);
            }
            let wm = u64_to_string(l.window_ms);
            push_chars(out, wm.as_str());
            out.push('}');
        },
        None => {
            push_chars(out, "null");
        },
    }
    push_chars(out, ",\"with_dynamic_vars\":");
    proof {
        assert(",\"with_dynamic_vars\":"@ =~= seq![',', '"', 'w', 'i', 't', 'h', '_', 'd', 'y',
            'n', 'a', 'm', 'i', 'c', '_', 'v', 'a', 'r', 's', '"', ':']);
    }
    push_opt_bool(&e.with_dynamic_vars, out);
    out.push('}');
    proof {
        assert(out@ =~= after_auth + ep_tail_text(*e));
        assert(out@ =~= old(out)@ + endpoint_text(*e));
    }
}

/// Renders the current registry contents as one JSON object, path to
/// descriptor, in insertion order.
#[verifier::loop_isolation(false)]
#[verifier::rlimit(60)]
pub fn list_endpoint(endpoints: &Endpoints) -> (r: String)
    ensures
        r@ == seq!['{'] + listing_text(endpoints.entry_seq(), 0) + seq!['}'],
{
    let entries = endpoints.snapshot();
    let mut out: Vec<char> = Vec::new();
    out.push('{');
    let ghost base = out@;
    let n = entries.len();
    let mut i: usize = 0;
    while i < n
        invariant
            0 <= i <= n,
            out@ + listing_text(entries@, i as int) == base + listing_text(entries@, 0),
        decreases n - i,
    {
        write_quoted(&entries[i].0, &mut out);
        out.push(':');
        push_endpoint(&entries[i].1, &mut out);
        if i < n - 1 {
            out.push(',');
        }
        proof {
            assert(out@ + listing_text(entries@, i + 1) =~= base + listing_text(entries@, 0));
        }
        i += 1;
    }
    proof {
        assert(listing_text(entries@, n as int) =~= Seq::<char>::empty());
    }
    out.push('}');
    proof {
        assert(out@ =~= seq!['{'] + listing_text(endpoints.entry_seq(), 0) + seq!['}']);
    }
    chars_string(&out)
}

} // verus!
