//! The dispatch pipeline: fingerprint, lookup, method gate, auth gate,
//! rate gate, then the adapters and the plain response.
//!
//! A request that fails the method check or the authentication check
//! leaves the rate-limit ledger untouched, so an unauthorized call is
//! never counted against a budget.

use vstd::prelude::*;
use crate::auth::{auth_ok, validate_auth};
use crate::chars::{str_chars, has_substring, bytes_to_string, copy_bytes, utf8_decode};
use crate::graphql::{handle_graphql, process_graphql_spec, query_marker};
use crate::grpc::{handle_grpc, grpc_envelope, mock_outcome};
use crate::grpc_registry::{GrpcRegistry, grpc_key};
use crate::models::{Endpoint, ErrorKind, GrpcMockResponse, plain_status, plain_status_of, adapter_status};
use crate::params::{full_url_spec, reconstruct_full_url, body_params_of, params_of_request, get_body_from_request, get_params_from_request};
use crate::rate_limit::{RateLimitTracker, rate_check_rel, check_rate_limit_at, deref_limit};
use crate::registry::Endpoints;
use crate::subst::{Params, param_map, subst_text, replace_variables};

verus! {

/// ASCII lower case, as the case-insensitive method match uses it.
pub open spec fn lower_char(c: char) -> char {
    if 'A' <= c && c <= 'Z' {
        ((c as u8) + 32) as char
    } else {
        c
    }
}

/// Case-insensitive equality of two method names.
pub open spec fn eq_icase(a: Seq<char>, b: Seq<char>) -> bool {
    a.len() == b.len() && (forall|i: int|
        0 <= i < a.len() ==> lower_char(#[trigger] a[i]) == lower_char(b[i]))
}

/// The request method stands in the descriptor's method list.
pub open spec fn method_allowed(methods: Seq<String>, method: Seq<char>) -> bool {
    exists|i: int| 0 <= i < methods.len() && eq_icase(#[trigger] methods[i]@, method)
}

fn lower_exec(c: char) -> (r: char)
    ensures
        r == lower_char(c),
{
    if 'A' <= c && c <= 'Z' {
        ((c as u8) + 32) as char
    } else {
        c
    }
}

fn eq_icase_exec(a: &str, b: &str) -> (r: bool)
    ensures
        r == eq_icase(a@, b@),
{
    let av = str_chars(a);
    let bv = str_chars(b);
    if av.len() != bv.len() {
        return false;
    }
    let n = av.len();
    let mut i: usize = 0;
    while i < n
        invariant
            0 <= i <= n,
            n == av@.len() == bv@.len(),
            av@ == a@,
            bv@ == b@,
            forall|k: int| 0 <= k < i ==> lower_char(#[trigger] a@[k]) == lower_char(b@[k]),
        decreases n - i,
    {
        if lower_exec(av[i]) != lower_exec(bv[i]) {
            return false;
        }
        i += 1;
    }
    true
}

/// The method gate's test.
pub fn method_gate(methods: &Vec<String>, method: &str) -> (r: bool)
    ensures
        r == method_allowed(methods@, method@),
{
    let mut i: usize = 0;
    while i < methods.len()
        invariant
            0 <= i <= methods@.len(),
            forall|k: int| 0 <= k < i ==> !eq_icase(#[trigger] methods@[k]@, method@),
        decreases methods@.len() - i,
    {
        if eq_icase_exec(methods[i].as_str(), method) {
            return true;
        }
        i += 1;
    }
    false
}

/// The auth gate: with no policy stored, every request passes it.
pub open spec fn auth_gate(policy: Option<Seq<char>>, header: Option<Seq<char>>) -> bool {
    match policy {
        Option::None => true,
        Option::Some(p) => auth_ok(Some(p), header),
    }
}

pub open spec fn opt_str_view(o: Option<String>) -> Option<Seq<char>> {
    match o {
        Option::Some(s) => Some(s@),
        Option::None => None,
    }
}

pub open spec fn qview(q: Option<Params>) -> Option<Seq<(String, String)>> {
    match q {
        Option::Some(p) => Some(p.entry_seq()),
        Option::None => None,
    }
}

/// What the lookup, method and auth gates decide, before the rate gate.
pub open spec fn gate_spec(
    eps: Map<Seq<char>, Endpoint>,
    url: Seq<char>,
    method: Seq<char>,
    header: Option<Seq<char>>,
) -> Result<Endpoint, ErrorKind> {
    if !eps.contains_key(url) {
        Err(ErrorKind::NotFound)
    } else {
        let ep = eps[url];
        if !method_allowed(ep.method@, method) {
            Err(ErrorKind::MethodNotAllowed)
        } else if !auth_gate(opt_str_view(ep.authentication), header) {
            Err(ErrorKind::Unauthorized)
        } else {
            Ok(ep)
        }
    }
}

/// Runs the gates in order for one request. A request the method or auth
/// gate rejects leaves the ledger exactly as it was; only a request that
/// passed both is counted against its budget.
pub fn dispatch_check<'a>(
    endpoints: &'a Endpoints,
    rate_limiter: &mut RateLimitTracker,
    method: &str,
    path: &str,
    query_params: &Option<Params>,
    auth_header: &Option<String>,
    now_ms: u64,
) -> (r: Result<&'a Endpoint, ErrorKind>)
    requires
        endpoints.wf(),
        old(rate_limiter).wf(),
    ensures
        final(rate_limiter).wf(),
        ({
            let url = full_url_spec(path@, qview(*query_params));
            let gate = gate_spec(endpoints@, url, method@, opt_str_view(*auth_header));
            match r {
                Ok(ep) => gate == Ok::<Endpoint, ErrorKind>(*ep) && endpoints@.contains_key(url)
                    && endpoints@[url] == *ep && rate_check_rel(
                    old(rate_limiter)@,
                    final(rate_limiter)@,
                    true,
                    path@,
                    method@,
                    ep.rate_limit,
                    now_ms,
                ),
                Err(k) => if k is RateLimited {
                    gate is Ok && rate_check_rel(
                        old(rate_limiter)@,
                        final(rate_limiter)@,
                        false,
                        path@,
                        method@,
                        gate.unwrap().rate_limit,
                        now_ms,
                    )
                } else {
                    gate == Err::<Endpoint, ErrorKind>(k) && final(rate_limiter)@ == old(
                        rate_limiter,
                    )@
                },
            }
        }),
{
    let full_url = reconstruct_full_url(path, query_params);
    let ep = match endpoints.get(full_url.as_str()) {
        Some(e) => e,
        None => {
            return Err(ErrorKind::NotFound);
        },
    };
    if !method_gate(&ep.method, method) {
        return Err(ErrorKind::MethodNotAllowed);
    }
    match &ep.authentication {
        Some(a) => {
            let header = match auth_header {
                Some(h) => Some(h.clone()),
                None => None,
            };
            if !validate_auth(Some(a.clone()), header) {
                return Err(ErrorKind::Unauthorized);
            }
        },
        None => {},
    }
    let limit = match &ep.rate_limit {
        Some(l) => Some(l),
        None => None,
    };
    proof {
        assert(deref_limit(
            match &ep.rate_limit {
                Some(l) => Some(l),
                None => None::<&crate::models::RateLimit>,
            },
        ) == ep.rate_limit);
    }
    match check_rate_limit_at(path, method, limit, rate_limiter, now_ms) {
        Ok(_) => Ok(ep),
        Err(_) => Err(ErrorKind::RateLimited),
    }
}

pub open spec fn opt_bytes_view(b: Option<&Vec<u8>>) -> Option<Seq<u8>> {
    match b {
        Option::Some(v) => Some(v@),
        Option::None => None,
    }
}

/// What the gRPC adapter and the plain path answer once the GraphQL
/// adapter has passed: the mock's outcome when the body names a registered
/// mock, else the stored content, substituted only when the descriptor
/// asks for it, `ts` standing for the clock reading the substitutor would
/// use.
pub open spec fn render_rest(
    ep: Endpoint,
    url: Seq<char>,
    body: Option<Seq<u8>>,
    content: Seq<char>,
    grpc: Map<Seq<char>, GrpcMockResponse>,
    ts: Seq<char>,
) -> (u16, Seq<char>, Option<u64>) {
    let text = match body {
        Option::Some(b) => utf8_decode(b),
        Option::None => None,
    };
    let grpc_hit = match text {
        Option::Some(t) => match grpc_envelope(t) {
            Option::Some(sm) => grpc.contains_key(grpc_key(sm.0, sm.1)),
            Option::None => false,
        },
        Option::None => false,
    };
    if grpc_hit {
        let t = text.unwrap();
        let sm = grpc_envelope(t).unwrap();
        mock_outcome(grpc[grpc_key(sm.0, sm.1)])
    } else {
        let params = match body {
            Option::Some(b) => body_params_of(b),
            Option::None => params_of_request(url),
        };
        let out = if ep.with_dynamic_vars == Some(true) {
            subst_text(content, params, ts)
        } else {
            content
        };
        (plain_status(ep.status_code), out, None)
    }
}

/// What the adapter selection and the plain path answer. A body carrying
/// the quoted `query` marker goes to the GraphQL adapter: a processed
/// response answers with the descriptor's status, a missed mock falls
/// through, and a processing failure is terminal. Everything else goes to
/// the gRPC adapter and the plain path.
pub open spec fn render_spec(
    ep: Endpoint,
    url: Seq<char>,
    body: Option<Seq<u8>>,
    content: Seq<char>,
    grpc: Map<Seq<char>, GrpcMockResponse>,
    ts: Seq<char>,
) -> Result<(u16, Seq<char>, Option<u64>), ()> {
    let text = match body {
        Option::Some(b) => utf8_decode(b),
        Option::None => None,
    };
    match text {
        Option::Some(t) => if has_substring(t, query_marker()) {
            match process_graphql_spec(t, content) {
                Ok(o) => match o {
                    Option::Some(g) => Ok((adapter_status(ep.status_code), g, None)),
                    Option::None => Ok(render_rest(ep, url, body, content, grpc, ts)),
                },
                Err(_) => Err(()),
            }
        } else {
            Ok(render_rest(ep, url, body, content, grpc, ts))
        },
        Option::None => Ok(render_rest(ep, url, body, content, grpc, ts)),
    }
}

/// Substitution identity: with dynamic variables off, a request without a
/// body is answered with the stored content byte-identical, under the
/// descriptor's plain status.
pub proof fn lemma_no_vars_identity(
    ep: Endpoint,
    url: Seq<char>,
    content: Seq<char>,
    grpc: Map<Seq<char>, GrpcMockResponse>,
    ts: Seq<char>,
)
    requires
        ep.with_dynamic_vars != Some(true),
    ensures
        render_spec(ep, url, None, content, grpc, ts) == Ok::<(u16, Seq<char>, Option<u64>), ()>(
            (plain_status(ep.status_code), content, None),
        ),
{
}

/// Selects the adapter and renders the response; the third part of a
/// success is a delay the chosen gRPC mock asks the caller to apply, and
/// the error is the GraphQL adapter's terminal failure.
pub fn dispatch_render(
    ep: &Endpoint,
    full_url: &str,
    body: Option<&Vec<u8>>,
    file_content: &str,
    grpc_registry: &GrpcRegistry,
) -> (r: Result<(u16, String, Option<u64>), ErrorKind>)
    requires
        grpc_registry.wf(),
    ensures
        exists|ts: Seq<char>|
            ({
                let sp = #[trigger] render_spec(
                    *ep,
                    full_url@,
                    opt_bytes_view(body),
                    file_content@,
                    grpc_registry@,
                    ts,
                );
                match r {
                    Ok(p) => sp matches Ok(q) && q.0 == p.0 && q.1 == p.1@ && q.2 == p.2,
                    Err(k) => sp is Err && k == ErrorKind::InvalidGraphQLRequest,
                }
            }),
{
    let ghost bview: Option<Seq<u8>> = match body {
        Some(b) => Some(b@),
        None => None,
    };
    match body {
        Some(bytes) => {
            match bytes_to_string(copy_bytes(bytes)) {
                Some(text) => {
                    proof {
                        assert(utf8_decode(bytes@) == Some(text@));
                    }
                    match handle_graphql(text.as_str(), ep, file_content) {
                        Ok(Some((st, b))) => {
                            proof {
                                let ts = Seq::<char>::empty();
                                let sp = render_spec(
                                    *ep,
                                    full_url@,
                                    opt_bytes_view(body),
                                    file_content@,
                                    grpc_registry@,
                                    ts,
                                );
                                assert(sp matches Ok(q) && q.0 == st && q.1 == b@ && q.2
                                    == None::<u64>);
                            }
                            return Ok((st, b, None));
                        },
                        Ok(None) => {},
                        Err(_) => {
                            proof {
                                let ts = Seq::<char>::empty();
                                let sp = render_spec(
                                    *ep,
                                    full_url@,
                                    opt_bytes_view(body),
                                    file_content@,
                                    grpc_registry@,
                                    ts,
                                );
                                assert(sp is Err);
                            }
                            return Err(ErrorKind::InvalidGraphQLRequest);
                        },
                    }
                    match handle_grpc(text.as_str(), grpc_registry) {
                        Some((st, b, d)) => {
                            proof {
                                let ts = Seq::<char>::empty();
                                let sp = render_spec(
                                    *ep,
                                    full_url@,
                                    opt_bytes_view(body),
                                    file_content@,
                                    grpc_registry@,
                                    ts,
                                );
                                assert(sp matches Ok(q) && q.0 == st && q.1 == b@ && q.2 == d);
                            }
                            return Ok((st, b, d));
                        },
                        None => {},
                    }
                },
                None => {},
            }
        },
        None => {},
    }
    let status = plain_status_of(&ep.status_code);
    let use_vars = match ep.with_dynamic_vars {
        Some(true) => true,
        _ => false,
    };
    if use_vars {
        let params: Params = match body {
            Some(bytes) => get_body_from_request(copy_bytes(bytes)),
            None => get_params_from_request(full_url),
        };
        let out = replace_variables(file_content, &params);
        proof {
            let ts = choose|ts: Seq<char>|
                out@ == #[trigger] subst_text(file_content@, param_map(params@), ts);
            assert(render_spec(*ep, full_url@, bview, file_content@, grpc_registry@, ts)
                matches Ok(q) && q.1 == out@);
        }
        Ok((status, out, None))
    } else {
        let out = file_content.to_owned();
        proof {
            let ts = Seq::<char>::empty();
            assert(render_spec(*ep, full_url@, bview, file_content@, grpc_registry@, ts)
                matches Ok(q) && q.1 == out@);
        }
        Ok((status, out, None))
    }
}

/// Serves one dynamic request from given inputs: the gates in order, then
/// — when the stored body could be read — the adapters and the plain
/// path. On success the result carries the status, the response body, the
/// descriptor's delay for the caller to apply before responding, and the
/// gRPC mock's delay, if that adapter answered. A GraphQL body that the
/// adapter tried and failed on ends in the terminal invalid-GraphQL error.
pub fn serve_dynamic_response(
    method: &str,
    path: &str,
    query_params: &Option<Params>,
    auth_header: &Option<String>,
    endpoints: &Endpoints,
    rate_limiter: &mut RateLimitTracker,
    body: Option<&Vec<u8>>,
    grpc_registry: &GrpcRegistry,
    file_content: &Option<String>,
    now_ms: u64,
) -> (r: Result<(u16, String, Option<u64>, Option<u64>), ErrorKind>)
    requires
        endpoints.wf(),
        old(rate_limiter).wf(),
        grpc_registry.wf(),
    ensures
        final(rate_limiter).wf(),
        ({
            let url = full_url_spec(path@, qview(*query_params));
            let gate = gate_spec(endpoints@, url, method@, opt_str_view(*auth_header));
            match r {
                Ok(resp) => gate is Ok && file_content is Some && rate_check_rel(
                    old(rate_limiter)@,
                    final(rate_limiter)@,
                    true,
                    path@,
                    method@,
                    gate.unwrap().rate_limit,
                    now_ms,
                ) && resp.2 == gate.unwrap().delay && (exists|ts: Seq<char>|
                    ({
                        let sp = #[trigger] render_spec(
                            gate.unwrap(),
                            url,
                            opt_bytes_view(body),
                            file_content.unwrap()@,
                            grpc_registry@,
                            ts,
                        );
                        sp matches Ok(q) && q.0 == resp.0 && q.1 == resp.1@ && q.2 == resp.3
                    })),
                Err(k) => if k is RateLimited {
                    gate is Ok && rate_check_rel(
                        old(rate_limiter)@,
                        final(rate_limiter)@,
                        false,
                        path@,
                        method@,
                        gate.unwrap().rate_limit,
                        now_ms,
                    )
                } else if k is NotFound && gate is Ok {
                    file_content is None && rate_check_rel(
                        old(rate_limiter)@,
                        final(rate_limiter)@,
                        true,
                        path@,
                        method@,
                        gate.unwrap().rate_limit,
                        now_ms,
                    )
                } else if k is InvalidGraphQLRequest {
                    gate is Ok && file_content is Some && rate_check_rel(
                        old(rate_limiter)@,
                        final(rate_limiter)@,
                        true,
                        path@,
                        method@,
                        gate.unwrap().rate_limit,
                        now_ms,
                    ) && (exists|ts: Seq<char>|
                        #[trigger] render_spec(
                            gate.unwrap(),
                            url,
                            opt_bytes_view(body),
                            file_content.unwrap()@,
                            grpc_registry@,
                            ts,
                        ) is Err)
                } else {
                    gate == Err::<Endpoint, ErrorKind>(k) && final(rate_limiter)@ == old(
                        rate_limiter,
                    )@
                },
            }
        }),
{
    let ep = match dispatch_check(
        endpoints,
        rate_limiter,
        method,
        path,
        query_params,
        auth_header,
        now_ms,
    ) {
        Ok(e) => e,
        Err(k) => {
            return Err(k);
        },
    };
    let content = match file_content {
        Some(c) => c,
        None => {
            return Err(ErrorKind::NotFound);
        },
    };
    let full_url = reconstruct_full_url(path, query_params);
    match dispatch_render(ep, full_url.as_str(), body, content.as_str(), grpc_registry) {
        Ok((status, out, grpc_delay)) => Ok((status, out, ep.delay, grpc_delay)),
        Err(k) => Err(k),
    }
}

/// Maps a terminal error to the response the server sends for it; kinds
/// left to the framework's default handling yield nothing.
pub fn handle_rejection(err: &ErrorKind) -> (r: Option<(u16, String)>)
    ensures
        match err {
            ErrorKind::Unauthorized => r matches Some(p) && p.0 == 401 && p.1@ == seq![
                'U', 'n', 'a', 'u', 't', 'h', 'o', 'r', 'i', 'z', 'e', 'd', '\n',
            ],
            ErrorKind::RateLimited => r matches Some(p) && p.0 == 429 && p.1@ == seq![
                'R', 'a', 't', 'e', ' ', 'l', 'i', 'm', 'i', 't', ' ', 'e', 'x', 'c', 'e', 'e',
                'd', 'e', 'd', '\n',
            ],
            ErrorKind::NotFound => r matches Some(p) && p.0 == 404 && p.1@ == seq![
                'R', 'e', 's', 'o', 'u', 'r', 'c', 'e', ' ', 'n', 'o', 't', ' ', 'f', 'o', 'u',
                'n', 'd', '\n',
            ],
            ErrorKind::MethodNotAllowed => r matches Some(p) && p.0 == 405 && p.1@ == seq![
                'M', 'e', 't', 'h', 'o', 'd', ' ', 'n', 'o', 't', ' ', 'a', 'l', 'l', 'o', 'w',
                'e', 'd', '\n',
            ],
            _ => r is None,
        },
{
    match err {
        ErrorKind::Unauthorized => {
            let b: String = String::from_str("Unauthorized\n");
            proof {
                reveal_strlit("Unauthorized\n");
                assert(b@ =~= seq![
                    'U', 'n', 'a', 'u', 't', 'h', 'o', 'r', 'i', 'z', 'e', 'd', '\n',
                ]);
            }
            Some((401, b))
        },
        ErrorKind::RateLimited => {
            let b: String = String::from_str("Rate limit exceeded\n");
            proof {
                reveal_strlit("Rate limit exceeded\n");
                assert(b@ =~= seq![
                    'R', 'a', 't', 'e', ' ', 'l', 'i', 'm', 'i', 't', ' ', 'e', 'x', 'c', 'e',
                    'e', 'd', 'e', 'd', '\n',
                ]);
            }
            Some((429, b))
        },
        ErrorKind::NotFound => {
            let b: String = String::from_str("Resource not found\n");
            proof {
                reveal_strlit("Resource not found\n");
                assert(b@ =~= seq![
                    'R', 'e', 's', 'o', 'u', 'r', 'c', 'e', ' ', 'n', 'o', 't', ' ', 'f', 'o',
                    'u', 'n', 'd', '\n',
                ]);
            }
            Some((404, b))
        },
        ErrorKind::MethodNotAllowed => {
            let b: String = String::from_str("Method not allowed\n");
            proof {
                reveal_strlit("Method not allowed\n");
                assert(b@ =~= seq![
                    'M', 'e', 't', 'h', 'o', 'd', ' ', 'n', 'o', 't', ' ', 'a', 'l', 'l', 'o',
                    'w', 'e', 'd', '\n',
                ]);
            }
            Some((405, b))
        },
        _ => None,
    }
}

} // verus!
