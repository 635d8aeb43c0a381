//! The gRPC adapter: decodes the JSON envelope, looks the mock up by
//! `service.method`, and returns its output with its status; the caller
//! applies the mock's delay.

use vstd::prelude::*;
use crate::json::{JsonValue, json_parse, parse_json, json_get_spec, json_str_spec, json_get, json_str, text_of, to_json_string};
use crate::grpc_registry::{GrpcRegistry, grpc_key};
use crate::models::{GrpcMockRequest, GrpcMockResponse, adapter_status, adapter_status_of};

verus! {

pub open spec fn service_key() -> Seq<char> {
    seq!['s', 'e', 'r', 'v', 'i', 'c', 'e']
}

pub open spec fn method_key() -> Seq<char> {
    seq!['m', 'e', 't', 'h', 'o', 'd']
}

pub open spec fn rpc_key() -> Seq<char> {
    seq!['r', 'p', 'c']
}

pub open spec fn input_key() -> Seq<char> {
    seq!['i', 'n', 'p', 'u', 't']
}

pub open spec fn request_key() -> Seq<char> {
    seq!['r', 'e', 'q', 'u', 'e', 's', 't']
}

/// The body the handler answers with when no mock is registered.
pub open spec fn mock_not_found_text() -> Seq<char> {
    seq![
        '{', '"', 'e', 'r', 'r', 'o', 'r', '"', ':', '"', 'M', 'o', 'c', 'k', ' ', 'n', 'o', 't',
        ' ', 'f', 'o', 'u', 'n', 'd', '"', '}',
    ]
}

/// The service and method a gRPC envelope names: the body must be a JSON
/// object with string `service` and `method` fields, the latter also read
/// under its wire name `rpc`.
pub open spec fn grpc_envelope(body: Seq<char>) -> Option<(Seq<char>, Seq<char>)> {
    match json_parse(body) {
        Option::None => None,
        Option::Some(v) => if !(v is Obj) {
            None
        } else {
            let svc = match json_get_spec(v, service_key()) {
                Option::Some(f) => json_str_spec(f),
                Option::None => None,
            };
            let mth = match json_get_spec(v, method_key()) {
                Option::Some(f) => json_str_spec(f),
                Option::None => match json_get_spec(v, rpc_key()) {
                    Option::Some(f) => json_str_spec(f),
                    Option::None => None,
                },
            };
            match (svc, mth) {
                (Some(s), Some(m)) => Some((s, m)),
                _ => None,
            }
        },
    }
}

/// What a mock lookup answers: the mock's status (defaulting to 200),
/// its output rendered as JSON, and its delay.
pub open spec fn mock_outcome(m: GrpcMockResponse) -> (u16, Seq<char>, Option<u64>) {
    (adapter_status(m.status), text_of(m.output), m.delay_ms)
}

/// Looks the request's mock up; the delay in the result is for the caller
/// to apply before responding.
pub fn process_grpc_mock(req: &GrpcMockRequest, registry: &GrpcRegistry) -> (r: Option<
    (u16, String, Option<u64>),
>)
    requires
        registry.wf(),
    ensures
        match r {
            Some(p) => registry@.contains_key(grpc_key(req.service@, req.method@))
                && mock_outcome(registry@[grpc_key(req.service@, req.method@)]) == (
                p.0,
                p.1@,
                p.2,
            ),
            None => !registry@.contains_key(grpc_key(req.service@, req.method@)),
        },
{
    match registry.get_mock(req.service.as_str(), req.method.as_str()) {
        Some(m) => {
            let body = to_json_string(&m.output);
            Some((adapter_status_of(&m.status), body, m.delay_ms))
        },
        None => None,
    }
}

/// Serves a mock gRPC call on the dedicated route: a missing mock answers
/// 404 with an error body instead of falling through.
pub fn grpc_handler(req: &GrpcMockRequest, registry: &GrpcRegistry) -> (r: (
    u16,
    String,
    Option<u64>,
))
    requires
        registry.wf(),
    ensures
        ({
            let key = grpc_key(req.service@, req.method@);
            if registry@.contains_key(key) {
                mock_outcome(registry@[key]) == (r.0, r.1@, r.2)
            } else {
                r.0 == 404 && r.1@ == mock_not_found_text() && r.2 is None
            }
        }),
{
    match process_grpc_mock(req, registry) {
        Some(p) => p,
        None => {
            let body: String = String::from_str("{\"error\":\"Mock not found\"}");
            proof {
                reveal_strlit("{\"error\":\"Mock not found\"}");
                assert(body@ =~= mock_not_found_text());
            }
            (404, body, None)
        },
    }
}

/// Tries the gRPC adapter on a request body: something only when the body
/// is a gRPC envelope naming a registered mock; the pipeline falls through
/// otherwise.
pub fn handle_grpc(body_str: &str, registry: &GrpcRegistry) -> (r: Option<
    (u16, String, Option<u64>),
>)
    requires
        registry.wf(),
    ensures
        match r {
            Some(p) => grpc_envelope(body_str@) matches Some(sm) && registry@.contains_key(
                grpc_key(sm.0, sm.1),
            ) && mock_outcome(registry@[grpc_key(sm.0, sm.1)]) == (p.0, p.1@, p.2),
            None => match grpc_envelope(body_str@) {
                Some(sm) => !registry@.contains_key(grpc_key(sm.0, sm.1)),
                None => true,
            },
        },
{
    proof {
        reveal_strlit("service");
        reveal_strlit("method");
        reveal_strlit("rpc");
        reveal_strlit("input");
        reveal_strlit("request");
        assert("service"@ =~= service_key());
        assert("method"@ =~= method_key());
        assert("rpc"@ =~= rpc_key());
        assert("input"@ =~= input_key());
        assert("request"@ =~= request_key());
    }
    let v = match parse_json(body_str) {
        Some(v) => v,
        None => {
            return None;
        },
    };
    let is_obj = match &v {
        JsonValue::Obj(_) => true,
        _ => false,
    };
    if !is_obj {
        return None;
    }
    let service: String = match json_get(&v, "service") {
        Some(f) => match json_str(f) {
            Some(s) => s.clone(),
            None => {
                return None;
            },
        },
        None => {
            return None;
        },
    };
    let method: String = match json_get(&v, "method") {
        Some(f) => match json_str(f) {
            Some(s) => s.clone(),
            None => {
                return None;
            },
        },
        None => match json_get(&v, "rpc") {
            Some(f) => match json_str(f) {
                Some(s) => s.clone(),
                None => {
                    return None;
                },
            },
            None => {
                return None;
            },
        },
    };
    let req = GrpcMockRequest { service, method, input: JsonValue::Null };
    process_grpc_mock(&req, registry)
}

} // verus!
