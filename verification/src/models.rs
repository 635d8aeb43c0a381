//! The data model: endpoint descriptors, policies, request envelopes, and
//! the error kinds the dispatch pipeline can end in.

use vstd::prelude::*;
use crate::json::JsonValue;

verus! {

/// A fixed-window rate-limit budget: `requests` admissions per `window_ms`.
#[derive(Clone)]
pub struct RateLimit {
    pub requests: usize,
    pub window_ms: u64,
}

/// One registered virtual endpoint: its policy envelope and the reference
/// to the stored response body.
#[derive(Clone)]
pub struct Endpoint {
    pub method: Vec<String>,
    pub file: String,
    pub status_code: Option<u16>,
    pub authentication: Option<String>,
    pub delay: Option<u64>,
    pub rate_limit: Option<RateLimit>,
    pub with_dynamic_vars: Option<bool>,
}

/// The credentials a stored auth policy may carry.
pub struct AuthData {
    pub username: Option<String>,
    pub password: Option<String>,
    pub token_data: Option<String>,
}

/// The JSON envelope of a GraphQL request.
pub struct GraphQLRequest {
    pub query: String,
    pub operation_name: Option<String>,
}

/// The JSON envelope of a mock gRPC call.
pub struct GrpcMockRequest {
    pub service: String,
    pub method: String,
    pub input: JsonValue,
}

/// A registered gRPC mock response.
pub struct GrpcMockResponse {
    pub output: JsonValue,
    pub delay_ms: Option<u64>,
    pub status: Option<u16>,
}

/// Marker for the admin multipart parser.
pub struct MultipartHandler;

/// The terminal outcomes a gate or adapter can raise; each maps to one
/// HTTP status.
#[derive(PartialEq, Eq, Structural, Clone, Copy, Debug)]
pub enum ErrorKind {
    NotFound,
    Unauthorized,
    MethodNotAllowed,
    RateLimited,
    InvalidGraphQLRequest,
    InvalidMultipart,
    FileError,
    Utf8Error,
}

#[derive(Debug)]
pub struct RateLimited;

#[derive(Debug)]
pub struct NotFound;

#[derive(Debug)]
pub struct Unauthorized;

#[derive(Debug)]
pub struct MethodNotAllowed;

#[derive(Debug)]
pub struct InvalidMultipart;

#[derive(Debug)]
pub struct FileError;

#[derive(Debug)]
pub struct Utf8Error;

#[derive(Debug)]
pub struct InvalidGraphQLRequest;

/// The status a plain response carries: 200 when unset, the stored value in
/// [100, 599], and 404 for a stored value out of that range.
pub open spec fn plain_status(code: Option<u16>) -> u16 {
    match code {
        Option::None => 200,
        Option::Some(c) => if 100 <= c && c <= 599 {
            c
        } else {
            404
        },
    }
}

/// The status an adapter response carries: 200 when unset, the stored
/// value whenever the transport can carry it (100 to 999), and 200 for a
/// stored value outside that range.
pub open spec fn adapter_status(code: Option<u16>) -> u16 {
    match code {
        Option::None => 200,
        Option::Some(c) => if 100 <= c && c <= 999 {
            c
        } else {
            200
        },
    }
}

pub fn plain_status_of(code: &Option<u16>) -> (r: u16)
    ensures
        r == plain_status(*code),
{
    match code {
        Option::None => 200,
        Option::Some(c) => if 100 <= *c && *c <= 599 {
            *c
        } else {
            404
        },
    }
}

pub fn adapter_status_of(code: &Option<u16>) -> (r: u16)
    ensures
        r == adapter_status(*code),
{
    match code {
        Option::None => 200,
        Option::Some(c) => if 100 <= *c && *c <= 999 {
            *c
        } else {
            200
        },
    }
}

} // verus!
