//! A programmable HTTP mock server's core: operators register virtual
//! endpoints bound to stored JSON bodies and policy envelopes, and incoming
//! requests are served through an ordered chain of gates — method match,
//! authentication, rate limiting — followed by content adapters for plain
//! JSON with variable substitution, GraphQL field projection, and mock
//! gRPC lookup.

pub mod admin;
pub mod auth;
pub mod chars;
pub mod dispatch;
pub mod graphql;
pub mod grpc;
pub mod grpc_registry;
pub mod json;
pub mod models;
pub mod multipart;
pub mod numbers;
pub mod params;
pub mod rate_limit;
pub mod registry;
pub mod subst;
pub mod table;
