use mockiapi::dispatch::{handle_rejection, serve_dynamic_response};
use mockiapi::grpc_registry::GrpcRegistry;
use mockiapi::models::{Endpoint, ErrorKind, RateLimit};
use mockiapi::rate_limit::new_rate_limit;
use mockiapi::registry::Endpoints;
use mockiapi::subst::Params;
use mockiapi::table::StrTable;

fn status_of(err: ErrorKind) -> u16 {
    handle_rejection(&err).expect("unhandled rejection").0
}

#[test]
fn test_non_existent_endpoint() {
    let endpoints = Endpoints::new();
    let mut rate_limiter = new_rate_limit();
    let grpc = GrpcRegistry::new();

    let res = serve_dynamic_response(
        "GET",
        "/nonexistent",
        &None,
        &None,
        &endpoints,
        &mut rate_limiter,
        None,
        &grpc,
        &None,
        0,
    );

    let err = res.err().expect("lookup must fail");
    assert_eq!(status_of(err), 404);
}

#[test]
fn test_valid_request_without_auth() {
    let mut endpoints = Endpoints::new();
    endpoints.insert(
        "/public".to_string(),
        Endpoint {
            method: vec!["GET".to_string()],
            file: "uploads/file.json".to_string(),
            status_code: Some(200),
            rate_limit: None,
            authentication: None,
            delay: None,
            with_dynamic_vars: None,
        },
    );
    let mut rate_limiter = new_rate_limit();
    let grpc = GrpcRegistry::new();

    let res = serve_dynamic_response(
        "GET",
        "/public",
        &None,
        &None,
        &endpoints,
        &mut rate_limiter,
        None,
        &grpc,
        &Some("{}".to_string()),
        0,
    );

    let (status, body, _delay, _grpc_delay) = res.expect("request must pass");
    assert_eq!(status, 200);
    assert_eq!(body, "{}");
}

#[test]
fn test_valid_request_with_basic_auth() {
    let mut endpoints = Endpoints::new();
    endpoints.insert(
        "/protected".to_string(),
        Endpoint {
            method: vec!["GET".to_string()],
            file: "uploads/file.json".to_string(),
            status_code: Some(200),
            rate_limit: None,
            authentication: Some(String::from("{\"username\": \"user\", \"password\": \"pass\"}")),
            delay: None,
            with_dynamic_vars: None,
        },
    );
    let mut rate_limiter = new_rate_limit();
    let grpc = GrpcRegistry::new();

    let res = serve_dynamic_response(
        "GET",
        "/protected",
        &None,
        &Some("Basic dXNlcjpwYXNz".to_string()),
        &endpoints,
        &mut rate_limiter,
        None,
        &grpc,
        &Some("{}".to_string()),
        0,
    );

    let (status, _body, _delay, _grpc_delay) = res.expect("authorized request must pass");
    assert_eq!(status, 200);
}

#[test]
fn test_invalid_authentication() {
    let mut endpoints = Endpoints::new();
    endpoints.insert(
        "/protected".to_string(),
        Endpoint {
            method: vec!["GET".to_string()],
            file: "test.json".to_string(),
            status_code: Some(200),
            rate_limit: None,
            authentication: Some(
                String::from("{\"username\": \"user1\", \"password\": \"password1\"}"),
            ),
            delay: None,
            with_dynamic_vars: None,
        },
    );
    let mut rate_limiter = new_rate_limit();
    let grpc = GrpcRegistry::new();

    let res = serve_dynamic_response(
        "GET",
        "/protected",
        &None,
        &Some("Basic dXNlcjpwd2Q=".to_string()),
        &endpoints,
        &mut rate_limiter,
        None,
        &grpc,
        &Some("{}".to_string()),
        0,
    );

    let err = res.err().expect("wrong credentials must fail");
    assert_eq!(status_of(err), 401);
}

#[test]
fn test_valid_request_with_bearer_auth() {
    let mut endpoints = Endpoints::new();
    endpoints.insert(
        "/secure".to_string(),
        Endpoint {
            method: vec!["GET".to_string()],
            file: "uploads/file.json".to_string(),
            status_code: Some(200),
            rate_limit: None,
            authentication: Some(String::from("{\"tokenData\": \"SOME_LONG_TOKEN\"}")),
            delay: None,
            with_dynamic_vars: None,
        },
    );
    let mut rate_limiter = new_rate_limit();
    let grpc = GrpcRegistry::new();

    let res = serve_dynamic_response(
        "GET",
        "/secure",
        &None,
        &Some("Bearer SOME_LONG_TOKEN".to_string()),
        &endpoints,
        &mut rate_limiter,
        None,
        &grpc,
        &Some("{}".to_string()),
        0,
    );

    let (status, _body, _delay, _grpc_delay) = res.expect("bearer request must pass");
    assert_eq!(status, 200);
}

#[test]
fn test_rate_limit_exceeded() {
    let mut endpoints = Endpoints::new();
    endpoints.insert(
        "/rate-limited".to_string(),
        Endpoint {
            method: vec!["GET".to_string()],
            file: "test.json".to_string(),
            status_code: Some(200),
            rate_limit: Some(RateLimit { requests: 1, window_ms: 1000 }),
            authentication: None,
            delay: None,
            with_dynamic_vars: None,
        },
    );
    let mut rate_limiter = new_rate_limit();
    let grpc = GrpcRegistry::new();

    let first = serve_dynamic_response(
        "GET",
        "/rate-limited",
        &None,
        &None,
        &endpoints,
        &mut rate_limiter,
        None,
        &grpc,
        &Some("{}".to_string()),
        0,
    );
    assert!(first.is_ok());

    let second = serve_dynamic_response(
        "GET",
        "/rate-limited",
        &None,
        &None,
        &endpoints,
        &mut rate_limiter,
        None,
        &grpc,
        &Some("{}".to_string()),
        10,
    );

    let err = second.err().expect("second request must be limited");
    assert_eq!(status_of(err), 429);
}

#[test]
fn test_request_with_delay() {
    let mut endpoints = Endpoints::new();
    endpoints.insert(
        "/delayed".to_string(),
        Endpoint {
            method: vec!["GET".to_string()],
            file: "uploads/file.json".to_string(),
            status_code: Some(200),
            rate_limit: None,
            authentication: None,
            delay: Some(2000),
            with_dynamic_vars: None,
        },
    );
    let mut rate_limiter = new_rate_limit();
    let grpc = GrpcRegistry::new();

    let res = serve_dynamic_response(
        "GET",
        "/delayed",
        &None,
        &None,
        &endpoints,
        &mut rate_limiter,
        None,
        &grpc,
        &Some("{}".to_string()),
        0,
    );

    let (status, _body, delay, _grpc_delay) = res.expect("request must pass");
    assert_eq!(status, 200);
    assert_eq!(delay, Some(2000));
}

#[test]
fn test_extract_params_from_request() {
    let mut endpoints = Endpoints::new();
    endpoints.insert(
        "/api/user/123/item/456?id=789&name=John".to_string(),
        Endpoint {
            method: vec!["GET".to_string()],
            file: "uploads/dynamic_vars.json".to_string(),
            status_code: Some(200),
            rate_limit: None,
            authentication: None,
            delay: None,
            with_dynamic_vars: Some(true),
        },
    );
    let mut rate_limiter = new_rate_limit();
    let grpc = GrpcRegistry::new();

    let mut query: Params = StrTable::new();
    query.insert("id".to_string(), "789".to_string());
    query.insert("name".to_string(), "John".to_string());

    let template = "{\"user\":\"{{user}}\",\"item\":\"{{item}}\",\"id\":\"{{id}}\",\"name\":\"{{name}}\"}";
    let res = serve_dynamic_response(
        "GET",
        "/api/user/123/item/456",
        &Some(query),
        &None,
        &endpoints,
        &mut rate_limiter,
        None,
        &grpc,
        &Some(template.to_string()),
        0,
    );

    let (status, body, _delay, _grpc_delay) = res.expect("request must pass");
    let json_body: serde_json::Value =
        serde_json::from_str(&body).expect("Response is not valid JSON");

    assert_eq!(status, 200);
    assert_eq!(json_body["user"], "123");
    assert_eq!(json_body["item"], "456");
    assert_eq!(json_body["id"], "789");
    assert_eq!(json_body["name"], "John");
}
