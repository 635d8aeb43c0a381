use mockiapi::admin::{delete_endpoint, list_endpoint, register_endpoint};
use mockiapi::auth::validate_auth;
use mockiapi::dispatch::serve_dynamic_response;
use mockiapi::grpc_registry::GrpcRegistry;
use mockiapi::json::{to_json_string, JsonValue};
use mockiapi::models::{Endpoint, ErrorKind, MultipartHandler, RateLimit};
use mockiapi::params::{get_body_from_request, get_params_from_request, reconstruct_full_url};
use mockiapi::rate_limit::{check_rate_limit, check_rate_limit_at, new_rate_limit};
use mockiapi::registry::Endpoints;
use mockiapi::subst::{replace_variables, replace_variables_at, Params};
use mockiapi::table::StrTable;

fn plain_endpoint(file: &str) -> Endpoint {
    Endpoint {
        method: vec!["GET".to_string()],
        file: file.to_string(),
        status_code: Some(200),
        authentication: None,
        delay: None,
        rate_limit: None,
        with_dynamic_vars: None,
    }
}

#[test]
fn register_then_list_shows_descriptor() {
    let mut endpoints = Endpoints::new();
    endpoints.insert(
        "/api/thing".to_string(),
        Endpoint {
            method: vec!["GET".to_string(), "POST".to_string()],
            file: "uploads/a.json".to_string(),
            status_code: Some(201),
            authentication: Some("{\"tokenData\":\"T\"}".to_string()),
            delay: Some(5),
            rate_limit: Some(RateLimit { requests: 3, window_ms: 1000 }),
            with_dynamic_vars: Some(true),
        },
    );
    let listing = list_endpoint(&endpoints);
    let json: serde_json::Value = serde_json::from_str(&listing).unwrap();
    let entry = &json["/api/thing"];
    assert_eq!(entry["method"][0], "GET");
    assert_eq!(entry["method"][1], "POST");
    assert_eq!(entry["file"], "uploads/a.json");
    assert_eq!(entry["status_code"], serde_json::Value::from(201));
    assert_eq!(entry["authentication"], "{\"tokenData\":\"T\"}");
    assert_eq!(entry["delay"], serde_json::Value::from(5));
    assert_eq!(entry["rate_limit"]["requests"], serde_json::Value::from(3));
    assert_eq!(entry["rate_limit"]["window_ms"], serde_json::Value::from(1000));
    assert_eq!(entry["with_dynamic_vars"], serde_json::Value::from(true));
}

#[test]
fn register_delete_list_key_absent() {
    let mut endpoints = Endpoints::new();
    endpoints.insert("/gone".to_string(), plain_endpoint("uploads/g.json"));
    let removed = delete_endpoint("/gone", &mut endpoints).unwrap();
    assert_eq!(removed, "uploads/g.json");
    let listing = list_endpoint(&endpoints);
    let json: serde_json::Value = serde_json::from_str(&listing).unwrap();
    assert!(json.as_object().unwrap().get("/gone").is_none());
}

#[test]
fn delete_decodes_percent_encoding() {
    let mut endpoints = Endpoints::new();
    endpoints.insert("/x y".to_string(), plain_endpoint("uploads/x.json"));
    let removed = delete_endpoint("/x%20y", &mut endpoints).unwrap();
    assert_eq!(removed, "uploads/x.json");
}

#[test]
fn delete_missing_is_not_found() {
    let mut endpoints = Endpoints::new();
    let err = delete_endpoint("/absent", &mut endpoints).err().unwrap();
    assert_eq!(err, ErrorKind::NotFound);
}

#[test]
fn rate_window_boundary_resets() {
    let mut tracker = new_rate_limit();
    let limit = RateLimit { requests: 1, window_ms: 100 };
    assert!(check_rate_limit_at("/p", "GET", Some(&limit), &mut tracker, 0).is_ok());
    assert!(check_rate_limit_at("/p", "GET", Some(&limit), &mut tracker, 50).is_err());
    assert!(check_rate_limit_at("/p", "GET", Some(&limit), &mut tracker, 100).is_err());
    assert!(check_rate_limit_at("/p", "GET", Some(&limit), &mut tracker, 101).is_ok());
}

#[test]
fn rate_budget_is_per_method() {
    let mut tracker = new_rate_limit();
    let limit = RateLimit { requests: 1, window_ms: 1000 };
    assert!(check_rate_limit_at("/p", "GET", Some(&limit), &mut tracker, 0).is_ok());
    assert!(check_rate_limit_at("/p", "POST", Some(&limit), &mut tracker, 1).is_ok());
    assert!(check_rate_limit_at("/p", "GET", Some(&limit), &mut tracker, 2).is_err());
}

#[test]
fn rate_clock_version_counts() {
    let mut tracker = new_rate_limit();
    let limit = RateLimit { requests: 1, window_ms: 3_600_000 };
    assert!(check_rate_limit("/c", "GET", Some(&limit), &mut tracker).is_ok());
    assert!(check_rate_limit("/c", "GET", Some(&limit), &mut tracker).is_err());
}

#[test]
fn unauthorized_call_not_counted() {
    let mut endpoints = Endpoints::new();
    endpoints.insert(
        "/guarded".to_string(),
        Endpoint {
            method: vec!["GET".to_string()],
            file: "f.json".to_string(),
            status_code: Some(200),
            authentication: Some("{\"tokenData\":\"T\"}".to_string()),
            delay: None,
            rate_limit: Some(RateLimit { requests: 1, window_ms: 3_600_000 }),
            with_dynamic_vars: None,
        },
    );
    let mut rate_limiter = new_rate_limit();
    let grpc = GrpcRegistry::new();

    let denied = serve_dynamic_response(
        "GET",
        "/guarded",
        &None,
        &None,
        &endpoints,
        &mut rate_limiter,
        None,
        &grpc,
        &Some("{}".to_string()),
        0,
    );
    assert_eq!(denied.err().unwrap(), ErrorKind::Unauthorized);
    assert!(rate_limiter.cell("/guarded", "GET").is_none());

    let allowed = serve_dynamic_response(
        "GET",
        "/guarded",
        &None,
        &Some("Bearer T".to_string()),
        &endpoints,
        &mut rate_limiter,
        None,
        &grpc,
        &Some("{}".to_string()),
        1,
    );
    assert!(allowed.is_ok());
}

#[test]
fn wrong_method_rejected_before_auth_and_rate() {
    let mut endpoints = Endpoints::new();
    endpoints.insert(
        "/only-post".to_string(),
        Endpoint {
            method: vec!["POST".to_string()],
            file: "f.json".to_string(),
            status_code: Some(200),
            authentication: Some("{\"tokenData\":\"T\"}".to_string()),
            delay: None,
            rate_limit: Some(RateLimit { requests: 1, window_ms: 3_600_000 }),
            with_dynamic_vars: None,
        },
    );
    let mut rate_limiter = new_rate_limit();
    let grpc = GrpcRegistry::new();

    let res = serve_dynamic_response(
        "GET",
        "/only-post",
        &None,
        &None,
        &endpoints,
        &mut rate_limiter,
        None,
        &grpc,
        &Some("{}".to_string()),
        0,
    );
    assert_eq!(res.err().unwrap(), ErrorKind::MethodNotAllowed);
    assert!(rate_limiter.cell("/only-post", "GET").is_none());
}

#[test]
fn method_match_is_case_insensitive() {
    let mut endpoints = Endpoints::new();
    endpoints.insert(
        "/ci".to_string(),
        Endpoint {
            method: vec!["get".to_string()],
            file: "f.json".to_string(),
            status_code: Some(200),
            authentication: None,
            delay: None,
            rate_limit: None,
            with_dynamic_vars: None,
        },
    );
    let mut rate_limiter = new_rate_limit();
    let grpc = GrpcRegistry::new();
    let res = serve_dynamic_response(
        "GET",
        "/ci",
        &None,
        &None,
        &endpoints,
        &mut rate_limiter,
        None,
        &grpc,
        &Some("{}".to_string()),
        0,
    );
    assert!(res.is_ok());
}

#[test]
fn substitution_with_explicit_timestamp() {
    let mut params: Params = StrTable::new();
    params.insert("a".to_string(), "1".to_string());
    let out = replace_variables_at("{{a}}-{{timestamp}}-{{missing}}", &params, "T0");
    assert_eq!(out, "1-T0-{{missing}}");
}

#[test]
fn substitution_single_pass() {
    let mut params: Params = StrTable::new();
    params.insert("a".to_string(), "{{b}}".to_string());
    params.insert("b".to_string(), "deep".to_string());
    let out = replace_variables_at("{{a}}", &params, "T");
    assert_eq!(out, "{{b}}");
}

#[test]
fn substitution_timestamp_uses_clock() {
    let params: Params = StrTable::new();
    let out = replace_variables("{{timestamp}}", &params);
    assert_ne!(out, "{{timestamp}}");
    assert!(out.contains('T'));
}

#[test]
fn full_url_encodes_query_pairs() {
    let mut params: Params = StrTable::new();
    params.insert("q".to_string(), "a b&c".to_string());
    let url = reconstruct_full_url("/search", &Some(params));
    assert_eq!(url, "/search?q=a+b%26c");
}

#[test]
fn full_url_without_query_is_path() {
    let url = reconstruct_full_url("/plain", &None);
    assert_eq!(url, "/plain");
}

#[test]
fn url_params_filter_api_and_version_segments() {
    let params = get_params_from_request("/api/v1/user/42?x=1&enc=%41%20B");
    assert_eq!(params.get("user").unwrap().as_str(), "42");
    assert_eq!(params.get("x").unwrap().as_str(), "1");
    assert_eq!(params.get("enc").unwrap().as_str(), "A B");
    assert!(params.get("api").is_none());
    assert!(params.get("v1").is_none());
}

#[test]
fn body_params_stringify_non_strings() {
    let body = b"{\"name\":\"Ann\",\"age\":30,\"tags\":[1,2]}".to_vec();
    let params = get_body_from_request(body);
    assert_eq!(params.get("name").unwrap().as_str(), "Ann");
    assert_eq!(params.get("age").unwrap().as_str(), "30");
    assert_eq!(params.get("tags").unwrap().as_str(), "[1,2]");
}

#[test]
fn body_params_of_invalid_json_are_empty() {
    let params = get_body_from_request(b"not json".to_vec());
    assert!(params.get("name").is_none());
}

#[test]
fn json_serializer_escapes_strings() {
    let v = JsonValue::Str("a\"b\\c\nd".to_string());
    assert_eq!(to_json_string(&v), "\"a\\\"b\\\\c\\nd\"");
}

#[test]
fn auth_rejects_missing_header_and_unknown_scheme() {
    let policy = Some("{\"username\":\"u\",\"password\":\"p\"}".to_string());
    assert!(!validate_auth(policy.clone(), None));
    assert!(!validate_auth(policy, Some("Digest abc".to_string())));
}

#[test]
fn auth_rejects_unreadable_policy() {
    assert!(!validate_auth(
        Some("not json".to_string()),
        Some("Basic dXNlcjpwYXNz".to_string()),
    ));
}

fn field(name: &str, value: &str) -> (String, Vec<u8>) {
    (name.to_string(), value.as_bytes().to_vec())
}

#[test]
fn multipart_assembles_descriptor() {
    let fields = vec![
        field("path", "/made"),
        field("methods", "GET,POST"),
        field("status_code", "201"),
        field("file", "{\"ok\":true}"),
        field("authentication", "null"),
        field("delay", "250"),
        field("rate_limit", "2/1000"),
        field("with_dynamic_vars", "true"),
    ];
    let parsed = MultipartHandler::parse(&fields, "uploads/u1.json".to_string()).unwrap();
    assert_eq!(parsed.path, "/made");
    assert_eq!(parsed.endpoint.method, vec!["GET".to_string(), "POST".to_string()]);
    assert_eq!(parsed.endpoint.file, "uploads/u1.json");
    assert_eq!(parsed.endpoint.status_code, Some(201));
    assert!(parsed.endpoint.authentication.is_none());
    assert_eq!(parsed.endpoint.delay, Some(250));
    let rl = parsed.endpoint.rate_limit.unwrap();
    assert_eq!(rl.requests, 2);
    assert_eq!(rl.window_ms, 1000);
    assert_eq!(parsed.endpoint.with_dynamic_vars, Some(true));
    assert_eq!(parsed.file_data, b"{\"ok\":true}".to_vec());
    assert!(parsed.grpc.is_none());
}

#[test]
fn multipart_requires_path_and_file() {
    let missing_path = vec![field("file", "{}")];
    assert_eq!(
        MultipartHandler::parse(&missing_path, "u.json".to_string()).err().unwrap(),
        ErrorKind::NotFound,
    );
    let missing_file = vec![field("path", "/p")];
    assert_eq!(
        MultipartHandler::parse(&missing_file, "u.json".to_string()).err().unwrap(),
        ErrorKind::NotFound,
    );
}

#[test]
fn multipart_rejects_invalid_utf8_field() {
    let fields = vec![
        ("path".to_string(), vec![0xFFu8, 0xFE]),
        field("file", "{}"),
    ];
    assert_eq!(
        MultipartHandler::parse(&fields, "u.json".to_string()).err().unwrap(),
        ErrorKind::Utf8Error,
    );
}

#[test]
fn multipart_registers_grpc_mock() {
    let fields = vec![
        field("path", "/svc"),
        field("file", "{\"status\":\"ok\"}"),
        field("delay", "200"),
        field("status_code", "200"),
        field("grpcService", "UserService"),
        field("grpcRPC", "DelayedResponse"),
    ];
    let parsed = MultipartHandler::parse(&fields, "uploads/m.json".to_string()).unwrap();
    let (service, method, mock) = parsed.grpc.unwrap();
    assert_eq!(service, "UserService");
    assert_eq!(method, "DelayedResponse");
    assert_eq!(mock.delay_ms, Some(200));
    assert_eq!(mock.status, Some(200));
    assert_eq!(to_json_string(&mock.output), "{\"status\":\"ok\"}");

    let mut endpoints = Endpoints::new();
    let mut grpc = GrpcRegistry::new();
    let parsed = MultipartHandler::parse(&fields, "uploads/m.json".to_string()).unwrap();
    register_endpoint(parsed, &mut endpoints, &mut grpc);
    assert!(endpoints.get("/svc").is_some());
    assert!(grpc.get_mock("UserService", "DelayedResponse").is_some());
}

#[test]
fn out_of_range_status_becomes_404() {
    let mut endpoints = Endpoints::new();
    let mut ep = plain_endpoint("f.json");
    ep.status_code = Some(700);
    endpoints.insert("/odd".to_string(), ep);
    let mut rate_limiter = new_rate_limit();
    let grpc = GrpcRegistry::new();
    let res = serve_dynamic_response(
        "GET",
        "/odd",
        &None,
        &None,
        &endpoints,
        &mut rate_limiter,
        None,
        &grpc,
        &Some("{}".to_string()),
        0,
    );
    let (status, _body, _delay, _grpc_delay) = res.unwrap();
    assert_eq!(status, 404);
}

#[test]
fn grpc_adapter_selected_from_request_body() {
    let mut endpoints = Endpoints::new();
    endpoints.insert("/bridge".to_string(), plain_endpoint("f.json"));
    let mut rate_limiter = new_rate_limit();
    let mut grpc = GrpcRegistry::new();
    grpc.register_mock(
        "Svc",
        "Do",
        mockiapi::models::GrpcMockResponse {
            output: JsonValue::Str("done".to_string()),
            delay_ms: Some(7),
            status: Some(202),
        },
    );
    let body = b"{\"service\":\"Svc\",\"rpc\":\"Do\"}".to_vec();
    let res = serve_dynamic_response(
        "GET",
        "/bridge",
        &None,
        &None,
        &endpoints,
        &mut rate_limiter,
        Some(&body),
        &grpc,
        &Some("{}".to_string()),
        0,
    );
    let (status, out, _delay, grpc_delay) = res.unwrap();
    assert_eq!(status, 202);
    assert_eq!(out, "\"done\"");
    assert_eq!(grpc_delay, Some(7));
}

#[test]
fn lookup_unchanged_by_other_keys() {
    let mut endpoints = Endpoints::new();
    endpoints.insert("/keep".to_string(), plain_endpoint("uploads/keep.json"));
    endpoints.insert("/other".to_string(), plain_endpoint("uploads/other.json"));
    endpoints.remove("/other");
    endpoints.insert("/third".to_string(), plain_endpoint("uploads/third.json"));
    let kept = endpoints.get("/keep").unwrap();
    assert_eq!(kept.file, "uploads/keep.json");
}

#[test]
fn grpc_envelope_accepts_method_key() {
    let mut endpoints = Endpoints::new();
    endpoints.insert("/bridge2".to_string(), plain_endpoint("f.json"));
    let mut rate_limiter = new_rate_limit();
    let mut grpc = GrpcRegistry::new();
    grpc.register_mock(
        "Svc",
        "Go",
        mockiapi::models::GrpcMockResponse {
            output: JsonValue::Bool(true),
            delay_ms: None,
            status: None,
        },
    );
    let body = b"{\"service\":\"Svc\",\"method\":\"Go\",\"input\":{}}".to_vec();
    let res = serve_dynamic_response(
        "GET",
        "/bridge2",
        &None,
        &None,
        &endpoints,
        &mut rate_limiter,
        Some(&body),
        &grpc,
        &Some("{}".to_string()),
        0,
    );
    let (status, out, _delay, _grpc_delay) = res.unwrap();
    assert_eq!(status, 200);
    assert_eq!(out, "true");
}

#[test]
fn grpc_status_beyond_599_is_forwarded() {
    let mut registry = GrpcRegistry::new();
    registry.register_mock(
        "Svc",
        "Teapot",
        mockiapi::models::GrpcMockResponse {
            output: JsonValue::Null,
            delay_ms: None,
            status: Some(700),
        },
    );
    let req = mockiapi::models::GrpcMockRequest {
        service: "Svc".to_string(),
        method: "Teapot".to_string(),
        input: JsonValue::Null,
    };
    let (status, _body, _delay) = mockiapi::grpc::grpc_handler(&req, &registry);
    assert_eq!(status, 700);
}

#[test]
fn invalid_graphql_body_is_terminal() {
    let mut endpoints = Endpoints::new();
    endpoints.insert("/gql".to_string(), plain_endpoint("f.json"));
    let mut rate_limiter = new_rate_limit();
    let grpc = GrpcRegistry::new();
    let body = b"{\"query\": 42}".to_vec();
    let res = serve_dynamic_response(
        "GET",
        "/gql",
        &None,
        &None,
        &endpoints,
        &mut rate_limiter,
        Some(&body),
        &grpc,
        &Some("{}".to_string()),
        0,
    );
    assert_eq!(res.err().unwrap(), ErrorKind::InvalidGraphQLRequest);
}
