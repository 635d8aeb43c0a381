use mockiapi::grpc::grpc_handler;
use mockiapi::grpc_registry::GrpcRegistry;
use mockiapi::json::JsonValue;
use mockiapi::models::{GrpcMockRequest, GrpcMockResponse};

fn obj(fields: Vec<(&str, JsonValue)>) -> JsonValue {
    JsonValue::Obj(fields.into_iter().map(|(k, v)| (k.to_string(), v)).collect())
}

fn num(n: &str) -> JsonValue {
    JsonValue::Num(n.to_string())
}

fn text(s: &str) -> JsonValue {
    JsonValue::Str(s.to_string())
}

#[test]
fn test_grpc_handler_success() {
    let mut registry = GrpcRegistry::new();

    registry.register_mock(
        "UserService",
        "GetUser",
        GrpcMockResponse {
            output: obj(vec![("id", num("1")), ("name", text("Alice"))]),
            delay_ms: None,
            status: Some(200),
        },
    );

    let req = GrpcMockRequest {
        service: "UserService".into(),
        method: "GetUser".into(),
        input: obj(vec![("user_id", num("1"))]),
    };

    let (status, body, _delay) = grpc_handler(&req, &registry);

    assert_eq!(status, 200);

    let json: serde_json::Value = serde_json::from_str(&body).unwrap();
    assert_eq!(json["id"], serde_json::Value::from(1));
    assert_eq!(json["name"], "Alice");
}

#[test]
fn test_grpc_handler_not_found() {
    let registry = GrpcRegistry::new();

    let req = GrpcMockRequest {
        service: "UserService".into(),
        method: "NonExistingMethod".into(),
        input: obj(vec![]),
    };

    let (status, body, _delay) = grpc_handler(&req, &registry);

    assert_eq!(status, 404);

    let json: serde_json::Value = serde_json::from_str(&body).unwrap();
    assert_eq!(json["error"], "Mock not found");
}

#[test]
fn test_grpc_handler_with_delay() {
    let mut registry = GrpcRegistry::new();

    registry.register_mock(
        "UserService",
        "DelayedResponse",
        GrpcMockResponse {
            output: obj(vec![("status", text("ok"))]),
            delay_ms: Some(200),
            status: Some(200),
        },
    );

    let req = GrpcMockRequest {
        service: "UserService".into(),
        method: "DelayedResponse".into(),
        input: obj(vec![]),
    };

    let (status, _body, delay) = grpc_handler(&req, &registry);

    assert_eq!(delay, Some(200));
    assert_eq!(status, 200);
}

#[test]
fn test_grpc_handler_custom_status_code() {
    let mut registry = GrpcRegistry::new();

    registry.register_mock(
        "UserService",
        "ConflictCase",
        GrpcMockResponse {
            output: obj(vec![("error", text("Conflict"))]),
            delay_ms: None,
            status: Some(409),
        },
    );

    let req = GrpcMockRequest {
        service: "UserService".into(),
        method: "ConflictCase".into(),
        input: obj(vec![]),
    };

    let (status, _body, _delay) = grpc_handler(&req, &registry);

    assert_eq!(status, 409);
}

#[test]
fn test_empty_service_and_method() {
    let registry = GrpcRegistry::new();

    let req = GrpcMockRequest {
        service: "".into(),
        method: "".into(),
        input: obj(vec![]),
    };

    let (status, _body, _delay) = grpc_handler(&req, &registry);
    assert_eq!(status, 404);
}

#[test]
fn test_null_input_payload() {
    let mut registry = GrpcRegistry::new();

    registry.register_mock(
        "TestService",
        "NullInput",
        GrpcMockResponse {
            output: obj(vec![("ok", JsonValue::Bool(true))]),
            delay_ms: None,
            status: Some(200),
        },
    );

    let req = GrpcMockRequest {
        service: "TestService".into(),
        method: "NullInput".into(),
        input: JsonValue::Null,
    };

    let (status, _body, _delay) = grpc_handler(&req, &registry);
    assert_eq!(status, 200);
}

#[test]
fn test_input_with_extra_fields() {
    let mut registry = GrpcRegistry::new();

    registry.register_mock(
        "TestService",
        "ExtraFields",
        GrpcMockResponse {
            output: obj(vec![("message", text("Received"))]),
            delay_ms: None,
            status: Some(200),
        },
    );

    let req = GrpcMockRequest {
        service: "TestService".into(),
        method: "ExtraFields".into(),
        input: obj(vec![("field1", text("value")), ("extra", num("123"))]),
    };

    let (status, _body, _delay) = grpc_handler(&req, &registry);
    assert_eq!(status, 200);
}

#[test]
fn test_large_input_payload() {
    let mut registry = GrpcRegistry::new();

    registry.register_mock(
        "TestService",
        "LargePayload",
        GrpcMockResponse {
            output: obj(vec![("status", text("ok"))]),
            delay_ms: None,
            status: Some(200),
        },
    );

    let big_string = "x".repeat(100_000);
    let req = GrpcMockRequest {
        service: "TestService".into(),
        method: "LargePayload".into(),
        input: obj(vec![("blob", text(&big_string))]),
    };

    let (status, _body, _delay) = grpc_handler(&req, &registry);
    assert_eq!(status, 200);
}
