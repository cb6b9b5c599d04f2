use anthropic_proxy::error::{anthropic_error_type, describe_status, ProxyError};
use anthropic_proxy::json::Json;

fn status_of(error: ProxyError) -> u16 {
    error.into_response().0
}

#[test]
fn transform_error_returns_400() {
    assert_eq!(status_of(ProxyError::Transform("bad".into())), 400);
}

#[test]
fn upstream_error_returns_502() {
    assert_eq!(status_of(ProxyError::Upstream("bad".into())), 502);
}

#[test]
fn serialization_error_returns_400() {
    let err: serde_json::Error = serde_json::from_str::<String>("not json").unwrap_err();
    assert_eq!(
        status_of(ProxyError::Serialization(err.to_string())),
        400
    );
}

#[test]
fn upstream_status_preserves_code() {
    for code in [400u16, 401, 403, 404, 413, 429] {
        let err = ProxyError::UpstreamStatus {
            status: code,
            message: "boom".into(),
        };
        assert_eq!(status_of(err), code);
    }
}

#[test]
fn error_body_uses_anthropic_envelope() {
    let err = ProxyError::UpstreamStatus {
        status: 400,
        message: "messages: at least one message is required".into(),
    };
    let (status, body) = err.into_response();
    assert_eq!(status, 400);

    let json = Json::parse(&body.to_text()).unwrap();
    assert!(json.str_is("type", "error"));
    let error = json.get("error").unwrap();
    assert!(error.str_is("type", "invalid_request_error"));
    assert!(error.str_is("message", "messages: at least one message is required"));
}

#[test]
fn status_code_accessor_matches_response() {
    let err = ProxyError::Transform("bad".into());
    assert_eq!(err.status_code(), 400);
}

#[test]
fn transport_error_is_a_bad_gateway() {
    let err = ProxyError::Http("connection refused".into());
    assert_eq!(err.status_code(), 502);
    let (status, body) = err.into_response();
    assert_eq!(status, 502);
    assert!(body.get("error").unwrap().str_is("type", "api_error"));
}

#[test]
fn error_types_follow_the_status() {
    assert_eq!(anthropic_error_type(400), "invalid_request_error");
    assert_eq!(anthropic_error_type(401), "authentication_error");
    assert_eq!(anthropic_error_type(403), "permission_error");
    assert_eq!(anthropic_error_type(404), "not_found_error");
    assert_eq!(anthropic_error_type(413), "request_too_large");
    assert_eq!(anthropic_error_type(429), "rate_limit_error");
    assert_eq!(anthropic_error_type(500), "api_error");
}

#[test]
fn status_lines_name_the_reason() {
    let err = ProxyError::UpstreamStatus {
        status: 404,
        message: "no such model".into(),
    };
    assert_eq!(
        err.describe(),
        describe_status("404 Not Found", "no such model")
    );
}
