use axum_content_negotiation::exchange::finish_with_encoded;
use axum_content_negotiation::exchange::placeholder_response;
use axum_content_negotiation::exchange::Exchange;
use axum_content_negotiation::exchange::Outcome;
use axum_content_negotiation::exchange::Phase;
use axum_content_negotiation::exchange::Response;
use axum_content_negotiation::inbound::decode_body;
use axum_content_negotiation::registry::Registry;
use axum_content_negotiation::select::negotiate;

fn registry_default_json() -> Registry {
    Registry::new(
        vec![b"application/json".to_vec(), b"application/cbor".to_vec()],
        0,
    )
    .unwrap()
}

fn registry_default_cbor() -> Registry {
    Registry::new(
        vec![b"application/json".to_vec(), b"application/cbor".to_vec()],
        1,
    )
    .unwrap()
}

fn hello_value() -> serde_json::Value {
    serde_json::from_str("{\"message\":\"Hello, test!\"}").unwrap()
}

fn expected_cbor_body() -> Vec<u8> {
    let mut writer = cbor4ii::core::utils::BufWriter::new(Vec::new());
    let value = cbor4ii::core::Value::Map(vec![(
        cbor4ii::core::Value::Text("message".to_string()),
        cbor4ii::core::Value::Text("Hello, test!".to_string()),
    )]);
    cbor4ii::core::enc::Encode::encode(&value, &mut writer).unwrap();
    writer.into_inner()
}

/// Runs one full exchange: phase 1 on the accept header, then the handler
/// response (the placeholder around `payload`, with an optional explicit
/// status), then phase 3.
fn run_exchange(reg: &Registry, accept: Option<&[u8]>, status: Option<u16>) -> Response {
    let mut exchange = Exchange::new();
    let refusal = exchange.select(reg, accept);
    assert!(refusal.is_none());
    exchange.begin_handler();
    let mut resp = placeholder_response(hello_value());
    if let Some(s) = status {
        resp.status = s;
    }
    let out = exchange.finish(resp);
    assert!(matches!(
        exchange.phase,
        Phase::Terminal { outcome: Outcome::Success }
    ));
    out
}

#[test]
fn test_does_not_process_handler_if_accept_is_not_supported() {
    let reg = registry_default_json();
    let mut exchange = Exchange::new();
    let refusal = exchange.select(&reg, Some(b"non-supported")).unwrap();
    assert_eq!(refusal.status, 406);
    assert_eq!(refusal.body, b"Invalid content type on request".to_vec());
    assert!(matches!(
        exchange.phase,
        Phase::Terminal { outcome: Outcome::NegotiationFailed }
    ));
}

#[test]
fn test_inform_error_when_misconfigured() {
    let resp = placeholder_response(hello_value());
    assert_eq!(resp.status, 415);
    assert_eq!(resp.body, b"Misconfigured service layer".to_vec());
    assert!(resp.payload.is_some());
}

#[test]
fn test_encode_as_requested() {
    let reg = registry_default_json();
    let out = run_exchange(&reg, Some(b"application/json"), None);
    assert_eq!(out.status, 200);
    assert_eq!(out.content_type, Some(b"application/json".to_vec()));
    assert_eq!(out.body, b"{\"message\":\"Hello, test!\"}".to_vec());
    assert!(out.payload.is_none());
}

#[test]
fn lib_test_encode_as_requested() {
    let reg = registry_default_cbor();
    let out = run_exchange(&reg, Some(b"application/cbor"), None);
    assert_eq!(out.status, 200);
    assert_eq!(out.content_type, Some(b"application/cbor".to_vec()));
    assert_eq!(out.body, expected_cbor_body());
}

#[test]
fn test_encode_as_requested_multi() {
    let reg = registry_default_json();
    let out = run_exchange(
        &reg,
        Some(b"not-supported, application/json;q=5,something-else"),
        None,
    );
    assert_eq!(out.status, 200);
    assert_eq!(out.content_type, Some(b"application/json".to_vec()));
    assert_eq!(out.body, b"{\"message\":\"Hello, test!\"}".to_vec());
}

#[test]
fn lib_test_encode_as_requested_multi() {
    let reg = registry_default_cbor();
    let out = run_exchange(&reg, Some(b"something-else;q=0.5,application/cbor"), None);
    assert_eq!(out.status, 200);
    assert_eq!(out.content_type, Some(b"application/cbor".to_vec()));
    assert_eq!(out.body, expected_cbor_body());
}

#[test]
fn test_encode_as_requested_multi_w_q() {
    let reg = registry_default_json();
    let out = run_exchange(
        &reg,
        Some(b"application/json;q=0.8;other;stuff,application/cbor;q=0.9"),
        None,
    );
    assert_eq!(out.status, 200);
    assert_eq!(out.content_type, Some(b"application/cbor".to_vec()));
    assert_eq!(out.body, expected_cbor_body());
}

#[test]
fn lib_test_encode_as_requested_multi_w_q() {
    let reg = registry_default_cbor();
    let out = run_exchange(&reg, Some(b"application/cbor;q=0.2,application/json"), None);
    assert_eq!(out.status, 200);
    assert_eq!(out.content_type, Some(b"application/json".to_vec()));
    assert_eq!(out.body, b"{\"message\":\"Hello, test!\"}".to_vec());
}

#[test]
fn test_use_default_encoding_without_headers() {
    let reg = registry_default_json();
    let out = run_exchange(&reg, None, None);
    assert_eq!(out.status, 200);
    assert_eq!(out.content_type, Some(b"application/json".to_vec()));
    assert_eq!(out.body, b"{\"message\":\"Hello, test!\"}".to_vec());
}

#[test]
fn test_default_encoding_without_header() {
    let reg = registry_default_cbor();
    let out = run_exchange(&reg, None, Some(201));
    assert_eq!(out.status, 201);
    assert_eq!(out.content_type, Some(b"application/cbor".to_vec()));
    assert_eq!(out.body, expected_cbor_body());
}

#[test]
fn test_default_encoding_with_star() {
    let reg = registry_default_cbor();
    let out = run_exchange(&reg, Some(b"*/*"), Some(201));
    assert_eq!(out.status, 201);
    assert_eq!(out.content_type, Some(b"application/cbor".to_vec()));
    assert_eq!(out.body, expected_cbor_body());
}

#[test]
fn test_retain_handler_status_code() {
    let reg = registry_default_json();
    let out = run_exchange(&reg, None, Some(201));
    assert_eq!(out.status, 201);
    assert_eq!(out.content_type, Some(b"application/json".to_vec()));
    assert_eq!(out.body, b"{\"message\":\"Hello, test!\"}".to_vec());
}

#[test]
fn test_retain_status_code() {
    let reg = registry_default_cbor();
    let out = run_exchange(&reg, Some(b"application/cbor"), Some(201));
    assert_eq!(out.status, 201);
    assert_eq!(out.content_type, Some(b"application/cbor".to_vec()));
    assert_eq!(out.body, expected_cbor_body());
}

#[test]
fn test_response_without_payload_passes_through() {
    let reg = registry_default_json();
    let mut exchange = Exchange::new();
    assert!(exchange.select(&reg, Some(b"application/json")).is_none());
    exchange.begin_handler();
    let resp = Response {
        status: 204,
        content_type: None,
        content_length: Some(0),
        body: Vec::new(),
        payload: None,
    };
    let out = exchange.finish(resp);
    assert_eq!(out.status, 204);
    assert_eq!(out.content_type, None);
    assert_eq!(out.content_length, Some(0));
    assert!(out.body.is_empty());
    assert!(matches!(
        exchange.phase,
        Phase::Terminal { outcome: Outcome::Success }
    ));
}

#[test]
fn test_stale_content_length_is_cleared() {
    let reg = registry_default_json();
    let mut exchange = Exchange::new();
    assert!(exchange.select(&reg, Some(b"application/json")).is_none());
    exchange.begin_handler();
    let mut resp = placeholder_response(hello_value());
    resp.content_length = Some(27);
    let out = exchange.finish(resp);
    assert_eq!(out.content_length, None);
    assert_eq!(out.status, 200);
}

#[test]
fn test_encode_failure_yields_generic_server_error() {
    let reg = registry_default_json();
    let format = negotiate(&reg, Some(b"application/json")).unwrap();
    let resp = placeholder_response(hello_value());
    let out = finish_with_encoded(&format, resp, None);
    assert_eq!(out.status, 500);
    assert_eq!(out.body, b"Failed to serialize response".to_vec());
    assert_eq!(out.content_type, None);
    assert!(out.payload.is_none());
}

#[test]
fn test_decode_failure_ends_the_exchange() {
    let reg = registry_default_json();
    let mut exchange = Exchange::new();
    assert!(exchange.select(&reg, Some(b"application/json")).is_none());
    exchange.begin_handler();
    let err = decode_body(&reg, Some(b"application/json"), b"not").unwrap_err();
    let out = exchange.fail_decode(&err);
    assert_eq!(out.status, 400);
    assert_eq!(out.body, b"Malformed request body".to_vec());
    assert!(matches!(
        exchange.phase,
        Phase::Terminal { outcome: Outcome::DecodeFailed }
    ));
}
