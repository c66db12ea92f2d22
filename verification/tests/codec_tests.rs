use axum_content_negotiation::codec::encode_with;
use axum_content_negotiation::codec::Codec;
use axum_content_negotiation::inbound::decode_body;
use axum_content_negotiation::registry::Registry;

fn registry_default_json() -> Registry {
    Registry::new(
        vec![b"application/json".to_vec(), b"application/cbor".to_vec()],
        0,
    )
    .unwrap()
}

fn cbor_message_body(text: &str) -> Vec<u8> {
    let mut writer = cbor4ii::core::utils::BufWriter::new(Vec::new());
    let value = cbor4ii::core::Value::Map(vec![(
        cbor4ii::core::Value::Text("message".to_string()),
        cbor4ii::core::Value::Text(text.to_string()),
    )]);
    cbor4ii::core::enc::Encode::encode(&value, &mut writer).unwrap();
    writer.into_inner()
}

#[test]
fn test_json_round_trip_normalizes_whitespace() {
    let reg = registry_default_json();
    let body = b" { \"message\" : \"test\" } ";
    let value = decode_body(&reg, Some(b"application/json"), body).unwrap();
    let encoded = encode_with(Codec::Json, &value).unwrap();
    assert_eq!(encoded, b"{\"message\":\"test\"}".to_vec());
}

#[test]
fn test_cbor_round_trip_reproduces_the_bytes() {
    let reg = registry_default_json();
    let body = cbor_message_body("Hello, test!");
    let value = decode_body(&reg, Some(b"application/cbor"), &body).unwrap();
    let encoded = encode_with(Codec::Cbor, &value).unwrap();
    assert_eq!(encoded, body);
}

#[test]
fn test_cross_codec_reencoding() {
    let reg = registry_default_json();
    let body = b"{\"message\":\"Hello, test!\"}";
    let value = decode_body(&reg, Some(b"application/json"), body).unwrap();
    let as_cbor = encode_with(Codec::Cbor, &value).unwrap();
    assert_eq!(as_cbor, cbor_message_body("Hello, test!"));
    let back = decode_body(&reg, Some(b"application/cbor"), &as_cbor).unwrap();
    assert_eq!(back, value);
}

#[test]
fn test_json_encoding_of_decoded_scalars() {
    let reg = registry_default_json();
    let value = decode_body(&reg, Some(b"application/json"), b"[1, 2,  3]").unwrap();
    let encoded = encode_with(Codec::Json, &value).unwrap();
    assert_eq!(encoded, b"[1,2,3]".to_vec());
}
