use axum_content_negotiation::Negotiate;
use axum_content_negotiation::NegotiateLayer;

#[test]
fn test_negotiate_wraps_and_unwraps() {
    let wrapped = Negotiate::new(5u32);
    assert_eq!(wrapped.0, 5);
    assert_eq!(wrapped.into_inner(), 5);
}

#[test]
fn test_layer_wraps_a_service() {
    let service = NegotiateLayer.layer("inner");
    assert_eq!(service.0, "inner");
}
