use axum_content_negotiation::registry::Registry;
use axum_content_negotiation::registry::RegistryError;

#[test]
fn test_registry_accepts_standard_configuration() {
    let reg = Registry::new(
        vec![b"application/json".to_vec(), b"application/cbor".to_vec()],
        1,
    )
    .unwrap();
    assert_eq!(reg.tokens.len(), 2);
    assert_eq!(reg.default_index, 1);
}

#[test]
fn test_registry_accepts_a_single_format() {
    let reg = Registry::new(vec![b"application/json".to_vec()], 0).unwrap();
    assert_eq!(reg.tokens.len(), 1);
}

#[test]
fn test_registry_rejects_empty_set() {
    let r = Registry::new(vec![], 0);
    assert_eq!(r.err(), Some(RegistryError::EmptyRegistry));
}

#[test]
fn test_registry_rejects_default_out_of_range() {
    let r = Registry::new(vec![b"application/json".to_vec()], 1);
    assert_eq!(r.err(), Some(RegistryError::DefaultOutOfRange));
}

#[test]
fn test_registry_rejects_duplicate_token() {
    let r = Registry::new(
        vec![b"application/json".to_vec(), b"application/json".to_vec()],
        0,
    );
    assert_eq!(r.err(), Some(RegistryError::DuplicateToken));
}

#[test]
fn test_registry_rejects_token_without_codec() {
    let r = Registry::new(
        vec![b"application/json".to_vec(), b"text/plain".to_vec()],
        0,
    );
    assert_eq!(r.err(), Some(RegistryError::TokenWithoutCodec));
}

#[test]
fn test_registry_rejects_the_wildcard_as_entry() {
    let r = Registry::new(vec![b"*/*".to_vec()], 0);
    assert_eq!(r.err(), Some(RegistryError::TokenWithoutCodec));
}
