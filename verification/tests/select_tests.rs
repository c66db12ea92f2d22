use axum_content_negotiation::registry::Registry;
use axum_content_negotiation::select::negotiate;
use axum_content_negotiation::accept::parse_accept;

fn registry_default_json() -> Registry {
    Registry::new(
        vec![b"application/json".to_vec(), b"application/cbor".to_vec()],
        0,
    )
    .unwrap()
}

fn registry_default_cbor() -> Registry {
    Registry::new(
        vec![b"application/json".to_vec(), b"application/cbor".to_vec()],
        1,
    )
    .unwrap()
}

fn selected_token(reg: &Registry, accept: Option<&[u8]>) -> Option<Vec<u8>> {
    negotiate(reg, accept).map(|f| f.token)
}

#[test]
fn test_selects_exact_match() {
    let reg = registry_default_json();
    assert_eq!(
        selected_token(&reg, Some(b"application/cbor")),
        Some(b"application/cbor".to_vec())
    );
}

#[test]
fn test_skips_unsupported_entries() {
    let reg = registry_default_json();
    assert_eq!(
        selected_token(&reg, Some(b"not-supported, application/json;q=5,something-else")),
        Some(b"application/json".to_vec())
    );
}

#[test]
fn test_quality_weights_decide() {
    let reg = registry_default_json();
    assert_eq!(
        selected_token(
            &reg,
            Some(b"application/json;q=0.8;other;stuff,application/cbor;q=0.9")
        ),
        Some(b"application/cbor".to_vec())
    );
}

#[test]
fn test_quality_weights_decide_against_default() {
    let reg = registry_default_cbor();
    assert_eq!(
        selected_token(&reg, Some(b"application/cbor;q=0.2,application/json")),
        Some(b"application/json".to_vec())
    );
}

#[test]
fn test_unweighted_entry_beats_weighted() {
    let reg = registry_default_cbor();
    assert_eq!(
        selected_token(&reg, Some(b"something-else;q=0.5,application/cbor")),
        Some(b"application/cbor".to_vec())
    );
}

#[test]
fn test_absent_header_selects_default() {
    let reg = registry_default_cbor();
    assert_eq!(
        selected_token(&reg, None),
        Some(b"application/cbor".to_vec())
    );
    let reg = registry_default_json();
    assert_eq!(
        selected_token(&reg, None),
        Some(b"application/json".to_vec())
    );
}

#[test]
fn test_wildcard_selects_default() {
    let reg = registry_default_cbor();
    assert_eq!(
        selected_token(&reg, Some(b"*/*")),
        Some(b"application/cbor".to_vec())
    );
}

#[test]
fn test_nothing_supported_selects_none() {
    let reg = registry_default_json();
    assert_eq!(selected_token(&reg, Some(b"nothing/supported")), None);
    assert_eq!(selected_token(&reg, Some(b"")), None);
    assert_eq!(selected_token(&reg, Some(b",, ,")), None);
}

#[test]
fn test_selection_is_deterministic() {
    let reg = registry_default_json();
    let header: &[u8] = b"application/json;q=0.8,application/cbor;q=0.9,*/*;q=0.1";
    let first = selected_token(&reg, Some(header));
    let second = selected_token(&reg, Some(header));
    assert_eq!(first, second);
    assert_eq!(first, Some(b"application/cbor".to_vec()));
}

#[test]
fn test_selected_is_registry_member() {
    let reg = registry_default_json();
    let headers: [&[u8]; 5] = [
        b"application/json",
        b"*/*",
        b"x,y,z,application/cbor;q=0.1",
        b"application/cbor;q=abc",
        b"text/plain",
    ];
    for header in headers {
        if let Some(token) = selected_token(&reg, Some(header)) {
            assert!(reg.tokens.contains(&token));
        }
    }
}

#[test]
fn test_equal_weights_prefer_first() {
    let reg = registry_default_json();
    assert_eq!(
        selected_token(&reg, Some(b"application/cbor,application/json")),
        Some(b"application/cbor".to_vec())
    );
    assert_eq!(
        selected_token(&reg, Some(b"application/json;q=0.5,application/cbor;q=0.5")),
        Some(b"application/json".to_vec())
    );
}

#[test]
fn test_zero_weight_is_still_a_candidate() {
    let reg = registry_default_json();
    assert_eq!(
        selected_token(&reg, Some(b"application/json;q=0")),
        Some(b"application/json".to_vec())
    );
    assert_eq!(
        selected_token(&reg, Some(b"application/json;q=0,application/cbor;q=0.001")),
        Some(b"application/cbor".to_vec())
    );
}

#[test]
fn test_whitespace_is_trimmed() {
    let reg = registry_default_json();
    assert_eq!(
        selected_token(&reg, Some(b"  application/cbor;q=0.7 , application/json;q=0.2")),
        Some(b"application/cbor".to_vec())
    );
}

#[test]
fn test_malformed_quality_degrades_to_zero() {
    let cands = parse_accept(Some(b"application/json;q=abc"));
    assert_eq!(cands.len(), 1);
    assert_eq!(cands[0].token, b"application/json".to_vec());
    assert_eq!(cands[0].weight, 0);
    let reg = registry_default_json();
    assert_eq!(
        selected_token(&reg, Some(b"application/json;q=abc,application/cbor;q=0.1")),
        Some(b"application/cbor".to_vec())
    );
}

#[test]
fn test_parse_weights() {
    let cands = parse_accept(Some(b"a;q=0.8,b;q=1,c;q=0.25,d;q=5,e;q=.5,f;q=0.,g;q=1.2e3,h,i;x=1;q=0.3,j;q=0.1239"));
    let weights: Vec<u32> = cands.iter().map(|c| c.weight).collect();
    assert_eq!(weights, vec![800, 1000, 250, 1000, 500, 0, 0, 1000, 300, 123]);
}

#[test]
fn test_supported_entry_wins_over_unsupported() {
    let reg = registry_default_json();
    let selected = negotiate(&reg, Some(b"unsupported/x, application/json;q=0.9")).unwrap();
    assert_eq!(selected.token, b"application/json".to_vec());
}
