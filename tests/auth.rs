use systemd_monitoring_mcp::auth::{choose_client_address, parse_bearer_token, tokens_match, ClientAddress};

#[test]
fn parses_bearer_token() {
    assert_eq!(parse_bearer_token("Bearer token"), Some("token"));
    assert_eq!(parse_bearer_token("Basic token"), None);
}

#[test]
fn constant_time_match_works() {
    assert!(tokens_match("my-secret-token", "my-secret-token"));
    assert!(!tokens_match("my-secret-token", "wrong-token"));
    assert!(!tokens_match("my-secret-token", ""));
    assert!(tokens_match("", ""));
}

#[test]
fn trusted_peer_with_missing_xff_is_rejected() {
    let error = choose_client_address(true, None).expect_err("expected forbidden error");
    assert!(matches!(
        error,
        systemd_monitoring_mcp::errors::AppError::Forbidden { code: "ip_restricted", .. }
    ));
}

#[test]
fn bearer_token_needs_a_token() {
    assert_eq!(parse_bearer_token("Bearer "), None);
    assert_eq!(parse_bearer_token("bearer token"), None);
    assert_eq!(parse_bearer_token("Bearer a b"), Some("a b"));
}

#[test]
fn forwarded_for_is_used_only_behind_a_trusted_proxy() {
    assert_eq!(choose_client_address(false, Some("203.0.113.7")).expect("peer"), ClientAddress::Peer);
    assert_eq!(
        choose_client_address(true, Some(" 203.0.113.7 , 10.0.0.1")).expect("forwarded"),
        ClientAddress::Forwarded("203.0.113.7".to_string())
    );
    assert_eq!(
        choose_client_address(true, Some("not-an-ip")).expect("forwarded"),
        ClientAddress::Forwarded("not-an-ip".to_string())
    );
}
