use systemd_monitoring_mcp::config::{Config, ConfigError, RawConfig};

fn raw_config(
    api_token: Option<&str>,
    bind_addr: Option<&str>,
    bind_port: Option<&str>,
    allowed_cidr: Option<&str>,
    trusted_proxies: Option<&str>,
) -> RawConfig {
    RawConfig {
        api_token: api_token.map(ToString::to_string),
        bind_addr: bind_addr.map(ToString::to_string),
        bind_port: bind_port.map(ToString::to_string),
        allowed_cidr: allowed_cidr.map(ToString::to_string),
        trusted_proxies: trusted_proxies.map(ToString::to_string),
    }
}

#[test]
fn parse_defaults() {
    let raw = raw_config(Some("abcdefghijklmnop"), None, None, None, None);
    let config = Config::parse(raw).expect("config should parse");
    assert_eq!(config.bind_addr, "127.0.0.1");
    assert_eq!(config.bind_port, 8080);
    assert_eq!(config.allowed_cidr, None);
    assert!(config.trusted_proxies.is_empty());
}

#[test]
fn missing_token_fails() {
    let raw = raw_config(None, None, None, None, None);
    let err = Config::parse(raw).expect_err("expected missing token error");
    assert!(matches!(err, ConfigError::MissingApiToken));
}

#[test]
fn short_token_fails() {
    let raw = raw_config(Some("short"), None, None, None, None);
    let err = Config::parse(raw).expect_err("expected short token error");
    assert!(matches!(err, ConfigError::TokenTooShort));
}

#[test]
fn allowed_cidr_parses_when_valid() {
    let raw = raw_config(Some("abcdefghijklmnop"), None, None, Some("10.0.0.0/8"), None);
    let config = Config::parse(raw).expect("config should parse");
    assert_eq!(config.allowed_cidr, Some("10.0.0.0/8".parse().expect("valid cidr")));
}

#[test]
fn invalid_allowed_cidr_fails() {
    let raw = raw_config(Some("abcdefghijklmnop"), None, None, Some("not-a-cidr"), None);
    let err = Config::parse(raw).expect_err("expected invalid cidr error");
    assert!(matches!(err, ConfigError::InvalidAllowedCidr));
}

#[test]
fn invalid_port_fails() {
    let raw = raw_config(Some("abcdefghijklmnop"), None, Some("not-a-port"), None, None);
    let err = Config::parse(raw).expect_err("expected invalid port error");
    assert!(matches!(err, ConfigError::InvalidPort));
}

#[test]
fn trusted_proxies_parses() {
    let raw = raw_config(Some("abcdefghijklmnop"), None, None, None, Some("10.0.0.1/32, 172.16.0.0/12"));
    let config = Config::parse(raw).expect("config should parse");
    assert_eq!(config.trusted_proxies.len(), 2);
}

#[test]
fn invalid_trusted_proxy_fails() {
    let raw = raw_config(Some("abcdefghijklmnop"), None, None, None, Some("10.0.0.1/32, not-a-cidr"));
    let err = Config::parse(raw).expect_err("expected invalid trusted proxy error");
    assert!(matches!(err, ConfigError::InvalidTrustedProxy));
}

#[test]
fn explicit_address_and_port_are_kept() {
    let raw = raw_config(Some("  abcdefghijklmnop  "), Some(" 0.0.0.0 "), Some("+9000"), Some("  "), None);
    let config = Config::parse(raw).expect("config should parse");
    assert_eq!(config.api_token, "abcdefghijklmnop");
    assert_eq!(config.bind_addr, "0.0.0.0");
    assert_eq!(config.bind_port, 9000);
    assert_eq!(config.allowed_cidr, None);
    let err = Config::parse(raw_config(Some("abcdefghijklmnop"), None, Some("65536"), None, None)).unwrap_err();
    assert_eq!(err, ConfigError::InvalidPort);
}
