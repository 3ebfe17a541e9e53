use systemd_monitoring_mcp::errors::AppError;
use systemd_monitoring_mcp::validate::{
    build_log_query, normalize_name_contains, normalize_order, normalize_priority,
    normalize_service_state, normalize_services_limit, normalize_unit, LogOrder,
    LogsQueryParams, MAX_LOG_LIMIT,
};

fn params(
    priority: Option<&str>,
    unit: Option<&str>,
    start_utc: Option<&str>,
    end_utc: Option<&str>,
    limit: Option<u32>,
) -> LogsQueryParams {
    LogsQueryParams {
        priority: priority.map(|v| v.to_string()),
        unit: unit.map(|v| v.to_string()),
        start_utc: start_utc.map(|v| v.to_string()),
        end_utc: end_utc.map(|v| v.to_string()),
        grep: None,
        exclude_units: None,
        order: None,
        allow_large_window: None,
        limit,
        summary: None,
    }
}

fn code_of(err: &AppError) -> &'static str {
    err.code()
}

#[test]
fn normalizes_service_state() {
    let state = normalize_service_state(Some(" FaILeD ".to_string())).expect("valid state");
    assert_eq!(state.as_deref(), Some("failed"));
}

#[test]
fn api_rejects_invalid_service_state() {
    let state = normalize_service_state(Some("running".to_string()));
    let error = state.expect_err("expected invalid state");
    assert!(error.to_string().contains("bad request"));
}

#[test]
fn normalizes_service_state_test() {
    let state = normalize_service_state(Some(" FaILeD ".to_string())).expect("valid state");
    assert_eq!(state.as_deref(), Some("failed"));
}

#[test]
fn utils_rejects_invalid_service_state() {
    let state = normalize_service_state(Some("running".to_string()));
    let error = state.expect_err("expected invalid state");
    assert!(error.to_string().contains("bad request"));
}

#[test]
fn normalizes_name_contains() {
    let filter = normalize_name_contains(Some("  sshd@prod ".to_string()));
    assert_eq!(filter.as_deref(), Some("sshd@prod"));
}

#[test]
fn empty_name_contains_treated_as_none() {
    let filter = normalize_name_contains(Some("   ".to_string()));
    assert_eq!(filter, None);
}

#[test]
fn rejects_invalid_services_limit() {
    let error = normalize_services_limit(Some(1_001)).expect_err("invalid limit");
    assert!(error.to_string().contains("bad request"));
}

#[test]
fn api_rejects_limit_above_max() {
    let query = build_log_query(params(None, None, None, None, Some((MAX_LOG_LIMIT + 1) as u32)));
    let error = query.expect_err("expected invalid limit");
    assert!(error.to_string().contains("bad request"));
}

#[test]
fn api_rejects_non_utc_time() {
    let query = build_log_query(params(
        None,
        None,
        Some("2026-02-27T12:00:00+01:00"),
        Some("2026-02-27T13:00:00Z"),
        Some(10),
    ));
    let error = query.expect_err("expected invalid utc time");
    assert!(error.to_string().contains("bad request"));
}

#[test]
fn api_normalizes_priority_alias() {
    let query = build_log_query(params(
        Some("error"),
        Some("ssh_service-01@host:prod"),
        Some("2026-02-27T00:00:00Z"),
        Some("2026-02-27T01:00:00Z"),
        Some(10),
    ))
    .expect("query should build");
    assert_eq!(query.priority.as_deref(), Some("3"));
    assert_eq!(query.unit.as_deref(), Some("ssh_service-01@host:prod"));
}

#[test]
fn api_rejects_unit_with_disallowed_characters() {
    let query = build_log_query(params(
        None,
        Some("sshd/service"),
        Some("2026-02-27T00:00:00Z"),
        Some("2026-02-27T01:00:00Z"),
        Some(10),
    ));
    let error = query.expect_err("expected invalid unit");
    assert!(error.to_string().contains("bad request"));
}

#[test]
fn api_rejects_missing_time_range() {
    let query = build_log_query(params(None, None, None, None, Some(10)));
    let error = query.expect_err("expected missing time range");
    assert!(error.to_string().contains("bad request"));
}

#[test]
fn tools_rejects_limit_above_max() {
    let query = build_log_query(params(None, None, None, None, Some((MAX_LOG_LIMIT + 1) as u32)));
    let error = query.expect_err("expected invalid limit");
    assert!(error.to_string().contains("bad request"));
}

#[test]
fn tools_rejects_non_utc_time() {
    let query = build_log_query(params(
        None,
        None,
        Some("2026-02-27T12:00:00+01:00"),
        Some("2026-02-27T13:00:00Z"),
        Some(10),
    ));
    let error = query.expect_err("expected invalid utc time");
    assert!(error.to_string().contains("bad request"));
}

#[test]
fn tools_normalizes_priority_alias() {
    let query = build_log_query(params(
        Some("error"),
        Some("ssh_service-01@host:prod"),
        Some("2026-02-27T00:00:00Z"),
        Some("2026-02-27T01:00:00Z"),
        Some(10),
    ))
    .expect("query should build");
    assert_eq!(query.priority.as_deref(), Some("3"));
    assert_eq!(query.unit.as_deref(), Some("ssh_service-01@host:prod"));
}

#[test]
fn tools_rejects_unit_with_disallowed_characters() {
    let query = build_log_query(params(
        None,
        Some("sshd/service"),
        Some("2026-02-27T00:00:00Z"),
        Some("2026-02-27T01:00:00Z"),
        Some(10),
    ));
    let error = query.expect_err("expected invalid unit");
    assert!(error.to_string().contains("bad request"));
}

#[test]
fn tools_rejects_missing_time_range() {
    let query = build_log_query(params(None, None, None, None, Some(10)));
    let error = query.expect_err("expected missing time range");
    assert!(error.to_string().contains("bad request"));
}

#[test]
fn rejects_too_large_time_range_without_override() {
    let query = build_log_query(params(
        None,
        None,
        Some("2026-02-01T00:00:00Z"),
        Some("2026-02-10T00:00:00Z"),
        Some(10),
    ));
    let error = query.expect_err("expected too large range");
    assert!(error.to_string().contains("bad request"));
}

#[test]
fn large_window_is_accepted_with_override() {
    let mut p = params(None, None, Some("2026-02-01T00:00:00Z"), Some("2026-02-10T00:00:00Z"), None);
    p.allow_large_window = Some(true);
    let query = build_log_query(p).expect("override allows the window");
    assert_eq!(query.limit, 100);
    assert_eq!(query.order, LogOrder::Desc);
}

#[test]
fn validation_error_codes_name_the_failed_check() {
    let missing = build_log_query(params(None, None, None, Some("2026-02-27T01:00:00Z"), None)).unwrap_err();
    assert_eq!(code_of(&missing), "missing_time_range");
    let inverted = build_log_query(params(None, None, Some("2026-02-27T01:00:00Z"), Some("2026-02-27T01:00:00Z"), None)).unwrap_err();
    assert_eq!(code_of(&inverted), "invalid_time_range");
    let backwards = build_log_query(params(None, None, Some("2026-02-27T02:00:00Z"), Some("2026-02-27T01:00:00Z"), None)).unwrap_err();
    assert_eq!(code_of(&backwards), "invalid_time_range");
    let wide = build_log_query(params(None, None, Some("2026-02-01T00:00:00Z"), Some("2026-02-08T00:00:00.001Z"), None)).unwrap_err();
    assert_eq!(code_of(&wide), "time_range_too_large");
    let exactly_week = build_log_query(params(None, None, Some("2026-02-01T00:00:00Z"), Some("2026-02-08T00:00:00Z"), None));
    assert!(exactly_week.is_ok());
    let zero_limit = build_log_query(params(None, None, Some("2026-02-27T00:00:00Z"), Some("2026-02-27T01:00:00Z"), Some(0))).unwrap_err();
    assert_eq!(code_of(&zero_limit), "invalid_limit");
    let bad_time = build_log_query(params(None, None, Some("yesterday"), Some("2026-02-27T01:00:00Z"), None)).unwrap_err();
    assert_eq!(code_of(&bad_time), "invalid_utc_time");
    let bad_priority = build_log_query(params(Some("loud"), None, Some("2026-02-27T00:00:00Z"), Some("2026-02-27T01:00:00Z"), None)).unwrap_err();
    assert_eq!(code_of(&bad_priority), "invalid_priority");
}

#[test]
fn priority_aliases_normalize_to_digits() {
    for (token, level) in [
        ("error", "3"), ("err", "3"), ("3", "3"), (" ERR ", "3"), ("emerg", "0"), ("panic", "0"),
        ("alert", "1"), ("crit", "2"), ("critical", "2"), ("warning", "4"), ("warn", "4"),
        ("notice", "5"), ("info", "6"), ("informational", "6"), ("debug", "7"), ("7", "7"),
    ] {
        let normalized = normalize_priority(Some(token.to_string())).expect("known token");
        assert_eq!(normalized.as_deref(), Some(level), "token {token}");
        let again = normalize_priority(normalized).expect("digit");
        assert_eq!(again.as_deref(), Some(level));
    }
    assert_eq!(normalize_priority(None).expect("absent"), None);
}

#[test]
fn unknown_priority_tokens_are_rejected() {
    for token in ["", "  ", "8", "errors", "verbose", "-1"] {
        let err = normalize_priority(Some(token.to_string())).expect_err("unknown token");
        assert_eq!(err.code(), "invalid_priority");
    }
}

#[test]
fn order_and_units_are_validated() {
    assert_eq!(normalize_order(&None).expect("default"), LogOrder::Desc);
    assert_eq!(normalize_order(&Some(" ASC ".to_string())).expect("asc"), LogOrder::Asc);
    assert_eq!(normalize_order(&Some("".to_string())).expect("blank"), LogOrder::Desc);
    assert_eq!(normalize_order(&Some("sideways".to_string())).unwrap_err().code(), "invalid_order");
    assert_eq!(normalize_unit(Some(" a.service ".to_string())).expect("valid").as_deref(), Some("a.service"));
    assert_eq!(normalize_unit(Some("   ".to_string())).unwrap_err().code(), "invalid_unit");
    let mut p = params(None, None, Some("2026-02-27T00:00:00Z"), Some("2026-02-27T01:00:00Z"), None);
    p.exclude_units = Some(vec![" cron.service ".to_string(), "bad unit".to_string()]);
    assert_eq!(build_log_query(p).unwrap_err().code(), "invalid_unit");
}

#[test]
fn query_keeps_trimmed_filters() {
    let mut p = params(None, None, Some("2026-02-27T00:00:00Z"), Some("2026-02-27T01:00:00Z"), Some(5));
    p.exclude_units = Some(vec![" cron.service ".to_string()]);
    p.grep = Some("  disk  ".to_string());
    p.order = Some("asc".to_string());
    let q = build_log_query(p).expect("valid");
    assert_eq!(q.exclude_units, vec!["cron.service".to_string()]);
    assert_eq!(q.grep.as_deref(), Some("disk"));
    assert_eq!(q.order, LogOrder::Asc);
    assert_eq!(q.limit, 5);
    let start = q.start_utc.expect("start");
    let end = q.end_utc.expect("end");
    assert_eq!(end.secs - start.secs, 3600);
}

#[test]
fn services_limit_defaults_and_bounds() {
    assert_eq!(normalize_services_limit(None).expect("default"), 200);
    assert_eq!(normalize_services_limit(Some(1)).expect("min"), 1);
    assert_eq!(normalize_services_limit(Some(1000)).expect("max"), 1000);
    assert_eq!(normalize_services_limit(Some(0)).unwrap_err().code(), "invalid_limit");
}

#[test]
fn invalid_grep_pattern_is_rejected_during_validation() {
    let mut p = params(None, None, Some("2026-02-27T00:00:00Z"), Some("2026-02-27T01:00:00Z"), None);
    p.grep = Some("/[/".to_string());
    assert_eq!(build_log_query(p).unwrap_err().code(), "invalid_grep");
    let mut ok = params(None, None, Some("2026-02-27T00:00:00Z"), Some("2026-02-27T01:00:00Z"), None);
    ok.grep = Some("/^ERR/".to_string());
    assert_eq!(build_log_query(ok).expect("valid pattern").grep.as_deref(), Some("/^ERR/"));
}
