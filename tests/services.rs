use systemd_monitoring_mcp::summary::build_service_summary;
use systemd_monitoring_mcp::units::{
    filter_services_by_name_contains, filter_services_by_state, map_and_sort_service_units,
    sort_services, RawUnit, ServiceDetails, UnitStatus,
};

fn unit(name: &str, description: &str, active_state: &str, sub_state: &str) -> UnitStatus {
    UnitStatus {
        unit: name.to_string(),
        description: description.to_string(),
        load_state: "loaded".to_string(),
        active_state: active_state.to_string(),
        sub_state: sub_state.to_string(),
        unit_file_state: None,
        since_utc: None,
        main_pid: None,
        exec_main_status: None,
        result: None,
    }
}

fn raw(name: &str, description: &str, active_state: &str, sub_state: &str, path: &str) -> RawUnit {
    RawUnit {
        name: name.to_string(),
        description: description.to_string(),
        load_state: "loaded".to_string(),
        active_state: active_state.to_string(),
        sub_state: sub_state.to_string(),
        unit_path: path.to_string(),
    }
}

#[test]
fn api_filters_services_by_state_case_insensitive() {
    let services = vec![unit("a.service", "A", "active", "running"), unit("b.service", "B", "failed", "failed")];
    let filtered = filter_services_by_state(services, Some("FaIlEd"));
    assert_eq!(filtered.len(), 1);
    assert_eq!(filtered[0].unit, "b.service");
}

#[test]
fn utils_filters_services_by_state_case_insensitive() {
    let services = vec![unit("a.service", "A", "active", "running"), unit("b.service", "B", "failed", "failed")];
    let filtered = filter_services_by_state(services, Some("FaIlEd"));
    assert_eq!(filtered.len(), 1);
    assert_eq!(filtered[0].unit, "b.service");
}

#[test]
fn filters_services_by_name_contains() {
    let services = vec![unit("a.service", "A", "active", "running"), unit("b.service", "B", "failed", "failed")];
    let filtered = filter_services_by_name_contains(services, Some("b."));
    assert_eq!(filtered.len(), 1);
    assert_eq!(filtered[0].unit, "b.service");
}

#[test]
fn sorts_failed_first_then_unit() {
    let mut services = vec![unit("z.service", "Z", "active", "running"), unit("a.service", "A", "failed", "failed")];
    sort_services(&mut services, true);
    assert_eq!(services[0].unit, "a.service");
}

#[test]
fn filters_non_service_and_sorts() {
    let mapped = map_and_sort_service_units(vec![
        raw("z.service", "", "active", "running", "/org/freedesktop/systemd1/unit/z_2eservice"),
        raw("a.socket", "Socket", "active", "running", "/org/freedesktop/systemd1/unit/a_2esocket"),
        raw("a.service", "Alpha", "failed", "failed", "/org/freedesktop/systemd1/unit/a_2eservice"),
    ]);
    assert_eq!(mapped.len(), 2);
    assert_eq!(mapped[0].unit, "a.service");
    assert_eq!(mapped[0].description, "Alpha");
    assert_eq!(mapped[0].load_state, "loaded");
    assert_eq!(mapped[0].active_state, "failed");
    assert_eq!(mapped[0].sub_state, "failed");
    assert_eq!(mapped[1].unit, "z.service");
    assert_eq!(mapped[1].description, "");
}

#[test]
fn failed_units_precede_others_in_name_order() {
    let mut services = vec![
        unit("d.service", "D", "active", "running"),
        unit("c.service", "C", "FAILED", "failed"),
        unit("b.service", "B", "inactive", "dead"),
        unit("a.service", "A", "failed", "failed"),
    ];
    sort_services(&mut services, true);
    let names: Vec<&str> = services.iter().map(|u| u.unit.as_str()).collect();
    assert_eq!(names, vec!["a.service", "c.service", "b.service", "d.service"]);
    sort_services(&mut services, false);
    let names: Vec<&str> = services.iter().map(|u| u.unit.as_str()).collect();
    assert_eq!(names, vec!["a.service", "b.service", "c.service", "d.service"]);
}

#[test]
fn state_filter_returns_only_requested_state() {
    let services = vec![
        unit("a.service", "A", "active", "running"),
        unit("b.service", "B", "Failed", "failed"),
        unit("c.service", "C", "failed", "failed"),
    ];
    let filtered = filter_services_by_state(services.clone(), Some("failed"));
    assert!(filtered.iter().all(|u| u.active_state.eq_ignore_ascii_case("failed")));
    assert_eq!(filtered.len(), 2);
    assert_eq!(filter_services_by_state(services.clone(), None), services);
    assert!(filter_services_by_name_contains(services, Some("zzz")).is_empty());
}

#[test]
fn service_summary_counts_and_digests_failures() {
    let mut services = Vec::new();
    for i in 0..12 {
        services.push(unit(&format!("f{:02}.service", 11 - i), "F", "failed", "failed"));
    }
    services.push(unit("ok.service", "O", "active", "running"));
    let summary = build_service_summary(&services);
    assert_eq!(
        summary.counts_by_active_state,
        vec![("active".to_string(), 1), ("failed".to_string(), 12)]
    );
    assert_eq!(summary.failed_units.len(), 10);
    assert_eq!(summary.failed_units[0].unit, "f00.service");
    assert_eq!(summary.failed_units[9].unit, "f09.service");
    assert_eq!(
        summary.degraded_hint.as_deref(),
        Some("Detected 10 failed service(s); review failed_units for triage")
    );
    let healthy = build_service_summary(&vec![unit("ok.service", "O", "active", "running")]);
    assert!(healthy.failed_units.is_empty());
    assert_eq!(healthy.degraded_hint, None);
}

#[test]
fn enrichment_drops_placeholder_values() {
    let details = ServiceDetails::from_properties("enabled".to_string(), 0, 0, 3, " ".to_string());
    assert_eq!(details.unit_file_state.as_deref(), Some("enabled"));
    assert_eq!(details.since_utc, None);
    assert_eq!(details.main_pid, None);
    assert_eq!(details.exec_main_status, Some(3));
    assert_eq!(details.result, None);
    let details = ServiceDetails::from_properties("".to_string(), 1_735_689_600_123_456, 42, u32::MAX, "success".to_string());
    assert_eq!(details.since_utc.as_deref(), Some("2025-01-01T00:00:00.123Z"));
    assert_eq!(details.main_pid, Some(42));
    assert_eq!(details.exec_main_status, None);
    let mut u = unit("a.service", "A", "active", "running");
    u.enrich(details);
    assert_eq!(u.result.as_deref(), Some("success"));
    assert_eq!(u.main_pid, Some(42));
}

#[test]
fn enrichment_is_applied_per_unit() {
    let units = vec![unit("a.service", "A", "active", "running"), unit("b.service", "B", "failed", "failed")];
    let details = vec![
        None,
        Some(ServiceDetails::from_properties("enabled".to_string(), 0, 9, 1, "exit-code".to_string())),
    ];
    let enriched = systemd_monitoring_mcp::units::apply_enrichment(units, details);
    assert_eq!(enriched[0].main_pid, None);
    assert_eq!(enriched[0].unit, "a.service");
    assert_eq!(enriched[1].main_pid, Some(9));
    assert_eq!(enriched[1].result.as_deref(), Some("exit-code"));
}
