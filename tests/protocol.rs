use systemd_monitoring_mcp::json::{encode_json, get_member, redact_audit_params, Json};
use systemd_monitoring_mcp::rpc::RequestId;
use systemd_monitoring_mcp::server::{
    classify_body, collect_batch_responses, complete_logs, complete_services, empty_batch_response,
    handle_json_rpc_value, negotiate_protocol_version, parse_error_response, Body, ProtocolVersion, Step,
};
use systemd_monitoring_mcp::journal::{JournalLogEntry, LogQueryResult};
use systemd_monitoring_mcp::units::UnitStatus;
use systemd_monitoring_mcp::utc::UtcInstant;

fn s(v: &str) -> Json {
    Json::Str(v.to_string())
}

fn obj(fields: Vec<(&str, Json)>) -> Json {
    Json::Object(fields.into_iter().map(|(k, v)| (k.to_string(), v)).collect())
}

fn at<'a>(j: &'a Json, path: &[&str]) -> &'a Json {
    let mut cur = j;
    for key in path {
        cur = get_member(cur, key).unwrap_or_else(|| panic!("missing member {key}"));
    }
    cur
}

fn text(j: &Json) -> &str {
    match j {
        Json::Str(t) => t.as_str(),
        _ => panic!("not a string"),
    }
}

fn integer(j: &Json) -> i128 {
    match j {
        Json::Int(n) => *n as i128,
        Json::UInt(n) => *n as i128,
        _ => panic!("not an integer"),
    }
}

fn now() -> UtcInstant {
    UtcInstant { secs: 1_772_150_400, nanos: 0 }
}

fn request(id: Option<Json>, method: &str, params: Option<Json>) -> Json {
    let mut fields = vec![("jsonrpc", s("2.0"))];
    if let Some(id) = id {
        fields.push(("id", id));
    }
    fields.push(("method", s(method)));
    if let Some(p) = params {
        fields.push(("params", p));
    }
    obj(fields)
}

fn listed_unit(name: &str, active_state: &str) -> UnitStatus {
    UnitStatus {
        unit: name.to_string(),
        description: String::new(),
        load_state: "loaded".to_string(),
        active_state: active_state.to_string(),
        sub_state: "running".to_string(),
        unit_file_state: None,
        since_utc: None,
        main_pid: Some(7),
        exec_main_status: None,
        result: None,
    }
}

fn reply(step: Step) -> Json {
    match step {
        Step::Reply(j) => j,
        _ => panic!("expected a reply"),
    }
}

fn sample_params() -> Json {
    obj(vec![
        ("name", s("list_logs")),
        (
            "arguments",
            obj(vec![
                ("unit", s("sshd.service")),
                ("token", s("should-not-appear")),
                ("api_key", s("should-not-appear")),
                ("nested", obj(vec![("secret", s("should-not-appear"))])),
            ]),
        ),
    ])
}

fn check_redaction() {
    let params = sample_params();
    let redacted = redact_audit_params(Some(&params));
    assert_eq!(text(at(&redacted, &["name"])), "list_logs");
    assert_eq!(text(at(&redacted, &["arguments", "unit"])), "sshd.service");
    assert_eq!(text(at(&redacted, &["arguments", "token"])), "[REDACTED]");
    assert_eq!(text(at(&redacted, &["arguments", "api_key"])), "[REDACTED]");
    assert_eq!(text(at(&redacted, &["arguments", "nested", "secret"])), "[REDACTED]");
}

#[test]
fn api_redacts_sensitive_fields_in_audit_params() {
    check_redaction();
}

#[test]
fn server_redacts_sensitive_fields_in_audit_params() {
    check_redaction();
}

#[test]
fn redaction_is_idempotent_and_reaches_arrays() {
    let params = obj(vec![
        ("items", Json::Array(vec![obj(vec![("Refresh_TOKEN", s("x")), ("keep", Json::Int(1))])])),
        ("password", obj(vec![("inner", s("y"))])),
    ]);
    let once = redact_audit_params(Some(&params));
    let twice = redact_audit_params(Some(&once));
    assert_eq!(encode_json(&once), encode_json(&twice));
    assert_eq!(
        encode_json(&once),
        "{\"items\":[{\"Refresh_TOKEN\":\"[REDACTED]\",\"keep\":1}],\"password\":\"[REDACTED]\"}"
    );
    assert!(matches!(redact_audit_params(None), Json::Null));
}

#[test]
fn api_negotiate_protocol_version_accepts_supported_version() {
    let params = obj(vec![("protocolVersion", s("2024-11-05"))]);
    let version = negotiate_protocol_version(Some(&params)).expect("supported version");
    assert_eq!(version, ProtocolVersion::V2024_11_05);
}

#[test]
fn api_negotiate_protocol_version_rejects_unsupported_version() {
    let params = obj(vec![("protocolVersion", s("2026-01-01"))]);
    let error = negotiate_protocol_version(Some(&params)).expect_err("unsupported version must fail");
    assert!(error.to_string().contains("bad request"));
}

#[test]
fn server_negotiate_protocol_version_accepts_supported_version() {
    let params = obj(vec![("protocolVersion", s(ProtocolVersion::V2024_11_05.as_str()))]);
    let version = negotiate_protocol_version(Some(&params)).expect("supported version");
    assert_eq!(version, ProtocolVersion::V2024_11_05);
}

#[test]
fn server_negotiate_protocol_version_rejects_unsupported_version() {
    let params = obj(vec![("protocolVersion", s("2026-01-01"))]);
    let error = negotiate_protocol_version(Some(&params)).expect_err("unsupported version must fail");
    assert!(error.to_string().contains("bad request"));
}

#[test]
fn negotiation_error_codes() {
    let missing = negotiate_protocol_version(Some(&obj(vec![]))).unwrap_err();
    assert_eq!(missing.code(), "invalid_protocol_version");
    let blank = negotiate_protocol_version(Some(&obj(vec![("protocolVersion", s("  "))]))).unwrap_err();
    assert_eq!(blank.code(), "invalid_protocol_version");
    let other = negotiate_protocol_version(Some(&obj(vec![("protocolVersion", s("2026-01-01"))]))).unwrap_err();
    assert_eq!(other.code(), "unsupported_protocol_version");
    assert!(negotiate_protocol_version(None).is_err());
}

#[test]
fn initialize_returns_capabilities() {
    let params = obj(vec![
        ("protocolVersion", s("2024-11-05")),
        ("capabilities", obj(vec![])),
        ("clientInfo", obj(vec![("name", s("c")), ("version", s("1"))])),
    ]);
    let handled = handle_json_rpc_value(request(Some(Json::Int(1)), "initialize", Some(params)), &now());
    assert!(handled.reply);
    let r = reply(handled.step);
    assert_eq!(text(at(&r, &["jsonrpc"])), "2.0");
    assert_eq!(text(at(&r, &["result", "protocolVersion"])), "2024-11-05");
    assert!(get_member(at(&r, &["result", "capabilities"]), "tools").is_some());
    assert!(get_member(at(&r, &["result", "capabilities"]), "prompts").is_none());
    assert_eq!(text(at(&r, &["result", "serverInfo", "name"])), "systemd_monitoring_mcp");
}

#[test]
fn initialize_without_client_info_is_invalid_params() {
    let params = obj(vec![("protocolVersion", s("2024-11-05"))]);
    let r = reply(handle_json_rpc_value(request(Some(Json::Int(9)), "initialize", Some(params)), &now()).step);
    assert_eq!(integer(at(&r, &["error", "code"])), -32602);
}

#[test]
fn tools_call_list_services_returns_failed_units_only() {
    let payload = request(
        Some(Json::Int(1)),
        "tools/call",
        Some(obj(vec![("name", s("list_services")), ("arguments", obj(vec![("state", s("failed"))]))])),
    );
    let handled = handle_json_rpc_value(payload, &now());
    let call = match handled.step {
        Step::Services(call) => call,
        _ => panic!("expected a unit listing"),
    };
    let units = vec![listed_unit("b.service", "failed"), listed_unit("c.service", "active"), listed_unit("a.service", "failed")];
    let r = complete_services(call, Ok(units), "2026-02-27T00:00:00.000Z");
    assert_eq!(integer(at(&r, &["id"])), 1);
    let services = match at(&r, &["result", "structuredContent", "services"]) {
        Json::Array(items) => items,
        _ => panic!("services must be an array"),
    };
    assert_eq!(services.len(), 2);
    assert_eq!(text(at(&services[0], &["unit"])), "a.service");
    for service in services {
        assert_eq!(text(at(service, &["active_state"])), "failed");
    }
    assert_eq!(integer(at(&r, &["result", "structuredContent", "total"])), 2);
    assert!(matches!(at(&r, &["result", "structuredContent", "truncated"]), Json::Bool(false)));
    let content = match at(&r, &["result", "content"]) {
        Json::Array(items) => items,
        _ => panic!("content must be an array"),
    };
    assert_eq!(text(at(&content[0], &["text"])), "Returned 2 of 2 services");
}

#[test]
fn tools_call_rejects_invalid_state_with_data_code() {
    let payload = request(
        Some(Json::Int(33)),
        "tools/call",
        Some(obj(vec![("name", s("list_services")), ("arguments", obj(vec![("state", s("running"))]))])),
    );
    let r = reply(handle_json_rpc_value(payload, &now()).step);
    assert_eq!(integer(at(&r, &["error", "code"])), -32602);
    assert_eq!(text(at(&r, &["error", "data", "code"])), "invalid_state");
}

#[test]
fn tools_call_unknown_tool_and_resource() {
    let tool = request(Some(Json::Int(503)), "tools/call", Some(obj(vec![("name", s("nope"))])));
    let r = reply(handle_json_rpc_value(tool, &now()).step);
    assert_eq!(integer(at(&r, &["error", "code"])), -32601);
    assert_eq!(text(at(&r, &["error", "data", "code"])), "tool_not_found");
    let resource = request(Some(Json::Int(501)), "resources/read", Some(obj(vec![("uri", s("resource://nope"))])));
    let r = reply(handle_json_rpc_value(resource, &now()).step);
    assert_eq!(integer(at(&r, &["error", "code"])), -32601);
    assert_eq!(text(at(&r, &["error", "data", "code"])), "resource_not_found");
    let malformed = request(Some(Json::Int(502)), "tools/call", Some(obj(vec![("name", Json::Int(5))])));
    let r = reply(handle_json_rpc_value(malformed, &now()).step);
    assert_eq!(integer(at(&r, &["error", "code"])), -32602);
}

#[test]
fn tools_call_list_logs_returns_structured_content() {
    let args = obj(vec![
        ("start_utc", s("2026-02-27T00:00:00Z")),
        ("end_utc", s("2026-02-27T01:00:00Z")),
        ("limit", Json::Int(1)),
    ]);
    let payload = request(Some(Json::Str("x".to_string())), "tools/call", Some(obj(vec![("name", s("list_logs")), ("arguments", args)])));
    let call = match handle_json_rpc_value(payload, &now()).step {
        Step::Logs(call) => call,
        _ => panic!("expected a journal scan"),
    };
    assert_eq!(call.query.limit, 1);
    let entry = JournalLogEntry {
        timestamp_utc: "2026-02-27T00:00:00.000Z".to_string(),
        unit: Some("ssh.service".to_string()),
        priority: Some("6".to_string()),
        hostname: None,
        pid: None,
        message: Some("Started OpenSSH server".to_string()),
        cursor: None,
    };
    let r = complete_logs(call, Ok(LogQueryResult { entries: vec![entry], total_scanned: Some(4) }), "now");
    assert_eq!(text(at(&r, &["id"])), "x");
    assert_eq!(integer(at(&r, &["result", "structuredContent", "returned"])), 1);
    assert_eq!(integer(at(&r, &["result", "structuredContent", "total_scanned"])), 4);
    assert!(matches!(at(&r, &["result", "structuredContent", "truncated"]), Json::Bool(true)));
    assert_eq!(text(at(&r, &["result", "structuredContent", "window", "start_utc"])), "2026-02-27T00:00:00.000Z");
}

#[test]
fn list_logs_invalid_limit_is_invalid_params() {
    let args = obj(vec![
        ("start_utc", s("2026-02-27T00:00:00Z")),
        ("end_utc", s("2026-02-27T01:00:00Z")),
        ("limit", Json::Int(0)),
    ]);
    let payload = request(Some(Json::Int(42)), "tools/call", Some(obj(vec![("name", s("list_logs")), ("arguments", args)])));
    let r = reply(handle_json_rpc_value(payload, &now()).step);
    assert_eq!(integer(at(&r, &["error", "code"])), -32602);
    assert_eq!(text(at(&r, &["error", "data", "code"])), "invalid_limit");
}

#[test]
fn resources_list_and_failed_snapshot() {
    let r = reply(handle_json_rpc_value(request(Some(Json::Int(41)), "resources/list", Some(obj(vec![]))), &now()).step);
    let resources = match at(&r, &["result", "resources"]) {
        Json::Array(items) => items,
        _ => panic!("resources must be an array"),
    };
    let uris: Vec<&str> = resources.iter().map(|r| text(at(r, &["uri"]))).collect();
    assert_eq!(uris, vec!["resource://services/snapshot", "resource://services/failed", "resource://logs/recent"]);
    let read = request(Some(Json::Int(43)), "resources/read", Some(obj(vec![("uri", s("resource://services/failed"))])));
    let call = match handle_json_rpc_value(read, &now()).step {
        Step::Services(call) => call,
        _ => panic!("expected a unit listing"),
    };
    let r = complete_services(call, Ok(vec![listed_unit("a.service", "active"), listed_unit("b.service", "failed")]), "now");
    let contents = match at(&r, &["result", "contents"]) {
        Json::Array(items) => items,
        _ => panic!("contents must be an array"),
    };
    assert_eq!(text(at(&contents[0], &["uri"])), "resource://services/failed");
    let body = text(at(&contents[0], &["text"]));
    assert!(body.starts_with("{\"services\":[{\"unit\":\"b.service\""));
    assert!(!body.contains("a.service"));
    let recent = request(Some(Json::Int(44)), "resources/read", Some(obj(vec![("uri", s("resource://logs/recent"))])));
    match handle_json_rpc_value(recent, &now()).step {
        Step::Logs(call) => {
            assert_eq!(call.query.limit, 100);
            assert_eq!(call.query.end_utc, Some(now()));
            assert_eq!(call.query.start_utc.map(|t| t.secs), Some(now().secs - 3600));
        }
        _ => panic!("expected a journal scan"),
    }
}

#[test]
fn notifications_and_invalid_messages() {
    let note = handle_json_rpc_value(request(None, "ping", None), &now());
    assert!(!note.reply);
    assert!(note.audit.is_some());
    let blank = handle_json_rpc_value(request(None, "  ", None), &now());
    assert!(!blank.reply);
    assert!(matches!(blank.step, Step::Nothing));
    let not_object = handle_json_rpc_value(Json::Int(3), &now());
    assert!(not_object.reply);
    let r = reply(not_object.step);
    assert_eq!(integer(at(&r, &["error", "code"])), -32600);
    assert!(matches!(at(&r, &["id"]), Json::Null));
    let response = obj(vec![("jsonrpc", s("2.0")), ("id", Json::Int(5)), ("result", obj(vec![]))]);
    let r = reply(handle_json_rpc_value(response, &now()).step);
    assert_eq!(integer(at(&r, &["error", "code"])), -32600);
    assert_eq!(integer(at(&r, &["id"])), 5);
    let unknown = reply(handle_json_rpc_value(request(Some(Json::Int(1)), "unknown", None), &now()).step);
    assert_eq!(integer(at(&unknown, &["error", "code"])), -32601);
    let blank_request = reply(handle_json_rpc_value(request(Some(Json::Int(2)), " ", None), &now()).step);
    assert_eq!(integer(at(&blank_request, &["error", "code"])), -32600);
    let ping = reply(handle_json_rpc_value(request(Some(Json::Int(3)), "ping", None), &now()).step);
    assert!(matches!(at(&ping, &["result"]), Json::Object(f) if f.is_empty()));
}

#[test]
fn batches_answer_only_requests_in_order() {
    let items = vec![
        request(None, "ping", None),
        request(Some(Json::Int(100)), "ping", None),
        request(None, "tools/list", None),
        request(Some(Json::Int(200)), "tools/list", None),
    ];
    let body = match classify_body(Json::Array(items)) {
        Body::Batch(items) => items,
        _ => panic!("expected a batch"),
    };
    let mut responses = Vec::new();
    for item in body {
        let handled = handle_json_rpc_value(item, &now());
        responses.push(if handled.reply { Some(reply(handled.step)) } else { None });
    }
    let out = collect_batch_responses(responses).expect("two responses");
    let items = match &out {
        Json::Array(items) => items,
        _ => panic!("batch response must be an array"),
    };
    assert_eq!(items.len(), 2);
    assert_eq!(integer(at(&items[0], &["id"])), 100);
    assert_eq!(integer(at(&items[1], &["id"])), 200);
    assert_eq!(collect_batch_responses(vec![None, None]).is_none(), true);
    assert!(matches!(classify_body(Json::Array(vec![])), Body::EmptyBatch));
    let empty = empty_batch_response();
    assert!(matches!(&empty, Json::Array(items) if items.len() == 1));
    assert_eq!(integer(at(&parse_error_response(), &["error", "code"])), -32700);
}

#[test]
fn json_text_is_compact_and_escaped() {
    let value = obj(vec![
        ("a", Json::Array(vec![Json::Int(-12), Json::UInt(18_446_744_073_709_551_615), Json::Null, Json::Bool(true)])),
        ("b", s("q\"\\\n\u{1}")),
        ("c", Json::Number("1.5".to_string())),
    ]);
    assert_eq!(encode_json(&value), "{\"a\":[-12,18446744073709551615,null,true],\"b\":\"q\\\"\\\\\\n\\u0001\",\"c\":1.5}");
    assert_eq!(encode_json(&Json::Array(vec![])), "[]");
    let id = RequestId::Str("abc".to_string());
    assert!(matches!(systemd_monitoring_mcp::rpc::request_id_to_value(&id), Json::Str(t) if t == "abc"));
}

#[test]
fn error_replies_follow_the_taxonomy() {
    let unknown = reply(handle_json_rpc_value(request(Some(Json::Int(1)), "unknown", None), &now()).step);
    assert!(get_member(at(&unknown, &["error"]), "data").is_none());
    let bad_id = obj(vec![("jsonrpc", s("2.0")), ("id", Json::Bool(true)), ("method", s("ping"))]);
    let r = reply(handle_json_rpc_value(bad_id, &now()).step);
    assert_eq!(integer(at(&r, &["error", "code"])), -32600);
    assert!(matches!(at(&r, &["id"]), Json::Null));
    let args = obj(vec![
        ("start_utc", s("2026-02-27T00:00:00Z")),
        ("end_utc", s("2026-02-27T01:00:00Z")),
        ("limit", Json::Int(1001)),
    ]);
    let payload = request(Some(Json::Int(42)), "tools/call", Some(obj(vec![("name", s("list_logs")), ("arguments", args)])));
    let r = reply(handle_json_rpc_value(payload, &now()).step);
    assert_eq!(integer(at(&r, &["id"])), 42);
    assert_eq!(text(at(&r, &["error", "data", "code"])), "invalid_limit");
    assert_eq!(text(at(&r, &["error", "data", "message"])), "limit must be between 1 and 1000");
    assert!(matches!(at(&r, &["error", "data", "details"]), Json::Object(f) if f.is_empty()));
}

#[test]
fn log_listing_never_exceeds_its_limit() {
    let args = obj(vec![
        ("start_utc", s("2026-02-27T00:00:00Z")),
        ("end_utc", s("2026-02-27T01:00:00Z")),
        ("limit", Json::Int(1)),
    ]);
    let payload = request(Some(Json::Int(7)), "tools/call", Some(obj(vec![("name", s("list_logs")), ("arguments", args)])));
    let call = match handle_json_rpc_value(payload, &now()).step {
        Step::Logs(call) => call,
        _ => panic!("expected a journal scan"),
    };
    let entry = |m: &str| JournalLogEntry {
        timestamp_utc: "2026-02-27T00:00:00.000Z".to_string(),
        unit: None,
        priority: None,
        hostname: None,
        pid: None,
        message: Some(m.to_string()),
        cursor: None,
    };
    let r = complete_logs(call, Ok(LogQueryResult { entries: vec![entry("a"), entry("b")], total_scanned: Some(2) }), "now");
    assert_eq!(integer(at(&r, &["result", "structuredContent", "returned"])), 1);
    assert!(matches!(at(&r, &["result", "structuredContent", "truncated"]), Json::Bool(true)));
    assert!(matches!(at(&r, &["result", "structuredContent", "logs"]), Json::Array(items) if items.len() == 1));
}

#[test]
fn protocol_version_must_match_exactly() {
    let padded = negotiate_protocol_version(Some(&obj(vec![("protocolVersion", s(" 2024-11-05 "))]))).unwrap_err();
    assert_eq!(padded.code(), "unsupported_protocol_version");
    let unknown = reply(handle_json_rpc_value(request(Some(Json::Int(1)), "unknown", None), &now()).step);
    assert!(get_member(&unknown, "result").is_none());
    assert_eq!(encode_json(&unknown), "{\"jsonrpc\":\"2.0\",\"id\":1,\"error\":{\"code\":-32601,\"message\":\"Method not found\"}}");
}
