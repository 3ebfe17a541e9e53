//! The protocol engine: classification of inbound values, per-method shape
//! validation, dispatch, and the responses built once a provider has
//! answered. Provider work is requested through `Step`, so the caller runs
//! it (the unit listing or the journal scan) and hands the outcome back.

use vstd::prelude::*;
use crate::errors::{AppError, is_bad_request};
use crate::journal::LogQueryResult;
use crate::json::{Json, encode_json, get, get_member, is_str, redact_audit_params, redacted, string};
use crate::render::{entries_to_json, entry, field_at, members_len, renders_unit, tool_result, units_to_json};
use crate::rpc::{Envelope, RequestId, app_error_to_json_rpc, error_data_code, is_call_shape, is_error_response, is_result_response, json_rpc_error, json_rpc_error_with_data, json_rpc_result, parse_envelope, rpc_code, rpc_message, INVALID_PARAMS, INVALID_REQUEST, METHOD_NOT_FOUND, PARSE_ERROR};
use crate::summary::{build_log_summary, build_service_summary, LogSummary, ServiceSummary};
use crate::text::{char_vec, str_eq, trim_chars, trimmed};
use crate::units::{UnitStatus, filter_services_by_name_contains, filter_services_by_state, name_contains, sort_services, state_matches, units_sorted};
use crate::utc::{UtcInstant, format_rfc3339_millis};
use crate::validate::{LogOrder, LogQuery, LogsQueryParams, ServicesQueryParams, build_log_query, normalize_name_contains, normalize_service_state, normalize_services_limit, opt_view, DEFAULT_LOG_LIMIT};

verus! {

pub const SUPPORTED_PROTOCOL_VERSION: &'static str = "2024-11-05";
pub const SERVER_NAME: &'static str = "systemd_monitoring_mcp";
pub const SERVER_VERSION: &'static str = "0.1.0";
pub const SERVICES_RESOURCE_URI: &'static str = "resource://services/snapshot";
pub const FAILED_SERVICES_RESOURCE_URI: &'static str = "resource://services/failed";
pub const LOGS_RESOURCE_URI: &'static str = "resource://logs/recent";

#[derive(Debug, Clone, Copy, PartialEq, Eq, Structural)]
pub enum ProtocolVersion {
    V2024_11_05,
}

impl ProtocolVersion {
    pub fn as_str(&self) -> (r: &'static str)
        ensures
            r@ == SUPPORTED_PROTOCOL_VERSION@,
    {
        SUPPORTED_PROTOCOL_VERSION
    }
}

/// The protocol version a client offers: `params.protocolVersion`, as
/// given, when it is a string that is not blank.
pub open spec fn offered_version(params: Option<Json>) -> Option<Seq<char>> {
    match params {
        Some(p) => match get(p, "protocolVersion"@) {
            Some(Json::Str(v)) => if trimmed(v@).len() > 0 {
                Some(v@)
            } else {
                None
            },
            _ => None,
        },
        None => None,
    }
}

pub fn negotiate_protocol_version(params: Option<&Json>) -> (r: Result<ProtocolVersion, AppError>)
    ensures
        match offered_version(match params { Some(p) => Some(*p), None => None }) {
            None => r matches Err(e) && is_bad_request(e, "invalid_protocol_version"@),
            Some(v) => if v == SUPPORTED_PROTOCOL_VERSION@ {
                r == Ok::<ProtocolVersion, AppError>(ProtocolVersion::V2024_11_05)
            } else {
                r matches Err(e) && is_bad_request(e, "unsupported_protocol_version"@)
            },
        },
{
    let offered = match params {
        Some(p) => match get_member(p, "protocolVersion") {
            Some(Json::Str(v)) => {
                let raw = char_vec(v.as_str());
                let t = trim_chars(&raw);
                if t.len() > 0 {
                    Some(v.clone())
                } else {
                    None
                }
            },
            _ => None,
        },
        None => None,
    };
    match offered {
        None => Err(
            AppError::bad_request(
                "invalid_protocol_version",
                "initialize params.protocolVersion is required",
            ),
        ),
        Some(v) => {
            if str_eq(v.as_str(), SUPPORTED_PROTOCOL_VERSION) {
                Ok(ProtocolVersion::V2024_11_05)
            } else {
                Err(
                    AppError::bad_request(
                        "unsupported_protocol_version",
                        "unsupported initialize protocolVersion",
                    ),
                )
            }
        },
    }
}

/// `j` is absent, `null`, or a string.
pub open spec fn opt_str_ok(j: Option<Json>) -> bool {
    match j {
        None => true,
        Some(v) => v is Null || v is Str,
    }
}

/// `j` is absent, `null`, or an object.
pub open spec fn opt_obj_ok(j: Option<Json>) -> bool {
    match j {
        None => true,
        Some(v) => v is Null || v is Object,
    }
}

pub open spec fn is_str_member(j: Json, key: Seq<char>) -> bool {
    get(j, key) matches Some(v) && v is Str
}

pub open spec fn is_obj_member(j: Json, key: Seq<char>) -> bool {
    get(j, key) matches Some(v) && v is Object
}

/// The parameter shape each known method requires; other methods have none.
pub open spec fn shape_ok(method: Seq<char>, params: Option<Json>) -> bool {
    if method == "tools/call"@ {
        params matches Some(p) && p is Object && is_str_member(p, "name"@) && opt_obj_ok(get(p, "arguments"@))
    } else if method == "resources/read"@ {
        params matches Some(p) && p is Object && is_str_member(p, "uri"@)
    } else if method == "tools/list"@ || method == "resources/list"@ {
        match params {
            None => true,
            Some(p) => p is Object && opt_str_ok(get(p, "cursor"@)),
        }
    } else if method == "ping"@ {
        match params {
            None => true,
            Some(p) => p is Object,
        }
    } else if method == "initialize"@ {
        params matches Some(p) && p is Object && is_str_member(p, "protocolVersion"@) && is_obj_member(p, "capabilities"@)
            && (get(p, "clientInfo"@) matches Some(c) && c is Object && is_str_member(c, "name"@) && is_str_member(c, "version"@))
    } else {
        true
    }
}

fn is_object(j: &Json) -> (r: bool)
    ensures
        r == (*j is Object),
{
    match j {
        Json::Object(_) => true,
        _ => false,
    }
}

fn str_member(j: &Json, key: &str) -> (r: bool)
    ensures
        r == is_str_member(*j, key@),
{
    match get_member(j, key) {
        Some(Json::Str(_)) => true,
        _ => false,
    }
}

fn obj_member(j: &Json, key: &str) -> (r: bool)
    ensures
        r == is_obj_member(*j, key@),
{
    match get_member(j, key) {
        Some(Json::Object(_)) => true,
        _ => false,
    }
}

/// Whether the parameters fit the shape the method requires.
pub fn validate_request_shape(method: &str, params: &Option<Json>) -> (r: bool)
    ensures
        r == shape_ok(method@, *params),
{
    if str_eq(method, "tools/call") {
        match params {
            Some(p) => {
                let args_ok = match get_member(p, "arguments") {
                    None => true,
                    Some(Json::Null) => true,
                    Some(Json::Object(_)) => true,
                    _ => false,
                };
                is_object(p) && str_member(p, "name") && args_ok
            },
            None => false,
        }
    } else if str_eq(method, "resources/read") {
        match params {
            Some(p) => is_object(p) && str_member(p, "uri"),
            None => false,
        }
    } else if str_eq(method, "tools/list") || str_eq(method, "resources/list") {
        match params {
            None => true,
            Some(p) => {
                let cursor_ok = match get_member(p, "cursor") {
                    None => true,
                    Some(Json::Null) => true,
                    Some(Json::Str(_)) => true,
                    _ => false,
                };
                is_object(p) && cursor_ok
            },
        }
    } else if str_eq(method, "ping") {
        match params {
            None => true,
            Some(p) => is_object(p),
        }
    } else if str_eq(method, "initialize") {
        match params {
            Some(p) => {
                let client_ok = match get_member(p, "clientInfo") {
                    Some(c) => is_object(c) && str_member(c, "name") && str_member(c, "version"),
                    None => false,
                };
                is_object(p) && str_member(p, "protocolVersion") && obj_member(p, "capabilities") && client_ok
            },
            None => false,
        }
    } else {
        true
    }
}

/// A string argument: `Some(None)` when absent or `null`, `None` when of
/// another type.
pub open spec fn str_arg(args: Option<Json>, key: Seq<char>) -> Option<Option<Seq<char>>> {
    match args {
        None => Some(None),
        Some(a) => match get(a, key) {
            None => Some(None),
            Some(Json::Null) => Some(None),
            Some(Json::Str(s)) => Some(Some(s@)),
            _ => None,
        },
    }
}

/// A `u32` argument.
pub open spec fn u32_arg(args: Option<Json>, key: Seq<char>) -> Option<Option<u32>> {
    match args {
        None => Some(None),
        Some(a) => match get(a, key) {
            None => Some(None),
            Some(Json::Null) => Some(None),
            Some(Json::Int(n)) => if 0 <= n <= u32::MAX { Some(Some(n as u32)) } else { None },
            _ => None,
        },
    }
}

/// A boolean argument.
pub open spec fn bool_arg(args: Option<Json>, key: Seq<char>) -> Option<Option<bool>> {
    match args {
        None => Some(None),
        Some(a) => match get(a, key) {
            None => Some(None),
            Some(Json::Null) => Some(None),
            Some(Json::Bool(b)) => Some(Some(b)),
            _ => None,
        },
    }
}

/// Arguments are absent, `null` or an object.
pub open spec fn args_ok(args: Option<Json>) -> bool {
    match args {
        None => true,
        Some(a) => a is Object,
    }
}

fn read_str_arg(args: Option<&Json>, key: &str) -> (r: Option<Option<String>>)
    ensures
        match str_arg(match args { Some(a) => Some(*a), None => None }, key@) {
            None => r is None,
            Some(None) => r matches Some(None),
            Some(Some(s)) => r matches Some(Some(t)) && t@ == s,
        },
{
    match args {
        None => Some(None),
        Some(a) => match get_member(a, key) {
            None => Some(None),
            Some(Json::Null) => Some(None),
            Some(Json::Str(s)) => Some(Some(s.clone())),
            _ => None,
        },
    }
}

fn read_u32_arg(args: Option<&Json>, key: &str) -> (r: Option<Option<u32>>)
    ensures
        r == u32_arg(match args { Some(a) => Some(*a), None => None }, key@),
{
    match args {
        None => Some(None),
        Some(a) => match get_member(a, key) {
            None => Some(None),
            Some(Json::Null) => Some(None),
            Some(Json::Int(n)) => if 0 <= *n && *n <= u32::MAX as i64 { Some(Some(*n as u32)) } else { None },
            _ => None,
        },
    }
}

fn read_bool_arg(args: Option<&Json>, key: &str) -> (r: Option<Option<bool>>)
    ensures
        r == bool_arg(match args { Some(a) => Some(*a), None => None }, key@),
{
    match args {
        None => Some(None),
        Some(a) => match get_member(a, key) {
            None => Some(None),
            Some(Json::Null) => Some(None),
            Some(Json::Bool(b)) => Some(Some(*b)),
            _ => None,
        },
    }
}

/// A list-of-strings argument: `Some(None)` when absent or `null`.
pub open spec fn str_list_arg(args: Option<Json>, key: Seq<char>) -> Option<Option<Seq<Seq<char>>>> {
    match args {
        None => Some(None),
        Some(a) => match get(a, key) {
            None => Some(None),
            Some(Json::Null) => Some(None),
            Some(Json::Array(xs)) => if forall|i: int| 0 <= i < xs@.len() ==> (#[trigger] xs@[i]) is Str {
                Some(Some(Seq::new(xs@.len(), |i: int| xs@[i]->Str_0@)))
            } else {
                None
            },
            _ => None,
        },
    }
}

fn read_str_list_arg(args: Option<&Json>, key: &str) -> (r: Option<Option<Vec<String>>>)
    ensures
        match str_list_arg(match args { Some(a) => Some(*a), None => None }, key@) {
            None => r is None,
            Some(None) => r matches Some(None),
            Some(Some(l)) => r matches Some(Some(v)) && v@.len() == l.len() && forall|i: int|
                0 <= i < l.len() ==> (#[trigger] v@[i])@ == l[i],
        },
{
    let a = match args {
        None => return Some(None),
        Some(a) => a,
    };
    let xs = match get_member(a, key) {
        None => return Some(None),
        Some(Json::Null) => return Some(None),
        Some(Json::Array(xs)) => xs,
        _ => return None,
    };
    let mut out: Vec<String> = Vec::new();
    let mut i: usize = 0;
    while i < xs.len()
        invariant
            args == Some(a),
            get(*a, key@) == Some(Json::Array(*xs)),
            i <= xs@.len(),
            out@.len() == i,
            forall|k: int| 0 <= k < i ==> (#[trigger] xs@[k]) is Str && out@[k]@ == xs@[k]->Str_0@,
        decreases xs@.len() - i,
    {
        match &xs[i] {
            Json::Str(s) => out.push(s.clone()),
            _ => {
                assert(!(xs@[i as int] is Str));
                return None;
            },
        }
        i += 1;
    }
    Some(Some(out))
}

/// The service listing arguments, or `None` when one has the wrong type.
pub fn services_args(args: Option<&Json>) -> (r: Option<ServicesQueryParams>)
    ensures
        ({
            let a = match args { Some(a) => Some(*a), None => None };
            match r {
                None => !args_ok(a) || str_arg(a, "state"@) is None || str_arg(a, "name_contains"@) is None
                    || u32_arg(a, "limit"@) is None || bool_arg(a, "summary"@) is None,
                Some(q) => args_ok(a) && str_arg(a, "state"@) == Some(opt_view(q.state))
                    && str_arg(a, "name_contains"@) == Some(opt_view(q.name_contains))
                    && u32_arg(a, "limit"@) == Some(q.limit) && bool_arg(a, "summary"@) == Some(q.summary),
            }
        }),
{
    match args {
        Some(a) => {
            if !is_object(a) {
                return None;
            }
        },
        None => {},
    }
    let state = match read_str_arg(args, "state") {
        Some(v) => v,
        None => return None,
    };
    let name_contains = match read_str_arg(args, "name_contains") {
        Some(v) => v,
        None => return None,
    };
    let limit = match read_u32_arg(args, "limit") {
        Some(v) => v,
        None => return None,
    };
    let summary = match read_bool_arg(args, "summary") {
        Some(v) => v,
        None => return None,
    };
    Some(ServicesQueryParams { state, name_contains, limit, summary })
}

/// `q` holds what the log listing arguments `a` say.
pub open spec fn logs_params_read(a: Option<Json>, q: LogsQueryParams) -> bool {
    &&& args_ok(a)
    &&& str_arg(a, "priority"@) == Some(opt_view(q.priority))
    &&& str_arg(a, "unit"@) == Some(opt_view(q.unit))
    &&& str_arg(a, "start_utc"@) == Some(opt_view(q.start_utc))
    &&& str_arg(a, "end_utc"@) == Some(opt_view(q.end_utc))
    &&& str_arg(a, "grep"@) == Some(opt_view(q.grep))
    &&& match str_list_arg(a, "exclude_units"@) {
        Some(None) => q.exclude_units is None,
        Some(Some(l)) => q.exclude_units matches Some(v) && v@.len() == l.len()
            && forall|i: int| 0 <= i < l.len() ==> (#[trigger] v@[i])@ == l[i],
        None => false,
    }
    &&& str_arg(a, "order"@) == Some(opt_view(q.order))
    &&& bool_arg(a, "allow_large_window"@) == Some(q.allow_large_window)
    &&& u32_arg(a, "limit"@) == Some(q.limit)
    &&& bool_arg(a, "summary"@) == Some(q.summary)
}

/// The log listing arguments, or `None` when one has the wrong type.
pub fn logs_args(args: Option<&Json>) -> (r: Option<LogsQueryParams>)
    ensures
        ({
            let a = match args { Some(a) => Some(*a), None => None };
            match r {
                None => !args_ok(a) || str_arg(a, "priority"@) is None || str_arg(a, "unit"@) is None
                    || str_arg(a, "start_utc"@) is None || str_arg(a, "end_utc"@) is None
                    || str_arg(a, "grep"@) is None || str_list_arg(a, "exclude_units"@) is None
                    || str_arg(a, "order"@) is None || bool_arg(a, "allow_large_window"@) is None
                    || u32_arg(a, "limit"@) is None || bool_arg(a, "summary"@) is None,
                Some(q) => logs_params_read(a, q),
            }
        }),
{
    match args {
        Some(a) => {
            if !is_object(a) {
                return None;
            }
        },
        None => {},
    }
    let priority = match read_str_arg(args, "priority") {
        Some(v) => v,
        None => return None,
    };
    let unit = match read_str_arg(args, "unit") {
        Some(v) => v,
        None => return None,
    };
    let start_utc = match read_str_arg(args, "start_utc") {
        Some(v) => v,
        None => return None,
    };
    let end_utc = match read_str_arg(args, "end_utc") {
        Some(v) => v,
        None => return None,
    };
    let grep = match read_str_arg(args, "grep") {
        Some(v) => v,
        None => return None,
    };
    let exclude_units = match read_str_list_arg(args, "exclude_units") {
        Some(v) => v,
        None => return None,
    };
    let order = match read_str_arg(args, "order") {
        Some(v) => v,
        None => return None,
    };
    let allow_large_window = match read_bool_arg(args, "allow_large_window") {
        Some(v) => v,
        None => return None,
    };
    let limit = match read_u32_arg(args, "limit") {
        Some(v) => v,
        None => return None,
    };
    let summary = match read_bool_arg(args, "summary") {
        Some(v) => v,
        None => return None,
    };
    Some(
        LogsQueryParams {
            priority,
            unit,
            start_utc,
            end_utc,
            grep,
            exclude_units,
            order,
            allow_large_window,
            limit,
            summary,
        },
    )
}

fn empty_object() -> (r: Json)
    ensures
        r matches Json::Object(f) && f@.len() == 0,
{
    Json::Object(Vec::new())
}

/// `{"type": <ty>}`.
fn typed(ty: &str) -> (r: Json) {
    let mut f: Vec<(String, Json)> = Vec::new();
    f.push(entry("type", string(ty)));
    Json::Object(f)
}

/// `j` is an object whose members are named `names`, in order.
pub open spec fn member_names(j: Json, names: Seq<Seq<char>>) -> bool {
    j matches Json::Object(f) && f@.len() == names.len() && forall|i: int| 0 <= i < names.len() ==> (#[trigger] f@[i]).0@ == names[i]
}

/// `j` is an array of the strings `items`, in order.
pub open spec fn str_array(j: Json, items: Seq<Seq<char>>) -> bool {
    j matches Json::Array(v) && v@.len() == items.len() && forall|i: int| 0 <= i < items.len() ==> is_str(#[trigger] v@[i], items[i])
}

/// `j` describes a tool: its name, description, and an object input schema
/// with these properties and required arguments.
pub open spec fn is_tool_entry(j: Json, name: Seq<char>, description: Seq<char>, properties: Seq<Seq<char>>, required: Seq<Seq<char>>) -> bool {
    &&& members_len(j) == 3
    &&& field_at(j, 0, "name"@) matches Some(n) && is_str(n, name)
    &&& field_at(j, 1, "description"@) matches Some(d) && is_str(d, description)
    &&& field_at(j, 2, "inputSchema"@) matches Some(schema) && members_len(schema) == 3
        && (field_at(schema, 0, "type"@) matches Some(t) && is_str(t, "object"@))
        && (field_at(schema, 1, "properties"@) matches Some(p) && member_names(p, properties))
        && (field_at(schema, 2, "required"@) matches Some(q) && str_array(q, required))
}

fn tool_entry(name: &str, description: &str, properties: Vec<(String, Json)>, required: Vec<Json>) -> (r: Json)
    ensures
        field_at(r, 0, "name"@) matches Some(n) && is_str(n, name@),
        forall|names: Seq<Seq<char>>, req: Seq<Seq<char>>| member_names(Json::Object(properties), names) && str_array(Json::Array(required), req)
            ==> #[trigger] is_tool_entry(r, name@, description@, names, req),
{
    let mut schema: Vec<(String, Json)> = Vec::new();
    schema.push(entry("type", string("object")));
    schema.push(entry("properties", Json::Object(properties)));
    schema.push(entry("required", Json::Array(required)));
    let mut f: Vec<(String, Json)> = Vec::new();
    f.push(entry("name", string(name)));
    f.push(entry("description", string(description)));
    f.push(entry("inputSchema", Json::Object(schema)));
    Json::Object(f)
}

/// The catalogue of the two tools with their input schemas.
pub open spec fn is_tool_catalogue(j: Json) -> bool {
    j matches Json::Array(tools) && tools@.len() == 2 && is_tool_entry(
        tools@[0],
        "list_services"@,
        "List systemd service units and current state"@,
        seq!["state"@, "name_contains"@, "limit"@, "summary"@],
        seq![],
    ) && is_tool_entry(
        tools@[1],
        "list_logs"@,
        "List journald logs with filters and bounds"@,
        seq![
            "priority"@, "unit"@, "start_utc"@, "end_utc"@, "grep"@, "exclude_units"@, "order"@,
            "allow_large_window"@, "limit"@, "summary"@,
        ],
        seq!["start_utc"@, "end_utc"@],
    )
}

/// The tool catalogue: `list_services` and `list_logs`, each with its input
/// schema (`list_logs` requires `start_utc` and `end_utc`).
pub fn build_tools_list() -> (r: Json)
    ensures
        is_tool_catalogue(r),
        r matches Json::Array(tools) && tools@.len() == 2
            && (field_at(tools@[0], 0, "name"@) matches Some(n) && is_str(n, "list_services"@))
            && (field_at(tools@[1], 0, "name"@) matches Some(n) && is_str(n, "list_logs"@)),
{
    let mut sp: Vec<(String, Json)> = Vec::new();
    sp.push(entry("state", typed("string")));
    sp.push(entry("name_contains", typed("string")));
    sp.push(entry("limit", typed("integer")));
    sp.push(entry("summary", typed("boolean")));
    let services = tool_entry("list_services", "List systemd service units and current state", sp, Vec::new());
    let mut list_items: Vec<(String, Json)> = Vec::new();
    list_items.push(entry("type", string("array")));
    list_items.push(entry("items", typed("string")));
    let mut lp: Vec<(String, Json)> = Vec::new();
    lp.push(entry("priority", typed("string")));
    lp.push(entry("unit", typed("string")));
    lp.push(entry("start_utc", typed("string")));
    lp.push(entry("end_utc", typed("string")));
    lp.push(entry("grep", typed("string")));
    lp.push(entry("exclude_units", Json::Object(list_items)));
    lp.push(entry("order", typed("string")));
    lp.push(entry("allow_large_window", typed("boolean")));
    lp.push(entry("limit", typed("integer")));
    lp.push(entry("summary", typed("boolean")));
    let mut required: Vec<Json> = Vec::new();
    required.push(string("start_utc"));
    required.push(string("end_utc"));
    let logs = tool_entry("list_logs", "List journald logs with filters and bounds", lp, required);
    let mut tools: Vec<Json> = Vec::new();
    tools.push(services);
    tools.push(logs);
    Json::Array(tools)
}

/// `j` describes a resource: its uri, name, description, and the JSON
/// mime type.
pub open spec fn is_resource_entry(j: Json, uri: Seq<char>, name: Seq<char>, description: Seq<char>) -> bool {
    &&& members_len(j) == 4
    &&& field_at(j, 0, "uri"@) matches Some(u) && is_str(u, uri)
    &&& field_at(j, 1, "name"@) matches Some(n) && is_str(n, name)
    &&& field_at(j, 2, "description"@) matches Some(d) && is_str(d, description)
    &&& field_at(j, 3, "mimeType"@) matches Some(m) && is_str(m, "application/json"@)
}

fn resource_entry(uri: &str, name: &str, description: &str) -> (r: Json)
    ensures
        field_at(r, 0, "uri"@) matches Some(u) && is_str(u, uri@),
        is_resource_entry(r, uri@, name@, description@),
{
    let mut f: Vec<(String, Json)> = Vec::new();
    f.push(entry("uri", string(uri)));
    f.push(entry("name", string(name)));
    f.push(entry("description", string(description)));
    f.push(entry("mimeType", string("application/json")));
    Json::Object(f)
}

/// The three fixed resource descriptors.
pub open spec fn is_resource_catalogue(j: Json) -> bool {
    j matches Json::Array(items) && items@.len() == 3
        && is_resource_entry(items@[0], SERVICES_RESOURCE_URI@, "Service Snapshot"@, "Current systemd service statuses"@)
        && is_resource_entry(items@[1], FAILED_SERVICES_RESOURCE_URI@, "Failed Service Snapshot"@, "Current failed systemd service statuses"@)
        && is_resource_entry(items@[2], LOGS_RESOURCE_URI@, "Recent Logs Snapshot"@, "Recent journald logs for the last hour"@)
}

/// The three fixed resources: the service snapshot, the failed-service
/// snapshot and the recent logs.
pub fn build_resources_list() -> (r: Json)
    ensures
        is_resource_catalogue(r),
        r matches Json::Array(items) && items@.len() == 3
            && (field_at(items@[0], 0, "uri"@) matches Some(u) && is_str(u, SERVICES_RESOURCE_URI@))
            && (field_at(items@[1], 0, "uri"@) matches Some(u) && is_str(u, FAILED_SERVICES_RESOURCE_URI@))
            && (field_at(items@[2], 0, "uri"@) matches Some(u) && is_str(u, LOGS_RESOURCE_URI@)),
{
    let mut items: Vec<Json> = Vec::new();
    items.push(resource_entry(SERVICES_RESOURCE_URI, "Service Snapshot", "Current systemd service statuses"));
    items.push(resource_entry(FAILED_SERVICES_RESOURCE_URI, "Failed Service Snapshot", "Current failed systemd service statuses"));
    items.push(resource_entry(LOGS_RESOURCE_URI, "Recent Logs Snapshot", "Recent journald logs for the last hour"));
    Json::Array(items)
}

/// The result of `initialize`: the supported version, capabilities for
/// tools and resources only, and the server's name and version.
pub open spec fn is_initialize_result(j: Json) -> bool {
    &&& members_len(j) == 3
    &&& field_at(j, 0, "protocolVersion"@) matches Some(v) && is_str(v, SUPPORTED_PROTOCOL_VERSION@)
    &&& field_at(j, 1, "capabilities"@) matches Some(c) && members_len(c) == 2
        && (field_at(c, 0, "tools"@) matches Some(t) && members_len(t) == 1 && field_at(t, 0, "listChanged"@) == Some(Json::Bool(false)))
        && (field_at(c, 1, "resources"@) matches Some(rs) && members_len(rs) == 2
            && field_at(rs, 0, "subscribe"@) == Some(Json::Bool(false)) && field_at(rs, 1, "listChanged"@) == Some(Json::Bool(false)))
        && get(c, "prompts"@) is None
    &&& field_at(j, 2, "serverInfo"@) matches Some(i) && members_len(i) == 2
        && (field_at(i, 0, "name"@) matches Some(n) && is_str(n, SERVER_NAME@))
        && (field_at(i, 1, "version"@) matches Some(n) && is_str(n, SERVER_VERSION@))
}

/// The result of `initialize`: the negotiated version, the capabilities
/// (tools and resources, no prompts) and the server's identity.
pub fn initialize_result(version: ProtocolVersion) -> (r: Json)
    ensures
        is_initialize_result(r),
        field_at(r, 0, "protocolVersion"@) matches Some(v) && is_str(v, SUPPORTED_PROTOCOL_VERSION@),
        field_at(r, 1, "capabilities"@) matches Some(c) && (field_at(c, 0, "tools"@) is Some && field_at(c, 1, "resources"@) is Some && get(c, "prompts"@) is None),
        field_at(r, 2, "serverInfo"@) matches Some(i) && (field_at(i, 0, "name"@) matches Some(n) && is_str(n, SERVER_NAME@)),
{
    let mut tools: Vec<(String, Json)> = Vec::new();
    tools.push(entry("listChanged", Json::Bool(false)));
    let mut resources: Vec<(String, Json)> = Vec::new();
    resources.push(entry("subscribe", Json::Bool(false)));
    resources.push(entry("listChanged", Json::Bool(false)));
    let mut caps: Vec<(String, Json)> = Vec::new();
    caps.push(entry("tools", Json::Object(tools)));
    caps.push(entry("resources", Json::Object(resources)));
    proof {
        reveal_strlit("tools");
        reveal_strlit("resources");
        reveal_strlit("prompts");
        assert("tools"@.len() == 5 && "resources"@.len() == 9 && "prompts"@.len() == 7);
        assert("tools"@ != "prompts"@) by {
            assert("tools"@[0] != "prompts"@[0]);
        }
        crate::json::lemma_member_absent(caps@, "prompts"@);
    }
    let mut info: Vec<(String, Json)> = Vec::new();
    info.push(entry("name", string(SERVER_NAME)));
    info.push(entry("version", string(SERVER_VERSION)));
    let mut f: Vec<(String, Json)> = Vec::new();
    f.push(entry("protocolVersion", string(version.as_str())));
    f.push(entry("capabilities", Json::Object(caps)));
    f.push(entry("serverInfo", Json::Object(info)));
    Json::Object(f)
}

/// Why units are needed.
pub enum ServicesPurpose {
    /// The listing tool, with its validated arguments.
    Tool { state: Option<String>, name_contains: Option<String>, limit: usize, summary: bool },
    /// The service snapshot resource.
    Snapshot,
    /// The failed-service snapshot resource.
    Failed,
}

pub struct ServicesCall {
    pub id: Option<RequestId>,
    pub purpose: ServicesPurpose,
}

/// Why log entries are needed.
pub enum LogsPurpose {
    Tool { summary: bool },
    Recent,
}

pub struct LogsCall {
    pub id: Option<RequestId>,
    pub query: LogQuery,
    pub purpose: LogsPurpose,
}

/// What handling a message leads to.
pub enum Step {
    /// The response is ready.
    Reply(Json),
    /// The unit listing is needed; answer with `complete_services`.
    Services(ServicesCall),
    /// A journal scan for `query` is needed; answer with `complete_logs`.
    Logs(LogsCall),
    /// Nothing to do.
    Nothing,
}

pub open spec fn replies_with_error(s: Step, id: Option<RequestId>, code: i64, message: Seq<char>) -> bool {
    s matches Step::Reply(r) && is_error_response(r, id, code, message)
}

/// `s` replies to `id` with a result that satisfies `ok`.
pub open spec fn replies_with_result(s: Step, id: Option<RequestId>, ok: spec_fn(Json) -> bool) -> bool {
    s matches Step::Reply(r) && (get(r, "result"@) matches Some(res) && is_result_response(r, id, res) && ok(res))
}

/// `s` replies with an error that carries no `data` member.
pub open spec fn replies_with_plain_error(s: Step, id: Option<RequestId>, code: i64, message: Seq<char>) -> bool {
    s matches Step::Reply(r) && is_error_response(r, id, code, message) && members_len(r) == 3
        && (get(r, "error"@) matches Some(e) && get(e, "data"@) is None && members_len(e) == 2)
}

pub open spec fn replies_with_data_code(s: Step, id: Option<RequestId>, code: i64, message: Seq<char>, data_code: Seq<char>) -> bool {
    s matches Step::Reply(r) && is_error_response(r, id, code, message) && (error_data_code(r) matches Some(c) && is_str(c, data_code))
}

/// The reply for a domain error.
pub open spec fn replies_with_app_error(s: Step, id: Option<RequestId>, data_code: Seq<char>) -> bool {
    replies_with_data_code(s, id, INVALID_PARAMS, "Invalid params"@, data_code)
}

fn not_found_data(code: &str, message: &str, key: &str, value: String) -> (r: Json)
    ensures
        get(r, "code"@) matches Some(c) && is_str(c, code@),
{
    let mut details: Vec<(String, Json)> = Vec::new();
    details.push(entry(key, Json::Str(value)));
    let mut f: Vec<(String, Json)> = Vec::new();
    f.push(entry("code", string(code)));
    f.push(entry("message", string(message)));
    f.push(entry("details", Json::Object(details)));
    proof {
        reveal_strlit("code");
        crate::json::lemma_member_at(f@, "code"@, 0);
    }
    Json::Object(f)
}

/// The name of the tool a `tools/call` names, when its parameters fit.
pub open spec fn tool_name(params: Json) -> Option<Seq<char>> {
    if params is Object && opt_obj_ok(get(params, "arguments"@)) {
        match get(params, "name"@) {
            Some(Json::Str(n)) => Some(n@),
            _ => None,
        }
    } else {
        None
    }
}

pub open spec fn tool_args(params: Json) -> Option<Json> {
    match get(params, "arguments"@) {
        Some(Json::Null) => None,
        other => other,
    }
}

/// What `tools/call` with these parameters leads to.
pub open spec fn tools_call_outcome(r: Step, id: Option<RequestId>, params: Option<Json>) -> bool {
    match params {
        None => replies_with_error(r, id, INVALID_PARAMS, "Invalid params"@),
        Some(p) => match tool_name(p) {
            None => replies_with_error(r, id, INVALID_PARAMS, "Invalid params"@),
            Some(name) => if name == "list_services"@ {
                services_tool_outcome(r, id, tool_args(p))
            } else if name == "list_logs"@ {
                logs_tool_outcome(r, id, tool_args(p))
            } else {
                replies_with_data_code(r, id, METHOD_NOT_FOUND, "Method not found"@, "tool_not_found"@)
            },
        },
    }
}

/// Handles `tools/call`: validates the arguments of the named tool and asks
/// for the provider work it needs.
pub fn handle_tools_call(id: Option<RequestId>, params: Option<Json>) -> (r: Step)
    ensures
        tools_call_outcome(r, id, params),
        !(r is Nothing),
{
    let p = match params {
        None => return Step::Reply(json_rpc_error(id, INVALID_PARAMS, "Invalid params")),
        Some(p) => p,
    };
    let args_fit = match get_member(&p, "arguments") {
        None => true,
        Some(Json::Null) => true,
        Some(Json::Object(_)) => true,
        _ => false,
    };
    let name = match get_member(&p, "name") {
        Some(Json::Str(n)) => n.clone(),
        _ => return Step::Reply(json_rpc_error(id, INVALID_PARAMS, "Invalid params")),
    };
    if !is_object(&p) || !args_fit {
        return Step::Reply(json_rpc_error(id, INVALID_PARAMS, "Invalid params"));
    }
    let args = match get_member(&p, "arguments") {
        Some(Json::Null) => None,
        other => other,
    };
    assert(p is Object);
    assert(opt_obj_ok(get(p, "arguments"@)));
    assert(tool_name(p) == Some(name@));
    if str_eq(name.as_str(), "list_services") {
        services_tool_step(id, args)
    } else if str_eq(name.as_str(), "list_logs") {
        logs_tool_step(id, args)
    } else {
        let data = not_found_data("tool_not_found", "unknown tool name", "name", name);
        Step::Reply(json_rpc_error_with_data(id, METHOD_NOT_FOUND, "Method not found", Some(data)))
    }
}

fn services_tool_step(id: Option<RequestId>, args: Option<&Json>) -> (r: Step)
    ensures
        services_tool_outcome(r, id, match args { Some(a) => Some(*a), None => None }),
        !(r is Nothing),
{
    let q = match services_args(args) {
        Some(q) => q,
        None => return Step::Reply(json_rpc_error(id, INVALID_PARAMS, "Invalid params")),
    };
    let state = match normalize_service_state(q.state) {
        Ok(s) => s,
        Err(e) => return Step::Reply(app_error_to_json_rpc(id, e)),
    };
    let name_filter = normalize_name_contains(q.name_contains);
    let limit = match normalize_services_limit(q.limit) {
        Ok(l) => l,
        Err(e) => return Step::Reply(app_error_to_json_rpc(id, e)),
    };
    let summary = match q.summary {
        Some(b) => b,
        None => false,
    };
    Step::Services(ServicesCall {
        id,
        purpose: ServicesPurpose::Tool { state, name_contains: name_filter, limit, summary },
    })
}

fn logs_tool_step(id: Option<RequestId>, args: Option<&Json>) -> (r: Step)
    ensures
        logs_tool_outcome(r, id, match args { Some(a) => Some(*a), None => None }),
{
    let q = match logs_args(args) {
        Some(q) => q,
        None => return Step::Reply(json_rpc_error(id, INVALID_PARAMS, "Invalid params")),
    };
    let ghost p = q;
    let summary = match q.summary {
        Some(b) => b,
        None => false,
    };
    let ghost a = match args { Some(a) => Some(*a), None => None };
    assert(logs_params_read(a, p));
    let r = match build_log_query(q) {
        Ok(query) => Step::Logs(LogsCall { id, query, purpose: LogsPurpose::Tool { summary } }),
        Err(e) => Step::Reply(app_error_to_json_rpc(id, e)),
    };
    assert(logs_params_read(a, p) && match crate::validate::log_query_error(p) {
        Some(code) => replies_with_app_error(r, id, code),
        None => r matches Step::Logs(c) && crate::rpc::same_id(c.id, id) && crate::validate::query_matches(p, c.query)
            && (c.purpose matches LogsPurpose::Tool { summary } && summary == (p.summary == Some(true))),
    });
    r
}

pub open spec fn state_arg_ok(a: Option<Json>) -> bool {
    match str_arg(a, "state"@) {
        Some(Some(st)) => crate::validate::service_state(trimmed(st)) is Some,
        _ => true,
    }
}

pub open spec fn services_limit_ok(a: Option<Json>) -> bool {
    match u32_arg(a, "limit"@) {
        Some(Some(l)) => 1 <= l <= crate::validate::MAX_SERVICES_LIMIT,
        _ => true,
    }
}

/// What `tools/call` of `list_services` with arguments `a` leads to.
pub open spec fn services_tool_outcome(r: Step, id: Option<RequestId>, a: Option<Json>) -> bool {
    &&& !services_args_ok(a) ==> replies_with_error(r, id, INVALID_PARAMS, "Invalid params"@)
    &&& services_args_ok(a) && !state_arg_ok(a) ==> replies_with_app_error(r, id, "invalid_state"@)
    &&& services_args_ok(a) && state_arg_ok(a) && !services_limit_ok(a) ==> replies_with_app_error(r, id, "invalid_limit"@)
    &&& services_args_ok(a) && state_arg_ok(a) && services_limit_ok(a) ==> (r matches Step::Services(c)
        && crate::rpc::same_id(c.id, id) && (c.purpose matches ServicesPurpose::Tool { state, name_contains, limit, summary }
        && opt_view(state) == match str_arg(a, "state"@) {
            Some(Some(st)) => crate::validate::service_state(trimmed(st)),
            _ => None,
        }
        && opt_view(name_contains) == match str_arg(a, "name_contains"@) {
            Some(Some(n)) => if trimmed(n).len() == 0 { None } else { Some(trimmed(n)) },
            _ => None,
        }
        && limit == match u32_arg(a, "limit"@) {
            Some(Some(l)) => l as usize,
            _ => crate::validate::DEFAULT_SERVICES_LIMIT,
        }
        && summary == (bool_arg(a, "summary"@) == Some(Some(true)))))
}

/// What `tools/call` of `list_logs` with arguments `a` leads to.
pub open spec fn logs_tool_outcome(r: Step, id: Option<RequestId>, a: Option<Json>) -> bool {
    &&& !logs_args_ok(a) ==> replies_with_error(r, id, INVALID_PARAMS, "Invalid params"@)
    &&& logs_args_ok(a) ==> exists|p: LogsQueryParams| logs_params_read(a, p) && match crate::validate::log_query_error(p) {
        Some(code) => replies_with_app_error(r, id, code),
        None => r matches Step::Logs(c) && crate::rpc::same_id(c.id, id) && crate::validate::query_matches(p, c.query)
            && (c.purpose matches LogsPurpose::Tool { summary } && summary == (p.summary == Some(true))),
    }
    &&& !(r is Services) && !(r is Nothing)
}

pub open spec fn services_args_ok(a: Option<Json>) -> bool {
    args_ok(a) && str_arg(a, "state"@) is Some && str_arg(a, "name_contains"@) is Some
        && u32_arg(a, "limit"@) is Some && bool_arg(a, "summary"@) is Some
}

pub open spec fn logs_args_ok(a: Option<Json>) -> bool {
    args_ok(a) && str_arg(a, "priority"@) is Some && str_arg(a, "unit"@) is Some
        && str_arg(a, "start_utc"@) is Some && str_arg(a, "end_utc"@) is Some
        && str_arg(a, "grep"@) is Some && str_list_arg(a, "exclude_units"@) is Some
        && str_arg(a, "order"@) is Some && bool_arg(a, "allow_large_window"@) is Some
        && u32_arg(a, "limit"@) is Some && bool_arg(a, "summary"@) is Some
}

/// The query behind the recent-logs resource: the hour before `now`,
/// newest first, at most the default number of entries.
pub open spec fn recent_logs_query(q: LogQuery, now: UtcInstant) -> bool {
    &&& q.priority is None
    &&& q.unit is None
    &&& q.exclude_units@.len() == 0
    &&& q.grep is None
    &&& q.order == LogOrder::Desc
    &&& q.start_utc == Some(UtcInstant { secs: (now.secs - 3600) as i64, nanos: now.nanos })
    &&& q.end_utc == Some(now)
    &&& q.limit == DEFAULT_LOG_LIMIT
}

pub open spec fn resource_uri(params: Json) -> Option<Seq<char>> {
    if params is Object {
        match get(params, "uri"@) {
            Some(Json::Str(u)) => Some(u@),
            _ => None,
        }
    } else {
        None
    }
}

/// What `resources/read` with these parameters leads to at time `now`.
pub open spec fn resources_read_outcome(r: Step, id: Option<RequestId>, params: Option<Json>, now: UtcInstant) -> bool {
    match params {
        None => replies_with_error(r, id, INVALID_PARAMS, "Invalid params"@),
        Some(p) => match resource_uri(p) {
            None => replies_with_error(r, id, INVALID_PARAMS, "Invalid params"@),
            Some(uri) => if uri == SERVICES_RESOURCE_URI@ {
                r matches Step::Services(c) && c.purpose is Snapshot && crate::rpc::same_id(c.id, id)
            } else if uri == FAILED_SERVICES_RESOURCE_URI@ {
                r matches Step::Services(c) && c.purpose is Failed && crate::rpc::same_id(c.id, id)
            } else if uri == LOGS_RESOURCE_URI@ {
                r matches Step::Logs(c) && c.purpose is Recent && crate::rpc::same_id(c.id, id)
                    && recent_logs_query(c.query, now)
            } else {
                replies_with_data_code(r, id, METHOD_NOT_FOUND, "Method not found"@, "resource_not_found"@)
            },
        },
    }
}

/// Handles `resources/read`: the snapshot resources need the unit listing,
/// the recent-logs resource a journal scan of the last hour.
pub fn handle_resources_read(id: Option<RequestId>, params: Option<Json>, now: &UtcInstant) -> (r: Step)
    requires
        now.secs >= i64::MIN + 3600,
    ensures
        resources_read_outcome(r, id, params, *now),
        !(r is Nothing),
{
    let p = match params {
        None => return Step::Reply(json_rpc_error(id, INVALID_PARAMS, "Invalid params")),
        Some(p) => p,
    };
    if !is_object(&p) {
        return Step::Reply(json_rpc_error(id, INVALID_PARAMS, "Invalid params"));
    }
    let uri = match get_member(&p, "uri") {
        Some(Json::Str(u)) => u.clone(),
        _ => return Step::Reply(json_rpc_error(id, INVALID_PARAMS, "Invalid params")),
    };
    if str_eq(uri.as_str(), SERVICES_RESOURCE_URI) {
        Step::Services(ServicesCall { id, purpose: ServicesPurpose::Snapshot })
    } else if str_eq(uri.as_str(), FAILED_SERVICES_RESOURCE_URI) {
        Step::Services(ServicesCall { id, purpose: ServicesPurpose::Failed })
    } else if str_eq(uri.as_str(), LOGS_RESOURCE_URI) {
        let start = crate::utc::hour_before(now);
        let query = LogQuery {
            priority: None,
            unit: None,
            exclude_units: Vec::new(),
            grep: None,
            order: LogOrder::Desc,
            start_utc: Some(start),
            end_utc: Some(*now),
            limit: DEFAULT_LOG_LIMIT,
        };
        Step::Logs(LogsCall { id, query, purpose: LogsPurpose::Recent })
    } else {
        let data = not_found_data("resource_not_found", "unknown resource uri", "uri", uri);
        Step::Reply(json_rpc_error_with_data(id, METHOD_NOT_FOUND, "Method not found", Some(data)))
    }
}

pub open spec fn empty_obj(j: Json) -> bool {
    j matches Json::Object(f) && f@.len() == 0
}

/// What dispatching `method` with `params` at time `now` leads to.
pub open spec fn dispatch_outcome(r: Step, id: Option<RequestId>, method: Seq<char>, params: Option<Json>, now: UtcInstant) -> bool {
    &&& method == "ping"@ ==> (r matches Step::Reply(j) && is_result_response(j, id, get(j, "result"@)->0) && empty_obj(get(j, "result"@)->0))
    &&& method == "initialize"@ ==> match negotiate_result(params) {
        Ok(_) => replies_with_result(r, id, |res: Json| is_initialize_result(res)),
        Err(e) => r matches Step::Reply(j) && is_error_response(j, id, rpc_code(e), rpc_message(e))
            && (error_data_code(j) matches Some(c) && is_str(c, crate::errors::code_of(e))),
    }
    &&& method == "tools/list"@ ==> replies_with_result(r, id, |res: Json| members_len(res) == 1
        && (field_at(res, 0, "tools"@) matches Some(t) && is_tool_catalogue(t)))
    &&& method == "resources/list"@ ==> replies_with_result(r, id, |res: Json| members_len(res) == 1
        && (field_at(res, 0, "resources"@) matches Some(t) && is_resource_catalogue(t)))
    &&& method == "tools/call"@ ==> tools_call_outcome(r, id, params)
    &&& method == "resources/read"@ ==> resources_read_outcome(r, id, params, now)
    &&& !known_method(method) ==> replies_with_plain_error(r, id, METHOD_NOT_FOUND, "Method not found"@)
    &&& !(r is Nothing)
}

/// Dispatches a method with its parameters.
pub fn handle_json_rpc_request(id: Option<RequestId>, method: &str, params: Option<Json>, now: &UtcInstant) -> (r: Step)
    requires
        now.secs >= i64::MIN + 3600,
    ensures
        dispatch_outcome(r, id, method@, params, *now),
{
    proof {
        lemma_methods_distinct();
    }
    if str_eq(method, "initialize") {
        match negotiate_protocol_version(params.as_ref()) {
            Ok(version) => Step::Reply(json_rpc_result(id, initialize_result(version))),
            Err(e) => Step::Reply(app_error_to_json_rpc(id, e)),
        }
    } else if str_eq(method, "ping") {
        Step::Reply(json_rpc_result(id, empty_object()))
    } else if str_eq(method, "tools/list") {
        let mut f: Vec<(String, Json)> = Vec::new();
        f.push(entry("tools", build_tools_list()));
        Step::Reply(json_rpc_result(id, Json::Object(f)))
    } else if str_eq(method, "tools/call") {
        handle_tools_call(id, params)
    } else if str_eq(method, "resources/list") {
        let mut f: Vec<(String, Json)> = Vec::new();
        f.push(entry("resources", build_resources_list()));
        Step::Reply(json_rpc_result(id, Json::Object(f)))
    } else if str_eq(method, "resources/read") {
        handle_resources_read(id, params, now)
    } else {
        Step::Reply(json_rpc_error(id, METHOD_NOT_FOUND, "Method not found"))
    }
}

proof fn lemma_methods_distinct()
    ensures
        "initialize"@ != "ping"@,
        "initialize"@ != "tools/list"@,
        "initialize"@ != "tools/call"@,
        "initialize"@ != "resources/list"@,
        "initialize"@ != "resources/read"@,
        "ping"@ != "tools/list"@,
        "ping"@ != "tools/call"@,
        "ping"@ != "resources/list"@,
        "ping"@ != "resources/read"@,
        "tools/list"@ != "tools/call"@,
        "tools/list"@ != "resources/list"@,
        "tools/list"@ != "resources/read"@,
        "tools/call"@ != "resources/list"@,
        "tools/call"@ != "resources/read"@,
        "resources/list"@ != "resources/read"@,
{
    reveal_strlit("initialize");
    reveal_strlit("ping");
    reveal_strlit("tools/list");
    reveal_strlit("tools/call");
    reveal_strlit("resources/list");
    reveal_strlit("resources/read");
    assert("initialize"@[0] != "tools/list"@[0]);
    assert("initialize"@[0] != "tools/call"@[0]);
    assert("tools/list"@[6] != "tools/call"@[6]);
    assert("resources/list"@[10] != "resources/read"@[10]);
    assert("initialize"@.len() != "ping"@.len());
    assert("initialize"@.len() != "resources/list"@.len());
    assert("ping"@.len() != "tools/list"@.len());
    assert("tools/list"@.len() != "resources/list"@.len());
}

pub open spec fn known_method(m: Seq<char>) -> bool {
    m == "initialize"@ || m == "ping"@ || m == "tools/list"@ || m == "tools/call"@ || m
        == "resources/list"@ || m == "resources/read"@
}

/// What `negotiate_protocol_version` yields for optional parameters.
pub open spec fn negotiate_result(params: Option<Json>) -> Result<ProtocolVersion, AppError> {
    match offered_version(params) {
        None => Err(AppError::BadRequest { code: "invalid_protocol_version", message: "initialize params.protocolVersion is required" }),
        Some(v) => if v == SUPPORTED_PROTOCOL_VERSION@ {
            Ok(ProtocolVersion::V2024_11_05)
        } else {
            Err(AppError::BadRequest { code: "unsupported_protocol_version", message: "unsupported initialize protocolVersion" })
        },
    }
}

/// The audit record of a dispatched call.
pub struct Audit {
    pub method: String,
    /// The parameters with sensitive members redacted (`null` when absent).
    pub params: Json,
}

/// The outcome of handling one inbound value.
pub struct Handled {
    /// Whether the value gets a response (false for notifications).
    pub reply: bool,
    pub step: Step,
    /// Present for every dispatched call.
    pub audit: Option<Audit>,
}

/// An inbound value is a notification: a well-formed call without an id.
pub open spec fn is_notification(payload: Json) -> bool {
    is_call_shape(payload) && get(payload, "id"@) is None
}

pub open spec fn method_of(payload: Json) -> Seq<char> {
    get(payload, "method"@)->0->Str_0@
}

fn is_blank(s: &str) -> (r: bool)
    ensures
        r == (trimmed(s@).len() == 0),
{
    let raw = char_vec(s);
    let t = trim_chars(&raw);
    t.len() == 0
}

/// Handles one inbound value: classifies it, validates the parameters of a
/// request, and dispatches. Malformed values and invalid requests are
/// answered without dispatch; notifications are dispatched but never
/// answered, and one with a blank method is dropped.
pub fn handle_json_rpc_value(payload: Json, now: &UtcInstant) -> (r: Handled)
    requires
        now.secs >= i64::MIN + 3600,
    ensures
        r.reply == !is_notification(payload),
        !is_notification(payload) ==> !(r.step is Nothing),
        !is_call_shape(payload) ==> (r.audit is None && replies_with_plain_error(r.step, match get(payload, "id"@) {
            Some(i) => crate::rpc::id_of(i),
            None => None,
        }, INVALID_REQUEST, "Invalid Request"@)),
        is_call_shape(payload) && (get(payload, "id"@) matches Some(i) && crate::rpc::id_of(i) is None) ==> (r.audit is None
            && replies_with_plain_error(r.step, None, INVALID_REQUEST, "Invalid Request"@)),
        is_call_shape(payload) && !is_notification(payload) && crate::rpc::id_of(get(payload, "id"@)->0) is Some
            && shape_ok(method_of(payload), crate::rpc::params_of(payload)) && trimmed(method_of(payload)).len() == 0
            ==> (r.audit is None && replies_with_plain_error(r.step, crate::rpc::id_of(get(payload, "id"@)->0), INVALID_REQUEST, "Invalid Request"@)),
        is_notification(payload) && trimmed(method_of(payload)).len() == 0 ==> r.step is Nothing && r.audit is None,
        r.audit matches Some(a) ==> (is_call_shape(payload) && a.method@ == method_of(payload) && match crate::rpc::params_of(payload) {
            Some(p) => redacted(p, a.params),
            None => a.params is Null,
        }),
        is_call_shape(payload) && !is_notification(payload) && crate::rpc::id_of(get(payload, "id"@)->0) is Some
            && !shape_ok(method_of(payload), crate::rpc::params_of(payload)) ==> (r.audit is None
            && replies_with_error(r.step, crate::rpc::id_of(get(payload, "id"@)->0), INVALID_PARAMS, "Invalid params"@)),
        is_call_shape(payload) && !is_notification(payload) && crate::rpc::id_of(get(payload, "id"@)->0) is Some
            && shape_ok(method_of(payload), crate::rpc::params_of(payload)) && trimmed(method_of(payload)).len() > 0
            ==> exists|id: RequestId| crate::rpc::same_id(Some(id), crate::rpc::id_of(get(payload, "id"@)->0))
                && dispatch_outcome(r.step, Some(id), method_of(payload), crate::rpc::params_of(payload), *now),
        is_notification(payload) && trimmed(method_of(payload)).len() > 0 ==> dispatch_outcome(
            r.step,
            None,
            method_of(payload),
            crate::rpc::params_of(payload),
            *now,
        ),
{
    match parse_envelope(payload) {
        Envelope::Invalid { id } => Handled {
            reply: true,
            step: Step::Reply(json_rpc_error(id, INVALID_REQUEST, "Invalid Request")),
            audit: None,
        },
        Envelope::Request { id, method, params } => {
            if !validate_request_shape(method.as_str(), &params) {
                return Handled {
                    reply: true,
                    step: Step::Reply(json_rpc_error(Some(id), INVALID_PARAMS, "Invalid params")),
                    audit: None,
                };
            }
            if is_blank(method.as_str()) {
                return Handled {
                    reply: true,
                    step: Step::Reply(json_rpc_error(Some(id), INVALID_REQUEST, "Invalid Request")),
                    audit: None,
                };
            }
            let audit_params = redact_audit_params(params.as_ref());
            let step = handle_json_rpc_request(Some(id), method.as_str(), params, now);
            Handled { reply: true, step, audit: Some(Audit { method, params: audit_params }) }
        },
        Envelope::Notification { method, params } => {
            if is_blank(method.as_str()) {
                return Handled { reply: false, step: Step::Nothing, audit: None };
            }
            let audit_params = redact_audit_params(params.as_ref());
            let step = handle_json_rpc_request(None, method.as_str(), params, now);
            Handled { reply: false, step, audit: Some(Audit { method, params: audit_params }) }
        },
    }
}

/// The units a listing keeps: those in the requested state, then those
/// whose name contains the fragment.
pub open spec fn tool_filtered(units: Seq<UnitStatus>, state: Option<String>, name: Option<String>) -> Seq<UnitStatus> {
    let by_state = match state {
        Some(s) => units.filter(state_matches(s@)),
        None => units,
    };
    match name {
        Some(n) => by_state.filter(name_contains(n@)),
        None => by_state,
    }
}

/// Failed units are listed first when the listing asks for failed units.
pub open spec fn failed_first(state: Option<String>) -> bool {
    state matches Some(s) && s@ == "failed"@
}

pub open spec fn min_len(limit: usize, n: nat) -> nat {
    if (limit as nat) < n { limit as nat } else { n }
}

/// `items` renders, in order, the first `count` units of some ordering of
/// `kept` that is sorted for the listing.
pub open spec fn lists_sorted(items: Seq<Json>, kept: Seq<UnitStatus>, ff: bool, count: nat) -> bool {
    exists|s: Seq<UnitStatus>| s.to_multiset() == kept.to_multiset() && units_sorted(s, ff) && s.len() == kept.len()
        && items.len() == count && forall|i: int| 0 <= i < count ==> renders_unit(#[trigger] items[i], s[i])
}

/// Every unit of a listing filtered by state is in that state, up to ASCII
/// case, whatever else the listing filtered on and however it was ordered.
pub proof fn listing_keeps_requested_state(units: Seq<UnitStatus>, state: String, name: Option<String>, s: Seq<UnitStatus>)
    requires
        s.to_multiset() == tool_filtered(units, Some(state), name).to_multiset(),
    ensures
        forall|i: int| 0 <= i < s.len() ==> crate::text::eq_ci((#[trigger] s[i]).active_state@, state@),
{
    broadcast use vstd::seq_lib::group_to_multiset_ensures;

    let by_state = units.filter(state_matches(state@));
    assert forall|i: int| 0 <= i < s.len() implies crate::text::eq_ci((#[trigger] s[i]).active_state@, state@) by {
        assert(s.to_multiset().count(s[i]) > 0);
        let kept = tool_filtered(units, Some(state), name);
        assert(kept.contains(s[i]));
        match name {
            Some(n) => {
                by_state.lemma_filter_contains_rev(name_contains(n@), s[i]);
            },
            None => {},
        }
        assert(by_state.contains(s[i]));
        let k = choose|k: int| 0 <= k < by_state.len() && by_state[k] == s[i];
        units.lemma_filter_pred(state_matches(state@), k);
    }
}

/// `sc` is the structured content of a service listing.
pub open spec fn is_service_listing(sc: Json, kept: Seq<UnitStatus>, ff: bool, limit: usize, generated: Seq<char>) -> bool {
    &&& field_at(sc, 0, "services"@) matches Some(Json::Array(items)) && lists_sorted(items@, kept, ff, min_len(limit, kept.len()))
    &&& field_at(sc, 1, "total"@) == Some(Json::UInt(kept.len() as u64))
    &&& field_at(sc, 2, "returned"@) == Some(Json::UInt(min_len(limit, kept.len()) as u64))
    &&& field_at(sc, 3, "truncated"@) == Some(Json::Bool(kept.len() > min_len(limit, kept.len())))
    &&& field_at(sc, 4, "generated_at_utc"@) matches Some(g) && is_str(g, generated)
}

/// `r` answers `id` with a tool result whose structured content is `sc`.
pub open spec fn answers_with_tool_result(r: Json, id: Option<RequestId>, sc: Json) -> bool {
    get(r, "error"@) is None && (get(r, "result"@) matches Some(res) && is_result_response(r, id, res)
        && field_at(res, 1, "structuredContent"@) == Some(sc))
}

/// `r` answers `id` with a single resource content for `uri`, whose text
/// is the JSON text of `body`.
pub open spec fn answers_with_resource(r: Json, id: Option<RequestId>, uri: Seq<char>, body: Json) -> bool {
    get(r, "error"@) is None && (get(r, "result"@) matches Some(res) && is_result_response(r, id, res)
        && members_len(res) == 1
        && (field_at(res, 0, "contents"@) matches Some(Json::Array(cs)) && cs@.len() == 1
        && (field_at(cs@[0], 0, "uri"@) matches Some(u) && is_str(u, uri))
        && (field_at(cs@[0], 2, "text"@) matches Some(Json::Str(text)) && crate::json::encodes(body, text@))))
}

/// `body` is `{"services": [...]}` with a record for each unit, in order.
pub open spec fn lists_units(body: Json, units: Seq<UnitStatus>) -> bool {
    field_at(body, 0, "services"@) matches Some(Json::Array(items)) && items@.len() == units.len()
        && forall|i: int| 0 <= i < units.len() ==> renders_unit(#[trigger] items@[i], units[i])
}

/// `body` is `{"logs": [...]}` with a record for each entry, in order.
pub open spec fn lists_entries(body: Json, entries: Seq<crate::journal::JournalLogEntry>) -> bool {
    field_at(body, 0, "logs"@) matches Some(Json::Array(items)) && items@.len() == entries.len()
        && forall|i: int| 0 <= i < entries.len() ==> crate::render::renders_entry(#[trigger] items@[i], entries[i])
}

fn uint(n: usize) -> (r: Json)
    ensures
        r == Json::UInt(n as u64),
{
    Json::UInt(n as u64)
}

/// `j` is an object with one member per row: the key, then its count.
pub open spec fn renders_counts(j: Json, rows: Seq<(String, usize)>) -> bool {
    j matches Json::Object(f) && f@.len() == rows.len() && forall|i: int|
        0 <= i < rows.len() ==> (#[trigger] f@[i]).0@ == rows[i].0@ && f@[i].1 == Json::UInt(rows[i].1 as u64)
}

fn counts_json(rows: &Vec<(String, usize)>) -> (r: Json)
    ensures
        renders_counts(r, rows@),
{
    let mut f: Vec<(String, Json)> = Vec::new();
    let mut i: usize = 0;
    while i < rows.len()
        invariant
            i <= rows@.len(),
            f@.len() == i,
            forall|k: int| 0 <= k < i ==> (#[trigger] f@[k]).0@ == rows@[k].0@ && f@[k].1 == Json::UInt(rows@[k].1 as u64),
        decreases rows@.len() - i,
    {
        f.push((rows[i].0.clone(), uint(rows[i].1)));
        i += 1;
    }
    Json::Object(f)
}

/// `j` lists the rows in order, each as `{key: name, count: n}`.
pub open spec fn renders_ranking(j: Json, rows: Seq<(String, usize)>, key: Seq<char>, count: Seq<char>) -> bool {
    j matches Json::Array(items) && items@.len() == rows.len() && forall|i: int|
        0 <= i < rows.len() ==> (field_at(#[trigger] items@[i], 0, key) matches Some(k) && is_str(k, rows[i].0@))
            && field_at(items@[i], 1, count) == Some(Json::UInt(rows[i].1 as u64))
}

fn ranking_json(rows: &Vec<(String, usize)>, key: &str, count: &str) -> (r: Json)
    ensures
        renders_ranking(r, rows@, key@, count@),
{
    let mut items: Vec<Json> = Vec::new();
    let mut i: usize = 0;
    while i < rows.len()
        invariant
            i <= rows@.len(),
            items@.len() == i,
            forall|k: int| 0 <= k < i ==> (field_at(#[trigger] items@[k], 0, key@) matches Some(t) && is_str(t, rows@[k].0@))
                && field_at(items@[k], 1, count@) == Some(Json::UInt(rows@[k].1 as u64)),
        decreases rows@.len() - i,
    {
        let mut f: Vec<(String, Json)> = Vec::new();
        f.push(entry(key, string(rows[i].0.as_str())));
        f.push(entry(count, uint(rows[i].1)));
        items.push(Json::Object(f));
        i += 1;
    }
    Json::Array(items)
}

/// The rendering of a service summary.
/// `j` is the record of a failed-unit digest.
pub open spec fn renders_digest(j: Json, f: crate::summary::FailedUnitSummary) -> bool {
    &&& members_len(j) == 4
    &&& field_at(j, 0, "unit"@) matches Some(v) && is_str(v, f.unit@)
    &&& field_at(j, 1, "sub_state"@) matches Some(v) && is_str(v, f.sub_state@)
    &&& field_at(j, 2, "result"@) matches Some(v) && crate::render::renders_opt_str(v, opt_view(f.result))
    &&& field_at(j, 3, "since_utc"@) matches Some(v) && crate::render::renders_opt_str(v, opt_view(f.since_utc))
}

/// `r` is the record of a service summary.
pub open spec fn renders_service_summary(r: Json, summary: ServiceSummary) -> bool {
    &&& members_len(r) == 3
    &&& field_at(r, 0, "counts_by_active_state"@) matches Some(c) && renders_counts(c, summary.counts_by_active_state@)
    &&& field_at(r, 1, "failed_units"@) matches Some(Json::Array(items)) && items@.len() == summary.failed_units@.len()
        && forall|i: int| 0 <= i < items@.len() ==> renders_digest(#[trigger] items@[i], summary.failed_units@[i])
    &&& field_at(r, 2, "degraded_hint"@) matches Some(h) && crate::render::renders_opt_str(h, opt_view(summary.degraded_hint))
}

/// `r` is the record of a log summary.
pub open spec fn renders_log_summary(r: Json, summary: LogSummary) -> bool {
    &&& members_len(r) == 4
    &&& field_at(r, 0, "counts_by_unit"@) matches Some(c) && renders_counts(c, summary.counts_by_unit@)
    &&& field_at(r, 1, "counts_by_priority"@) matches Some(c) && renders_counts(c, summary.counts_by_priority@)
    &&& field_at(r, 2, "top_messages"@) matches Some(m) && renders_ranking(m, summary.top_messages@, "message"@, "count"@)
    &&& field_at(r, 3, "error_hotspots"@) matches Some(h) && renders_ranking(h, summary.error_hotspots@, "unit"@, "error_count"@)
}

pub fn service_summary_json(summary: &ServiceSummary) -> (r: Json)
    ensures
        renders_service_summary(r, *summary),
{
    let mut failed: Vec<Json> = Vec::new();
    let mut i: usize = 0;
    while i < summary.failed_units.len()
        invariant
            i <= summary.failed_units@.len(),
            failed@.len() == i,
            forall|k: int| 0 <= k < i ==> renders_digest(#[trigger] failed@[k], summary.failed_units@[k]),
        decreases summary.failed_units@.len() - i,
    {
        let u = &summary.failed_units[i];
        let mut f: Vec<(String, Json)> = Vec::new();
        f.push(entry("unit", string(u.unit.as_str())));
        f.push(entry("sub_state", string(u.sub_state.as_str())));
        f.push(entry("result", crate::render::opt_string_json(&u.result)));
        f.push(entry("since_utc", crate::render::opt_string_json(&u.since_utc)));
        failed.push(Json::Object(f));
        i += 1;
    }
    let mut f: Vec<(String, Json)> = Vec::new();
    f.push(entry("counts_by_active_state", counts_json(&summary.counts_by_active_state)));
    f.push(entry("failed_units", Json::Array(failed)));
    f.push(entry("degraded_hint", crate::render::opt_string_json(&summary.degraded_hint)));
    Json::Object(f)
}

/// The rendering of a log summary.
pub fn log_summary_json(summary: &LogSummary) -> (r: Json)
    ensures
        renders_log_summary(r, *summary),
{
    let mut f: Vec<(String, Json)> = Vec::new();
    f.push(entry("counts_by_unit", counts_json(&summary.counts_by_unit)));
    f.push(entry("counts_by_priority", counts_json(&summary.counts_by_priority)));
    f.push(entry("top_messages", ranking_json(&summary.top_messages, "message", "count")));
    f.push(entry("error_hotspots", ranking_json(&summary.error_hotspots, "unit", "error_count")));
    Json::Object(f)
}

/// The single-content result of a resource read.
fn resource_result(uri: &str, body: &Json) -> (r: Json)
    ensures
        members_len(r) == 1,
        field_at(r, 0, "contents"@) matches Some(Json::Array(cs)) && cs@.len() == 1
            && (field_at(cs@[0], 0, "uri"@) matches Some(u) && is_str(u, uri@))
            && (field_at(cs@[0], 2, "text"@) matches Some(t) && (t matches Json::Str(text) && crate::json::encodes(*body, text@))),
{
    let mut content: Vec<(String, Json)> = Vec::new();
    content.push(entry("uri", string(uri)));
    content.push(entry("mimeType", string("application/json")));
    content.push(entry("text", Json::Str(encode_json(body))));
    let mut cs: Vec<Json> = Vec::new();
    cs.push(Json::Object(content));
    let mut f: Vec<(String, Json)> = Vec::new();
    f.push(entry("contents", Json::Array(cs)));
    Json::Object(f)
}

fn listing_text(returned: usize, total: usize) -> (r: String) {
    let mut t = String::from_str("Returned ");
    t.append(crate::decimal::usize_to_text(returned).as_str());
    t.append(" of ");
    t.append(crate::decimal::usize_to_text(total).as_str());
    t.append(" services");
    t
}

fn result_with_error_check(id: Option<RequestId>, result: Json) -> (r: Json)
    ensures
        is_result_response(r, id, result),
        get(r, "error"@) is None,
        get(r, "result"@) == Some(result),
{
    json_rpc_result(id, result)
}

/// Finishes a call that needed the unit listing, given what the provider
/// returned.
pub fn complete_services(call: ServicesCall, outcome: Result<Vec<UnitStatus>, AppError>, generated_at_utc: &str) -> (r: Json)
    ensures
        match outcome {
            Err(e) => is_error_response(r, call.id, rpc_code(e), rpc_message(e)),
            Ok(units) => match call.purpose {
                ServicesPurpose::Tool { state, name_contains, limit, summary } => if summary {
                    exists|sc: Json, s: Seq<UnitStatus>, digest: ServiceSummary| answers_with_tool_result(r, call.id, sc)
                        && s.to_multiset() == tool_filtered(units@, state, name_contains).to_multiset()
                        && units_sorted(s, failed_first(state)) && crate::summary::is_service_summary(digest, s)
                        && (field_at(sc, 0, "summary"@) matches Some(j) && renders_service_summary(j, digest))
                        && (field_at(sc, 1, "generated_at_utc"@) matches Some(g) && is_str(g, generated_at_utc@))
                } else {
                    exists|sc: Json| answers_with_tool_result(r, call.id, sc) && is_service_listing(
                        sc,
                        tool_filtered(units@, state, name_contains),
                        failed_first(state),
                        limit,
                        generated_at_utc@,
                    )
                },
                ServicesPurpose::Snapshot => exists|body: Json| answers_with_resource(r, call.id, SERVICES_RESOURCE_URI@, body)
                    && lists_units(body, units@),
                ServicesPurpose::Failed => exists|body: Json| answers_with_resource(r, call.id, FAILED_SERVICES_RESOURCE_URI@, body)
                    && lists_units(body, units@.filter(state_matches("failed"@))),
            },
        },
{
    let units = match outcome {
        Err(e) => return app_error_to_json_rpc(call.id, e),
        Ok(u) => u,
    };
    match call.purpose {
        ServicesPurpose::Tool { state, name_contains, limit, summary } => {
            let ghost kept = tool_filtered(units@, state, name_contains);
            let by_state = filter_services_by_state(units, match &state { Some(s) => Some(s.as_str()), None => None });
            let mut services = filter_services_by_name_contains(by_state, match &name_contains { Some(n) => Some(n.as_str()), None => None });
            assert(services@ == kept);
            let ff = match &state {
                Some(s) => str_eq(s.as_str(), "failed"),
                None => false,
            };
            sort_services(&mut services, ff);
            let ghost sorted = services@;
            proof {
                sorted.to_multiset_ensures();
                kept.to_multiset_ensures();
                assert(sorted.len() == kept.len());
            }
            if summary {
                let digest = build_service_summary(&services);
                let ghost digest_ghost = digest;
                let mut f: Vec<(String, Json)> = Vec::new();
                f.push(entry("summary", service_summary_json(&digest)));
                f.push(entry("generated_at_utc", string(generated_at_utc)));
                let sc = Json::Object(f);
                let ghost sc_ghost = sc;
                let result = tool_result(String::from_str("Returned service triage summary"), sc);
                let r = result_with_error_check(call.id, result);
                assert(answers_with_tool_result(r, call.id, sc_ghost));
                assert(field_at(sc_ghost, 0, "summary"@) matches Some(j) && renders_service_summary(j, digest_ghost));
                return r;
            }
            let total = services.len();
            let returned = if limit < total { limit } else { total };
            let items = units_to_json(&services, returned);
            let mut f: Vec<(String, Json)> = Vec::new();
            f.push(entry("services", items));
            f.push(entry("total", uint(total)));
            f.push(entry("returned", uint(returned)));
            f.push(entry("truncated", Json::Bool(total > returned)));
            f.push(entry("generated_at_utc", string(generated_at_utc)));
            let sc = Json::Object(f);
            proof {
                let items_v = sc->Object_0@[0].1->Array_0@;
                assert(lists_sorted(items_v, kept, failed_first(state), min_len(limit, kept.len())));
                assert(is_service_listing(sc, kept, failed_first(state), limit, generated_at_utc@));
            }
            let ghost sc_ghost = sc;
            let result = tool_result(listing_text(returned, total), sc);
            let r = result_with_error_check(call.id, result);
            assert(answers_with_tool_result(r, call.id, sc_ghost));
            r
        },
        ServicesPurpose::Snapshot => {
            let items = units_to_json(&units, units.len());
            let mut f: Vec<(String, Json)> = Vec::new();
            f.push(entry("services", items));
            let body = Json::Object(f);
            let r = result_with_error_check(call.id, resource_result(SERVICES_RESOURCE_URI, &body));
            assert(answers_with_resource(r, call.id, SERVICES_RESOURCE_URI@, body) && lists_units(body, units@));
            r
        },
        ServicesPurpose::Failed => {
            let failed = filter_services_by_state(units, Some("failed"));
            let items = units_to_json(&failed, failed.len());
            let mut f: Vec<(String, Json)> = Vec::new();
            f.push(entry("services", items));
            let body = Json::Object(f);
            let r = result_with_error_check(call.id, resource_result(FAILED_SERVICES_RESOURCE_URI, &body));
            assert(answers_with_resource(r, call.id, FAILED_SERVICES_RESOURCE_URI@, body));
            r
        },
    }
}

/// `sc` is the structured content of a log listing of `entries`.
pub open spec fn is_log_listing(sc: Json, result: LogQueryResult, query: LogQuery, generated: Seq<char>) -> bool {
    let limit = query.limit;
    let kept = kept_entries(result, limit);
    &&& field_at(sc, 0, "logs"@) matches Some(Json::Array(items)) && items@.len() == kept.len()
        && forall|i: int| 0 <= i < items@.len() ==> crate::render::renders_entry(#[trigger] items@[i], kept[i])
    &&& listing_counts(sc, result, limit)
    &&& field_at(sc, 4, "generated_at_utc"@) matches Some(g) && is_str(g, generated)
    &&& field_at(sc, 5, "window"@) matches Some(w) && is_window(w, query)
}

/// `j` renders an optional instant: its RFC3339 millisecond text, or `null`
/// when there is none or chrono cannot render it.
pub open spec fn renders_instant(j: Json, t: Option<UtcInstant>) -> bool {
    crate::render::renders_opt_str(j, match t {
        Some(t) => crate::utc::rfc3339_millis(t.secs, t.nanos),
        None => None,
    })
}

/// `w` is the window of a query: its start and end instants.
pub open spec fn is_window(w: Json, query: LogQuery) -> bool {
    &&& members_len(w) == 2
    &&& field_at(w, 0, "start_utc"@) matches Some(s) && renders_instant(s, query.start_utc)
    &&& field_at(w, 1, "end_utc"@) matches Some(e) && renders_instant(e, query.end_utc)
}

/// The entries a listing reports: at most `limit` of them, in order.
pub open spec fn kept_entries(result: LogQueryResult, limit: usize) -> Seq<crate::journal::JournalLogEntry> {
    if result.entries@.len() <= limit {
        result.entries@
    } else {
        result.entries@.subrange(0, limit as int)
    }
}

/// The counts of a log listing: records visited, entries returned (never
/// more than `limit`), and truncation exactly when `limit` were returned.
pub open spec fn listing_counts(sc: Json, result: LogQueryResult, limit: usize) -> bool {
    let returned = kept_entries(result, limit).len();
    &&& field_at(sc, 1, "total_scanned"@) == Some(match result.total_scanned {
        Some(n) => Json::UInt(n as u64),
        None => Json::Null,
    })
    &&& returned <= limit
    &&& field_at(sc, 2, "returned"@) == Some(Json::UInt(returned as u64))
    &&& field_at(sc, 3, "truncated"@) == Some(Json::Bool(returned == limit))
}

fn instant_text(t: &Option<UtcInstant>) -> (r: Json)
    ensures
        renders_instant(r, *t),
{
    match t {
        Some(t) => match format_rfc3339_millis(t) {
            Some(s) => Json::Str(s),
            None => Json::Null,
        },
        None => Json::Null,
    }
}

/// Finishes a call that needed a journal scan, given what the provider
/// returned.
pub fn complete_logs(call: LogsCall, outcome: Result<LogQueryResult, AppError>, generated_at_utc: &str) -> (r: Json)
    ensures
        match outcome {
            Err(e) => is_error_response(r, call.id, rpc_code(e), rpc_message(e)),
            Ok(result) => match call.purpose {
                LogsPurpose::Tool { summary } => if summary {
                    exists|sc: Json, digest: LogSummary| answers_with_tool_result(r, call.id, sc)
                        && crate::summary::is_log_summary(digest, kept_entries(result, call.query.limit))
                        && (field_at(sc, 0, "summary"@) matches Some(j) && renders_log_summary(j, digest))
                        && listing_counts(sc, result, call.query.limit)
                        && (field_at(sc, 4, "generated_at_utc"@) matches Some(g) && is_str(g, generated_at_utc@))
                        && (field_at(sc, 5, "window"@) matches Some(w) && is_window(w, call.query))
                } else {
                    exists|sc: Json| answers_with_tool_result(r, call.id, sc) && is_log_listing(sc, result, call.query, generated_at_utc@)
                },
                LogsPurpose::Recent => exists|body: Json| answers_with_resource(r, call.id, LOGS_RESOURCE_URI@, body)
                    && lists_entries(body, result.entries@),
            },
        },
{
    let result = match outcome {
        Err(e) => return app_error_to_json_rpc(call.id, e),
        Ok(res) => res,
    };
    match call.purpose {
        LogsPurpose::Tool { summary } => {
            let ghost whole = result;
            let LogQueryResult { entries: all_entries, total_scanned } = result;
            let mut entries = all_entries;
            entries.truncate(call.query.limit);
            assert(entries@ == kept_entries(whole, call.query.limit));
            let returned = entries.len();
            let truncated = returned >= call.query.limit;
            let mut window: Vec<(String, Json)> = Vec::new();
            window.push(entry("start_utc", instant_text(&call.query.start_utc)));
            window.push(entry("end_utc", instant_text(&call.query.end_utc)));
            let scanned = match total_scanned {
                Some(n) => uint(n),
                None => Json::Null,
            };
            if summary {
                let digest = build_log_summary(&entries);
                let ghost digest_ghost = digest;
                let mut f: Vec<(String, Json)> = Vec::new();
                f.push(entry("summary", log_summary_json(&digest)));
                f.push(entry("total_scanned", scanned));
                f.push(entry("returned", uint(returned)));
                f.push(entry("truncated", Json::Bool(truncated)));
                f.push(entry("generated_at_utc", string(generated_at_utc)));
                f.push(entry("window", Json::Object(window)));
                let sc = Json::Object(f);
                let ghost sc_ghost = sc;
                let res = tool_result(String::from_str("Returned logs triage summary"), sc);
                let r = result_with_error_check(call.id, res);
                assert(answers_with_tool_result(r, call.id, sc_ghost));
                assert(field_at(sc_ghost, 0, "summary"@) matches Some(j) && renders_log_summary(j, digest_ghost));
                assert(listing_counts(sc_ghost, whole, call.query.limit));
                return r;
            }
            let mut f: Vec<(String, Json)> = Vec::new();
            f.push(entry("logs", entries_to_json(&entries)));
            f.push(entry("total_scanned", scanned));
            f.push(entry("returned", uint(returned)));
            f.push(entry("truncated", Json::Bool(truncated)));
            f.push(entry("generated_at_utc", string(generated_at_utc)));
            f.push(entry("window", Json::Object(window)));
            let sc = Json::Object(f);
            let ghost sc_ghost = sc;
            assert(is_log_listing(sc, whole, call.query, generated_at_utc@));
            let mut text = String::from_str("Returned ");
            text.append(crate::decimal::usize_to_text(returned).as_str());
            text.append(" log entries");
            let res = tool_result(text, sc);
            let r = result_with_error_check(call.id, res);
            assert(answers_with_tool_result(r, call.id, sc_ghost));
            r
        },
        LogsPurpose::Recent => {
            let mut f: Vec<(String, Json)> = Vec::new();
            f.push(entry("logs", entries_to_json(&result.entries)));
            let body = Json::Object(f);
            let r = result_with_error_check(call.id, resource_result(LOGS_RESOURCE_URI, &body));
            assert(answers_with_resource(r, call.id, LOGS_RESOURCE_URI@, body) && lists_entries(body, result.entries@));
            r
        },
    }
}

/// The shape of a request body.
pub enum Body {
    /// One message.
    Single(Json),
    /// A non-empty batch of messages, in order.
    Batch(Vec<Json>),
    /// An empty batch, which is itself an invalid request.
    EmptyBatch,
}

/// Classifies a decoded request body.
pub fn classify_body(payload: Json) -> (r: Body)
    ensures
        match payload {
            Json::Array(items) => if items@.len() == 0 {
                r is EmptyBatch
            } else {
                r matches Body::Batch(v) && v == items
            },
            _ => r matches Body::Single(j) && j == payload,
        },
{
    match payload {
        Json::Array(items) => {
            if items.len() == 0 {
                Body::EmptyBatch
            } else {
                Body::Batch(items)
            }
        },
        other => Body::Single(other),
    }
}

/// The response to a body that is not JSON.
pub fn parse_error_response() -> (r: Json)
    ensures
        is_error_response(r, None, PARSE_ERROR, "Parse error"@),
{
    json_rpc_error(None, PARSE_ERROR, "Parse error")
}

/// The response to an empty batch: a batch of one `Invalid Request` error.
pub fn empty_batch_response() -> (r: Json)
    ensures
        r matches Json::Array(items) && items@.len() == 1 && is_error_response(items@[0], None, INVALID_REQUEST, "Invalid Request"@),
{
    let mut items: Vec<Json> = Vec::new();
    items.push(json_rpc_error(None, INVALID_REQUEST, "Invalid Request"));
    Json::Array(items)
}

/// The responses present among per-item outcomes, in order.
pub open spec fn present(s: Seq<Option<Json>>) -> Seq<Json>
    decreases s.len(),
{
    if s.len() == 0 {
        Seq::empty()
    } else {
        match s.last() {
            Some(j) => present(s.drop_last()).push(j),
            None => present(s.drop_last()),
        }
    }
}

/// Assembles a batch response from the per-item responses: the present
/// ones in their order, or nothing at all when no item has one.
pub fn collect_batch_responses(responses: Vec<Option<Json>>) -> (r: Option<Json>)
    ensures
        present(responses@).len() == 0 ==> r is None,
        present(responses@).len() > 0 ==> (r matches Some(Json::Array(items)) && items@ == present(responses@)),
{
    let ghost input = responses@;
    let mut rest = responses;
    let n = rest.len();
    let mut out: Vec<Json> = Vec::new();
    let mut k: usize = 0;
    while rest.len() > 0
        invariant
            n == input.len(),
            k + rest@.len() == input.len(),
            rest@ == input.subrange(k as int, input.len() as int),
            out@ == present(input.subrange(0, k as int)),
        decreases rest@.len(),
    {
        let item = rest.remove(0);
        proof {
            assert(input.subrange(0, k + 1).drop_last() == input.subrange(0, k as int));
            assert(input.subrange(k + 1, input.len() as int) == rest@);
        }
        match item {
            Some(j) => out.push(j),
            None => {},
        }
        k += 1;
    }
    assert(input.subrange(0, input.len() as int) == input);
    if out.len() == 0 {
        None
    } else {
        Some(Json::Array(out))
    }
}

proof fn lemma_present_all_none(s: Seq<Option<Json>>)
    requires
        forall|i: int| 0 <= i < s.len() ==> (#[trigger] s[i]) is None,
    ensures
        present(s).len() == 0,
    decreases s.len(),
{
    if s.len() > 0 {
        assert forall|i: int| 0 <= i < s.drop_last().len() implies (#[trigger] s.drop_last()[i]) is None by {
            assert(s.drop_last()[i] == s[i]);
        }
        lemma_present_all_none(s.drop_last());
    }
}

/// A batch of notifications is answered with nothing: no notification
/// gets a response, and a batch whose items all lack one has no body.
pub proof fn notification_batch_is_silent(items: Seq<Json>, handled: Seq<Handled>, responses: Seq<Option<Json>>)
    requires
        items.len() == handled.len(),
        handled.len() == responses.len(),
        forall|i: int| 0 <= i < items.len() ==> is_notification(#[trigger] items[i]),
        forall|i: int| 0 <= i < items.len() ==> (#[trigger] handled[i]).reply == !is_notification(items[i]),
        forall|i: int| 0 <= i < items.len() ==> ((#[trigger] responses[i]) is Some <==> handled[i].reply),
    ensures
        present(responses).len() == 0,
{
    assert forall|i: int| 0 <= i < responses.len() implies (#[trigger] responses[i]) is None by {
        assert(is_notification(items[i]));
        assert(!handled[i].reply);
    }
    lemma_present_all_none(responses);
}

/// In a mixed batch, the response to the `i`-th item that has one is the
/// `i`-th element of the batch response: one response per answered item, in
/// the items' order.
pub proof fn batch_keeps_request_order(responses: Seq<Option<Json>>, k: int)
    requires
        0 <= k < responses.len(),
        responses[k] is Some,
    ensures
        present(responses).len() > 0,
        present(responses.subrange(0, k)).len() < present(responses).len(),
        present(responses)[present(responses.subrange(0, k)).len() as int] == responses[k]->0,
    decreases responses.len(),
{
    if k == responses.len() - 1 {
        assert(responses.drop_last() == responses.subrange(0, k));
    } else {
        assert(responses.drop_last().subrange(0, k) == responses.subrange(0, k));
        batch_keeps_request_order(responses.drop_last(), k);
    }
}

} // verus!
