//! Validation of the tool arguments: priorities, unit names, service states,
//! limits, ordering, and the assembly of a journal query.

use vstd::prelude::*;
use crate::errors::{AppError, is_bad_request};
use crate::text::{char_vec, chars_eq_ci, eq_ci, lower_code, string_from_chars, trim_chars, trimmed};
use crate::utc::{UtcInstant, instant_lt, is_before, exceeds_seven_days, parse_utc, span_nanos, utc_of, MAX_WINDOW_NANOS};

verus! {

pub const MAX_LOG_LIMIT: usize = 1_000;
pub const DEFAULT_LOG_LIMIT: usize = 100;
pub const MAX_SERVICES_LIMIT: usize = 1_000;
pub const DEFAULT_SERVICES_LIMIT: usize = 200;

/// The contents of an optional string.
pub open spec fn opt_view(o: Option<String>) -> Option<Seq<char>> {
    match o {
        Some(s) => Some(s@),
        None => None,
    }
}

/// The numeric syslog level that a priority token names, compared without
/// ASCII case.
pub open spec fn priority_level(t: Seq<char>) -> Option<Seq<char>> {
    if eq_ci(t, "0"@) || eq_ci(t, "emerg"@) || eq_ci(t, "panic"@) {
        Some("0"@)
    } else if eq_ci(t, "1"@) || eq_ci(t, "alert"@) {
        Some("1"@)
    } else if eq_ci(t, "2"@) || eq_ci(t, "crit"@) || eq_ci(t, "critical"@) {
        Some("2"@)
    } else if eq_ci(t, "3"@) || eq_ci(t, "err"@) || eq_ci(t, "error"@) {
        Some("3"@)
    } else if eq_ci(t, "4"@) || eq_ci(t, "warning"@) || eq_ci(t, "warn"@) {
        Some("4"@)
    } else if eq_ci(t, "5"@) || eq_ci(t, "notice"@) {
        Some("5"@)
    } else if eq_ci(t, "6"@) || eq_ci(t, "info"@) || eq_ci(t, "informational"@) {
        Some("6"@)
    } else if eq_ci(t, "7"@) || eq_ci(t, "debug"@) {
        Some("7"@)
    } else {
        None
    }
}

/// The canonical (lower-case) service state that a token names.
pub open spec fn service_state(t: Seq<char>) -> Option<Seq<char>> {
    if eq_ci(t, "active"@) {
        Some("active"@)
    } else if eq_ci(t, "inactive"@) {
        Some("inactive"@)
    } else if eq_ci(t, "failed"@) {
        Some("failed"@)
    } else if eq_ci(t, "activating"@) {
        Some("activating"@)
    } else if eq_ci(t, "deactivating"@) {
        Some("deactivating"@)
    } else if eq_ci(t, "reloading"@) {
        Some("reloading"@)
    } else {
        None
    }
}

pub open spec fn is_unit_char(c: char) -> bool {
    ('a' <= c && c <= 'z') || ('A' <= c && c <= 'Z') || ('0' <= c && c <= '9') || c == '-' || c
        == '_' || c == '@' || c == ':' || c == '.'
}

/// A unit name: non-empty, of alphanumerics and `-_@:.` only.
pub open spec fn is_unit_name(t: Seq<char>) -> bool {
    t.len() > 0 && forall|i: int| 0 <= i < t.len() ==> is_unit_char(#[trigger] t[i])
}

#[derive(Debug, Clone, Copy, PartialEq, Eq, Structural)]
pub enum LogOrder {
    Asc,
    Desc,
}

/// The order a client asked for: absent or blank means descending.
pub open spec fn order_of(o: Option<String>) -> Option<LogOrder> {
    match o {
        None => Some(LogOrder::Desc),
        Some(v) => {
            let t = trimmed(v@);
            if t.len() == 0 || eq_ci(t, "desc"@) {
                Some(LogOrder::Desc)
            } else if eq_ci(t, "asc"@) {
                Some(LogOrder::Asc)
            } else {
                None
            }
        },
    }
}

/// Whether the trimmed characters `v` equal the literal `lit` up to case.
fn eq_lit(v: &Vec<char>, lit: &str) -> (r: bool)
    ensures
        r == eq_ci(v@, lit@),
{
    let l = char_vec(lit);
    chars_eq_ci(v, &l)
}

pub fn normalize_priority(priority: Option<String>) -> (r: Result<Option<String>, AppError>)
    ensures
        match priority {
            None => r matches Ok(None),
            Some(v) => match priority_level(trimmed(v@)) {
                Some(level) => r matches Ok(Some(p)) && p@ == level,
                None => r matches Err(e) && is_bad_request(e, "invalid_priority"@),
            },
        },
{
    let value = match priority {
        None => return Ok(None),
        Some(v) => v,
    };
    let raw = char_vec(value.as_str());
    let t = trim_chars(&raw);
    let level: &str = if eq_lit(&t, "0") || eq_lit(&t, "emerg") || eq_lit(&t, "panic") {
        "0"
    } else if eq_lit(&t, "1") || eq_lit(&t, "alert") {
        "1"
    } else if eq_lit(&t, "2") || eq_lit(&t, "crit") || eq_lit(&t, "critical") {
        "2"
    } else if eq_lit(&t, "3") || eq_lit(&t, "err") || eq_lit(&t, "error") {
        "3"
    } else if eq_lit(&t, "4") || eq_lit(&t, "warning") || eq_lit(&t, "warn") {
        "4"
    } else if eq_lit(&t, "5") || eq_lit(&t, "notice") {
        "5"
    } else if eq_lit(&t, "6") || eq_lit(&t, "info") || eq_lit(&t, "informational") {
        "6"
    } else if eq_lit(&t, "7") || eq_lit(&t, "debug") {
        "7"
    } else {
        return Err(
            AppError::bad_request(
                "invalid_priority",
                "priority must be one of 0-7 or: emerg, alert, crit, err, warning, notice, info, debug",
            ),
        );
    };
    Ok(Some(level.to_string()))
}

/// Whether every character of `s` may appear in a unit name.
pub fn is_valid_unit_name_chars(s: &str) -> (r: bool)
    ensures
        r == forall|i: int| 0 <= i < s@.len() ==> is_unit_char(#[trigger] s@[i]),
{
    let v = char_vec(s);
    let mut i: usize = 0;
    while i < v.len()
        invariant
            v@ == s@,
            i <= v@.len(),
            forall|k: int| 0 <= k < i ==> is_unit_char(#[trigger] v@[k]),
        decreases v@.len() - i,
    {
        let c = v[i];
        if !(('a' <= c && c <= 'z') || ('A' <= c && c <= 'Z') || ('0' <= c && c <= '9') || c == '-'
            || c == '_' || c == '@' || c == ':' || c == '.') {
            return false;
        }
        i += 1;
    }
    true
}

pub fn normalize_unit(unit: Option<String>) -> (r: Result<Option<String>, AppError>)
    ensures
        match unit {
            None => r matches Ok(None),
            Some(v) => if is_unit_name(trimmed(v@)) {
                r matches Ok(Some(u)) && u@ == trimmed(v@)
            } else {
                r matches Err(e) && is_bad_request(e, "invalid_unit"@)
            },
        },
{
    let value = match unit {
        None => return Ok(None),
        Some(v) => v,
    };
    let raw = char_vec(value.as_str());
    let t = trim_chars(&raw);
    let normalized = string_from_chars(&t);
    if t.len() == 0 || !is_valid_unit_name_chars(normalized.as_str()) {
        return Err(
            AppError::bad_request(
                "invalid_unit",
                "unit must contain only alphanumeric characters, dashes, underscores, dots, @, and :",
            ),
        );
    }
    Ok(Some(normalized))
}

pub fn normalize_name_contains(value: Option<String>) -> (r: Option<String>)
    ensures
        match value {
            None => r is None,
            Some(v) => if trimmed(v@).len() == 0 {
                r is None
            } else {
                r matches Some(t) && t@ == trimmed(v@)
            },
        },
{
    let value = match value {
        None => return None,
        Some(v) => v,
    };
    let raw = char_vec(value.as_str());
    let t = trim_chars(&raw);
    if t.len() == 0 {
        return None;
    }
    Some(string_from_chars(&t))
}

pub fn normalize_service_state(state: Option<String>) -> (r: Result<Option<String>, AppError>)
    ensures
        match state {
            None => r matches Ok(None),
            Some(v) => match service_state(trimmed(v@)) {
                Some(s) => r matches Ok(Some(n)) && n@ == s,
                None => r matches Err(e) && is_bad_request(e, "invalid_state"@),
            },
        },
{
    let value = match state {
        None => return Ok(None),
        Some(v) => v,
    };
    let raw = char_vec(value.as_str());
    let t = trim_chars(&raw);
    let name: &str = if eq_lit(&t, "active") {
        "active"
    } else if eq_lit(&t, "inactive") {
        "inactive"
    } else if eq_lit(&t, "failed") {
        "failed"
    } else if eq_lit(&t, "activating") {
        "activating"
    } else if eq_lit(&t, "deactivating") {
        "deactivating"
    } else if eq_lit(&t, "reloading") {
        "reloading"
    } else {
        return Err(
            AppError::bad_request(
                "invalid_state",
                "state must be one of: active, inactive, failed, activating, deactivating, reloading",
            ),
        );
    };
    Ok(Some(name.to_string()))
}

pub fn normalize_services_limit(limit: Option<u32>) -> (r: Result<usize, AppError>)
    ensures
        match limit {
            None => r == Ok::<usize, AppError>(DEFAULT_SERVICES_LIMIT),
            Some(n) => if 1 <= n <= MAX_SERVICES_LIMIT {
                r == Ok::<usize, AppError>(n as usize)
            } else {
                r matches Err(e) && is_bad_request(e, "invalid_limit"@)
            },
        },
{
    let limit: u32 = match limit {
        None => DEFAULT_SERVICES_LIMIT as u32,
        Some(n) => n,
    };
    if limit == 0 || limit > MAX_SERVICES_LIMIT as u32 {
        return Err(AppError::bad_request("invalid_limit", "limit must be between 1 and 1000"));
    }
    Ok(limit as usize)
}

/// Reads the requested order: `asc`, `desc`, or absent/blank for descending.
pub fn normalize_order(order: &Option<String>) -> (r: Result<LogOrder, AppError>)
    ensures
        match order_of(*order) {
            Some(o) => r == Ok::<LogOrder, AppError>(o),
            None => r matches Err(e) && is_bad_request(e, "invalid_order"@),
        },
{
    match order {
        None => Ok(LogOrder::Desc),
        Some(v) => {
            let raw = char_vec(v.as_str());
            let t = trim_chars(&raw);
            if t.len() == 0 || eq_lit(&t, "desc") {
                Ok(LogOrder::Desc)
            } else if eq_lit(&t, "asc") {
                Ok(LogOrder::Asc)
            } else {
                Err(AppError::bad_request("invalid_order", "order must be one of: asc, desc"))
            }
        },
    }
}

/// The arguments of the log listing tool, as received.
#[derive(Debug, Clone, PartialEq, Eq)]
pub struct LogsQueryParams {
    pub priority: Option<String>,
    pub unit: Option<String>,
    pub start_utc: Option<String>,
    pub end_utc: Option<String>,
    pub grep: Option<String>,
    pub exclude_units: Option<Vec<String>>,
    pub order: Option<String>,
    pub allow_large_window: Option<bool>,
    pub limit: Option<u32>,
    pub summary: Option<bool>,
}

/// The arguments of the service listing tool, as received.
#[derive(Debug, Clone, PartialEq, Eq)]
pub struct ServicesQueryParams {
    pub state: Option<String>,
    pub name_contains: Option<String>,
    pub limit: Option<u32>,
    pub summary: Option<bool>,
}

/// A validated journal query.
#[derive(Debug, Clone, PartialEq, Eq)]
pub struct LogQuery {
    pub priority: Option<String>,
    pub unit: Option<String>,
    pub exclude_units: Vec<String>,
    pub grep: Option<String>,
    pub order: LogOrder,
    pub start_utc: Option<UtcInstant>,
    pub end_utc: Option<UtcInstant>,
    pub limit: usize,
}

/// A timestamp argument: `Some(None)` when absent, `None` when unreadable.
pub open spec fn time_arg(o: Option<String>) -> Option<Option<UtcInstant>> {
    match o {
        None => Some(None),
        Some(v) => match utc_of(v@) {
            Some(t) => Some(Some(t)),
            None => None,
        },
    }
}

pub open spec fn limit_ok(l: Option<u32>) -> bool {
    match l {
        None => true,
        Some(n) => 1 <= n <= MAX_LOG_LIMIT,
    }
}

pub open spec fn limit_of(l: Option<u32>) -> usize {
    match l {
        None => DEFAULT_LOG_LIMIT,
        Some(n) => n as usize,
    }
}

pub open spec fn excluded(p: LogsQueryParams) -> Seq<String> {
    match p.exclude_units {
        None => Seq::empty(),
        Some(v) => v@,
    }
}

pub open spec fn excludes_ok(s: Seq<String>) -> bool {
    forall|i: int| 0 <= i < s.len() ==> is_unit_name(trimmed(#[trigger] s[i]@))
}

pub open spec fn priority_ok(p: Option<String>) -> bool {
    match p {
        None => true,
        Some(v) => priority_level(trimmed(v@)) is Some,
    }
}

pub open spec fn unit_ok(u: Option<String>) -> bool {
    match u {
        None => true,
        Some(v) => is_unit_name(trimmed(v@)),
    }
}

/// The code of the first check that the arguments fail, in the order the
/// checks are made, or `None` when they are valid.
pub open spec fn log_query_error(p: LogsQueryParams) -> Option<Seq<char>> {
    let start = time_arg(p.start_utc);
    let end = time_arg(p.end_utc);
    if start is None || end is None {
        Some("invalid_utc_time"@)
    } else if start->0 is None || end->0 is None {
        Some("missing_time_range"@)
    } else if !instant_lt(start->0->0, end->0->0) {
        Some("invalid_time_range"@)
    } else if p.allow_large_window != Some(true) && span_nanos(start->0->0, end->0->0)
        > MAX_WINDOW_NANOS {
        Some("time_range_too_large"@)
    } else if !limit_ok(p.limit) {
        Some("invalid_limit"@)
    } else if order_of(p.order) is None {
        Some("invalid_order"@)
    } else if !excludes_ok(excluded(p)) {
        Some("invalid_unit"@)
    } else if !priority_ok(p.priority) {
        Some("invalid_priority"@)
    } else if !unit_ok(p.unit) {
        Some("invalid_unit"@)
    } else if !grep_ok(p.grep) {
        Some("invalid_grep"@)
    } else {
        None
    }
}

/// A grep argument is absent, a substring, or a `/…/` pattern that compiles.
pub open spec fn grep_ok(g: Option<String>) -> bool {
    match g {
        Some(v) => match crate::journal::grep_rule(v@) {
            Some(crate::journal::GrepRule::Pattern(pattern)) => crate::journal::regex_compiles(pattern),
            _ => true,
        },
        None => true,
    }
}

/// The query that valid arguments describe.
pub open spec fn query_matches(p: LogsQueryParams, q: LogQuery) -> bool {
    &&& q.start_utc == time_arg(p.start_utc)->0
    &&& q.end_utc == time_arg(p.end_utc)->0
    &&& q.limit == limit_of(p.limit)
    &&& Some(q.order) == order_of(p.order)
    &&& q.exclude_units@.len() == excluded(p).len()
    &&& forall|i: int| 0 <= i < excluded(p).len() ==> #[trigger] q.exclude_units@[i]@ == trimmed(excluded(p)[i]@)
    &&& opt_view(q.priority) == match p.priority {
        None => None,
        Some(v) => priority_level(trimmed(v@)),
    }
    &&& opt_view(q.unit) == match p.unit {
        None => None,
        Some(v) => Some(trimmed(v@)),
    }
    &&& opt_view(q.grep) == match p.grep {
        None => None,
        Some(v) => if trimmed(v@).len() == 0 { None } else { Some(trimmed(v@)) },
    }
}

/// Normalises every excluded unit name, failing on the first invalid one.
fn normalize_exclude_units(units: &Option<Vec<String>>) -> (r: Result<Vec<String>, AppError>)
    ensures
        ({
            let s = match *units { None => Seq::<String>::empty(), Some(v) => v@ };
            if excludes_ok(s) {
                r matches Ok(out) && out@.len() == s.len() && forall|i: int| 0 <= i < s.len() ==> #[trigger] out@[i]@ == trimmed(s[i]@)
            } else {
                r matches Err(e) && is_bad_request(e, "invalid_unit"@)
            }
        }),
{
    let v = match units {
        None => return Ok(Vec::new()),
        Some(v) => v,
    };
    let mut out: Vec<String> = Vec::new();
    let mut i: usize = 0;
    while i < v.len()
        invariant
            *units == Some(*v),
            i <= v@.len(),
            out@.len() == i,
            forall|k: int| 0 <= k < i ==> #[trigger] out@[k]@ == trimmed(v@[k]@),
            forall|k: int| 0 <= k < i ==> is_unit_name(trimmed(#[trigger] v@[k]@)),
        decreases v@.len() - i,
    {
        let item = v[i].clone();
        match normalize_unit(Some(item)) {
            Ok(Some(u)) => out.push(u),
            Ok(None) => {
                return Err(AppError::bad_request("invalid_unit", "unit must be set"));
            },
            Err(e) => {
                assert(!is_unit_name(trimmed(v@[i as int]@)));
                assert(!excludes_ok(v@));
                return Err(e);
            },
        }
        i += 1;
    }
    Ok(out)
}

/// Trims a grep argument; a blank one is treated as absent.
fn normalize_grep(grep: Option<String>) -> (r: Option<String>)
    ensures
        opt_view(r) == match grep {
            None => None,
            Some(v) => if trimmed(v@).len() == 0 { None } else { Some(trimmed(v@)) },
        },
{
    normalize_name_contains(grep)
}

/// Validates the log listing arguments into a journal query.
pub fn build_log_query(params: LogsQueryParams) -> (r: Result<LogQuery, AppError>)
    ensures
        match log_query_error(params) {
            Some(code) => r matches Err(e) && is_bad_request(e, code),
            None => r matches Ok(q) && query_matches(params, q),
        },
{
    let ghost p = params;
    let start_utc = match parse_utc(&params.start_utc) {
        Ok(t) => t,
        Err(e) => return Err(e),
    };
    let end_utc = match parse_utc(&params.end_utc) {
        Ok(t) => t,
        Err(e) => return Err(e),
    };
    let (start, end) = match (start_utc, end_utc) {
        (Some(s), Some(e)) => (s, e),
        _ => {
            return Err(
                AppError::bad_request("missing_time_range", "start_utc and end_utc are required"),
            );
        },
    };
    if !is_before(&start, &end) {
        return Err(
            AppError::bad_request(
                "invalid_time_range",
                "start_utc must be strictly less than end_utc",
            ),
        );
    }
    let allow_large_window = match params.allow_large_window {
        Some(b) => b,
        None => false,
    };
    if !allow_large_window && exceeds_seven_days(&start, &end) {
        return Err(
            AppError::bad_request(
                "time_range_too_large",
                "time window must not exceed 7 days unless allow_large_window is true",
            ),
        );
    }
    let limit: u32 = match params.limit {
        None => DEFAULT_LOG_LIMIT as u32,
        Some(n) => n,
    };
    if limit == 0 || limit > MAX_LOG_LIMIT as u32 {
        return Err(AppError::bad_request("invalid_limit", "limit must be between 1 and 1000"));
    }
    let order = match normalize_order(&params.order) {
        Ok(o) => o,
        Err(e) => return Err(e),
    };
    let exclude_units = match normalize_exclude_units(&params.exclude_units) {
        Ok(v) => v,
        Err(e) => return Err(e),
    };
    let priority = match normalize_priority(params.priority) {
        Ok(v) => v,
        Err(e) => return Err(e),
    };
    let unit = match normalize_unit(params.unit) {
        Ok(v) => v,
        Err(e) => return Err(e),
    };
    match &params.grep {
        Some(g) => match crate::journal::build_grep_matcher(Some(g.as_str())) {
            Ok(_) => {},
            Err(e) => return Err(e),
        },
        None => {},
    }
    let grep = normalize_grep(params.grep);
    Ok(
        LogQuery {
            priority,
            unit,
            exclude_units,
            grep,
            order,
            start_utc: Some(start),
            end_utc: Some(end),
            limit: limit as usize,
        },
    )
}

/// With readable timestamps, a window whose start is not before its end is
/// rejected as `invalid_time_range`.
pub proof fn inverted_window_is_rejected(p: LogsQueryParams, start: UtcInstant, end: UtcInstant)
    requires
        time_arg(p.start_utc) == Some(Some(start)),
        time_arg(p.end_utc) == Some(Some(end)),
        !instant_lt(start, end),
    ensures
        log_query_error(p) == Some("invalid_time_range"@),
{
}

/// With readable timestamps, a window longer than seven days is rejected as
/// `time_range_too_large` unless `allow_large_window` is true.
pub proof fn wide_window_is_rejected(p: LogsQueryParams, start: UtcInstant, end: UtcInstant)
    requires
        time_arg(p.start_utc) == Some(Some(start)),
        time_arg(p.end_utc) == Some(Some(end)),
        instant_lt(start, end),
        span_nanos(start, end) > MAX_WINDOW_NANOS,
        p.allow_large_window != Some(true),
    ensures
        log_query_error(p) == Some("time_range_too_large"@),
{
}

/// `error`, `err` and `3` name the same level, `3`. Every level a token
/// names is one of the digits `0` to `7`, each digit names itself, so
/// normalizing twice changes nothing.
pub proof fn priority_aliases_agree(t: Seq<char>)
    ensures
        priority_level("error"@) == Some("3"@),
        priority_level("err"@) == Some("3"@),
        priority_level("3"@) == Some("3"@),
        priority_level(t) matches Some(level) ==> priority_level(level) == Some(level),
        priority_level(t) matches Some(level) ==> priority_level(trimmed(level)) == Some(level),
        priority_level(t) matches Some(level) ==> level == "0"@ || level == "1"@ || level == "2"@
            || level == "3"@ || level == "4"@ || level == "5"@ || level == "6"@ || level == "7"@,
        forall|d: Seq<char>| (d == "0"@ || d == "1"@ || d == "2"@ || d == "3"@ || d == "4"@ || d == "5"@
            || d == "6"@ || d == "7"@) ==> #[trigger] priority_level(d) == Some(d),
{
    reveal_strlit("0");
    reveal_strlit("1");
    reveal_strlit("2");
    reveal_strlit("3");
    reveal_strlit("4");
    reveal_strlit("5");
    reveal_strlit("6");
    reveal_strlit("7");
    reveal_strlit("emerg");
    reveal_strlit("panic");
    reveal_strlit("alert");
    reveal_strlit("crit");
    reveal_strlit("critical");
    reveal_strlit("err");
    reveal_strlit("error");
    reveal_strlit("warning");
    reveal_strlit("warn");
    reveal_strlit("notice");
    reveal_strlit("info");
    reveal_strlit("informational");
    reveal_strlit("debug");
    assert(eq_ci("error"@, "error"@));
    assert(eq_ci("err"@, "err"@));
    assert(!eq_ci("error"@, "0"@) && !eq_ci("error"@, "1"@) && !eq_ci("error"@, "2"@));
    assert(!eq_ci("error"@, "emerg"@)) by {
        assert(lower_code("error"@[1]) != lower_code("emerg"@[1]));
    }
    assert(!eq_ci("error"@, "panic"@)) by {
        assert(lower_code("error"@[0]) != lower_code("panic"@[0]));
    }
    assert(!eq_ci("error"@, "alert"@)) by {
        assert(lower_code("error"@[0]) != lower_code("alert"@[0]));
    }
    assert(!eq_ci("err"@, "0"@) && !eq_ci("err"@, "1"@) && !eq_ci("err"@, "2"@));
    assert(!eq_ci("3"@, "0"@)) by {
        assert(lower_code("3"@[0]) != lower_code("0"@[0]));
    }
    assert(!eq_ci("3"@, "1"@)) by {
        assert(lower_code("3"@[0]) != lower_code("1"@[0]));
    }
    assert(!eq_ci("3"@, "2"@)) by {
        assert(lower_code("3"@[0]) != lower_code("2"@[0]));
    }
    assert(eq_ci("3"@, "3"@));
    assert(eq_ci("0"@, "0"@));
    assert(eq_ci("1"@, "1"@));
    assert(eq_ci("2"@, "2"@));
    assert(eq_ci("4"@, "4"@));
    assert(eq_ci("5"@, "5"@));
    assert(eq_ci("6"@, "6"@));
    assert(eq_ci("7"@, "7"@));
    assert(!eq_ci("1"@, "0"@)) by { assert(lower_code("1"@[0]) != lower_code("0"@[0])); }
    assert(!eq_ci("2"@, "0"@)) by { assert(lower_code("2"@[0]) != lower_code("0"@[0])); }
    assert(!eq_ci("2"@, "1"@)) by { assert(lower_code("2"@[0]) != lower_code("1"@[0])); }
    assert(!eq_ci("4"@, "0"@)) by { assert(lower_code("4"@[0]) != lower_code("0"@[0])); }
    assert(!eq_ci("4"@, "1"@)) by { assert(lower_code("4"@[0]) != lower_code("1"@[0])); }
    assert(!eq_ci("4"@, "2"@)) by { assert(lower_code("4"@[0]) != lower_code("2"@[0])); }
    assert(!eq_ci("4"@, "3"@)) by { assert(lower_code("4"@[0]) != lower_code("3"@[0])); }
    assert(!eq_ci("5"@, "0"@)) by { assert(lower_code("5"@[0]) != lower_code("0"@[0])); }
    assert(!eq_ci("5"@, "1"@)) by { assert(lower_code("5"@[0]) != lower_code("1"@[0])); }
    assert(!eq_ci("5"@, "2"@)) by { assert(lower_code("5"@[0]) != lower_code("2"@[0])); }
    assert(!eq_ci("5"@, "3"@)) by { assert(lower_code("5"@[0]) != lower_code("3"@[0])); }
    assert(!eq_ci("5"@, "4"@)) by { assert(lower_code("5"@[0]) != lower_code("4"@[0])); }
    assert(!eq_ci("6"@, "0"@)) by { assert(lower_code("6"@[0]) != lower_code("0"@[0])); }
    assert(!eq_ci("6"@, "1"@)) by { assert(lower_code("6"@[0]) != lower_code("1"@[0])); }
    assert(!eq_ci("6"@, "2"@)) by { assert(lower_code("6"@[0]) != lower_code("2"@[0])); }
    assert(!eq_ci("6"@, "3"@)) by { assert(lower_code("6"@[0]) != lower_code("3"@[0])); }
    assert(!eq_ci("6"@, "4"@)) by { assert(lower_code("6"@[0]) != lower_code("4"@[0])); }
    assert(!eq_ci("6"@, "5"@)) by { assert(lower_code("6"@[0]) != lower_code("5"@[0])); }
    assert(!eq_ci("7"@, "0"@)) by { assert(lower_code("7"@[0]) != lower_code("0"@[0])); }
    assert(!eq_ci("7"@, "1"@)) by { assert(lower_code("7"@[0]) != lower_code("1"@[0])); }
    assert(!eq_ci("7"@, "2"@)) by { assert(lower_code("7"@[0]) != lower_code("2"@[0])); }
    assert(!eq_ci("7"@, "3"@)) by { assert(lower_code("7"@[0]) != lower_code("3"@[0])); }
    assert(!eq_ci("7"@, "4"@)) by { assert(lower_code("7"@[0]) != lower_code("4"@[0])); }
    assert(!eq_ci("7"@, "5"@)) by { assert(lower_code("7"@[0]) != lower_code("5"@[0])); }
    assert(!eq_ci("7"@, "6"@)) by { assert(lower_code("7"@[0]) != lower_code("6"@[0])); }
}

} // verus!
