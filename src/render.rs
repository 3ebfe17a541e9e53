//! JSON renderings of the domain records and of tool results.

use vstd::prelude::*;
use crate::journal::JournalLogEntry;
use crate::json::{Json, is_str, string};
use crate::units::UnitStatus;
use crate::validate::opt_view;

verus! {

/// The member at position `i` of an object, when it is named `key`.
pub open spec fn field_at(j: Json, i: int, key: Seq<char>) -> Option<Json> {
    match j {
        Json::Object(f) => if 0 <= i < f@.len() && f@[i].0@ == key {
            Some(f@[i].1)
        } else {
            None
        },
        _ => None,
    }
}

pub open spec fn members_len(j: Json) -> int {
    match j {
        Json::Object(f) => f@.len() as int,
        _ => -1,
    }
}

/// `j` renders an optional string: the string, or `null`.
pub open spec fn renders_opt_str(j: Json, o: Option<Seq<char>>) -> bool {
    match o {
        Some(s) => is_str(j, s),
        None => j is Null,
    }
}

pub open spec fn renders_opt_int(j: Json, o: Option<int>) -> bool {
    match o {
        Some(n) => j == Json::Int(n as i64),
        None => j is Null,
    }
}

/// `j` is the record of a unit snapshot, member by member.
pub open spec fn renders_unit(j: Json, u: UnitStatus) -> bool {
    &&& members_len(j) == 10
    &&& field_at(j, 0, "unit"@) matches Some(v) && is_str(v, u.unit@)
    &&& field_at(j, 1, "description"@) matches Some(v) && is_str(v, u.description@)
    &&& field_at(j, 2, "load_state"@) matches Some(v) && is_str(v, u.load_state@)
    &&& field_at(j, 3, "active_state"@) matches Some(v) && is_str(v, u.active_state@)
    &&& field_at(j, 4, "sub_state"@) matches Some(v) && is_str(v, u.sub_state@)
    &&& field_at(j, 5, "unit_file_state"@) matches Some(v) && renders_opt_str(v, opt_view(u.unit_file_state))
    &&& field_at(j, 6, "since_utc"@) matches Some(v) && renders_opt_str(v, opt_view(u.since_utc))
    &&& field_at(j, 7, "main_pid"@) matches Some(v) && renders_opt_int(v, match u.main_pid { Some(p) => Some(p as int), None => None })
    &&& field_at(j, 8, "exec_main_status"@) matches Some(v) && renders_opt_int(v, match u.exec_main_status { Some(p) => Some(p as int), None => None })
    &&& field_at(j, 9, "result"@) matches Some(v) && renders_opt_str(v, opt_view(u.result))
}

/// `j` is the record of a log entry, member by member.
pub open spec fn renders_entry(j: Json, e: JournalLogEntry) -> bool {
    &&& members_len(j) == 7
    &&& field_at(j, 0, "timestamp_utc"@) matches Some(v) && is_str(v, e.timestamp_utc@)
    &&& field_at(j, 1, "unit"@) matches Some(v) && renders_opt_str(v, opt_view(e.unit))
    &&& field_at(j, 2, "priority"@) matches Some(v) && renders_opt_str(v, opt_view(e.priority))
    &&& field_at(j, 3, "hostname"@) matches Some(v) && renders_opt_str(v, opt_view(e.hostname))
    &&& field_at(j, 4, "pid"@) matches Some(v) && renders_opt_int(v, match e.pid { Some(p) => Some(p as int), None => None })
    &&& field_at(j, 5, "message"@) matches Some(v) && renders_opt_str(v, opt_view(e.message))
    &&& field_at(j, 6, "cursor"@) matches Some(v) && renders_opt_str(v, opt_view(e.cursor))
}

/// A member with a name.
pub fn entry(key: &str, value: Json) -> (r: (String, Json))
    ensures
        r.0@ == key@,
        r.1 == value,
{
    (key.to_string(), value)
}

pub fn opt_string_json(o: &Option<String>) -> (r: Json)
    ensures
        renders_opt_str(r, opt_view(*o)),
{
    match o {
        Some(s) => string(s.as_str()),
        None => Json::Null,
    }
}

fn opt_u32_json(o: Option<u32>) -> (r: Json)
    ensures
        renders_opt_int(r, match o { Some(p) => Some(p as int), None => None }),
{
    match o {
        Some(n) => Json::Int(n as i64),
        None => Json::Null,
    }
}

fn opt_i32_json(o: Option<i32>) -> (r: Json)
    ensures
        renders_opt_int(r, match o { Some(p) => Some(p as int), None => None }),
{
    match o {
        Some(n) => Json::Int(n as i64),
        None => Json::Null,
    }
}

/// The record of a unit snapshot.
pub fn unit_to_json(u: &UnitStatus) -> (r: Json)
    ensures
        renders_unit(r, *u),
{
    let mut f: Vec<(String, Json)> = Vec::new();
    f.push(entry("unit", string(u.unit.as_str())));
    f.push(entry("description", string(u.description.as_str())));
    f.push(entry("load_state", string(u.load_state.as_str())));
    f.push(entry("active_state", string(u.active_state.as_str())));
    f.push(entry("sub_state", string(u.sub_state.as_str())));
    f.push(entry("unit_file_state", opt_string_json(&u.unit_file_state)));
    f.push(entry("since_utc", opt_string_json(&u.since_utc)));
    f.push(entry("main_pid", opt_u32_json(u.main_pid)));
    f.push(entry("exec_main_status", opt_i32_json(u.exec_main_status)));
    f.push(entry("result", opt_string_json(&u.result)));
    Json::Object(f)
}

/// The record of a log entry.
pub fn entry_to_json(e: &JournalLogEntry) -> (r: Json)
    ensures
        renders_entry(r, *e),
{
    let mut f: Vec<(String, Json)> = Vec::new();
    f.push(entry("timestamp_utc", string(e.timestamp_utc.as_str())));
    f.push(entry("unit", opt_string_json(&e.unit)));
    f.push(entry("priority", opt_string_json(&e.priority)));
    f.push(entry("hostname", opt_string_json(&e.hostname)));
    f.push(entry("pid", opt_i32_json(e.pid)));
    f.push(entry("message", opt_string_json(&e.message)));
    f.push(entry("cursor", opt_string_json(&e.cursor)));
    Json::Object(f)
}

/// The records of a listing, in order.
pub fn units_to_json(units: &Vec<UnitStatus>, count: usize) -> (r: Json)
    requires
        count <= units@.len(),
    ensures
        r matches Json::Array(items) && items@.len() == count && forall|i: int|
            0 <= i < count ==> renders_unit(#[trigger] items@[i], units@[i]),
{
    let mut items: Vec<Json> = Vec::new();
    let mut i: usize = 0;
    while i < count
        invariant
            count <= units@.len(),
            i <= count,
            items@.len() == i,
            forall|k: int| 0 <= k < i ==> renders_unit(#[trigger] items@[k], units@[k]),
        decreases count - i,
    {
        items.push(unit_to_json(&units[i]));
        i += 1;
    }
    Json::Array(items)
}

/// The records of log entries, in order.
pub fn entries_to_json(entries: &Vec<JournalLogEntry>) -> (r: Json)
    ensures
        r matches Json::Array(items) && items@.len() == entries@.len() && forall|i: int|
            0 <= i < entries@.len() ==> renders_entry(#[trigger] items@[i], entries@[i]),
{
    let mut items: Vec<Json> = Vec::new();
    let mut i: usize = 0;
    while i < entries.len()
        invariant
            i <= entries@.len(),
            items@.len() == i,
            forall|k: int| 0 <= k < i ==> renders_entry(#[trigger] items@[k], entries@[k]),
        decreases entries@.len() - i,
    {
        items.push(entry_to_json(&entries[i]));
        i += 1;
    }
    Json::Array(items)
}

/// A text content block.
pub fn text_block(text: String) -> (r: Json)
    ensures
        field_at(r, 0, "type"@) matches Some(t) && is_str(t, "text"@),
        field_at(r, 1, "text"@) matches Some(t) && is_str(t, text@),
{
    let mut f: Vec<(String, Json)> = Vec::new();
    f.push(entry("type", string("text")));
    f.push(entry("text", Json::Str(text)));
    Json::Object(f)
}

/// A tool result: one text block as `content`, and `structuredContent`.
pub fn tool_result(text: String, structured: Json) -> (r: Json)
    ensures
        field_at(r, 0, "content"@) matches Some(c) && (c matches Json::Array(blocks) && blocks@.len() == 1
            && (field_at(blocks@[0], 1, "text"@) matches Some(t) && is_str(t, text@))),
        field_at(r, 1, "structuredContent"@) == Some(structured),
{
    let mut blocks: Vec<Json> = Vec::new();
    blocks.push(text_block(text));
    let mut f: Vec<(String, Json)> = Vec::new();
    f.push(entry("content", Json::Array(blocks)));
    f.push(entry("structuredContent", structured));
    Json::Object(f)
}

} // verus!
