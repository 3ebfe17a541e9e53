//! JSON-RPC envelopes: request ids, result and error responses, the mapping
//! of domain errors to JSON-RPC codes, inbound message classification and
//! per-method parameter shapes.

use vstd::prelude::*;
use crate::errors::{AppError, code_of};
use crate::json::{Json, get, get_member, is_str, lemma_member_absent, lemma_member_at, member, string};
use crate::text::str_eq;

verus! {

pub const PARSE_ERROR: i64 = -32700;
pub const INVALID_REQUEST: i64 = -32600;
pub const METHOD_NOT_FOUND: i64 = -32601;
pub const INVALID_PARAMS: i64 = -32602;
pub const INTERNAL_ERROR: i64 = -32603;
pub const UNAUTHORIZED: i64 = -32001;

/// A request id: a string or an integer.
#[derive(Debug, Clone, PartialEq, Eq)]
pub enum RequestId {
    Str(String),
    Int(i64),
}

/// `j` is the JSON form of an optional id (`null` when absent).
pub open spec fn is_id(j: Json, id: Option<RequestId>) -> bool {
    match id {
        None => j is Null,
        Some(RequestId::Str(s)) => is_str(j, s@),
        Some(RequestId::Int(n)) => j == Json::Int(n),
    }
}

/// The id a JSON value can serve as: a string or an integer.
pub open spec fn id_of(j: Json) -> Option<RequestId> {
    match j {
        Json::Str(s) => Some(RequestId::Str(s)),
        Json::Int(n) => Some(RequestId::Int(n)),
        _ => None,
    }
}

pub open spec fn same_id(a: Option<RequestId>, b: Option<RequestId>) -> bool {
    match (a, b) {
        (None, None) => true,
        (Some(RequestId::Str(x)), Some(RequestId::Str(y))) => x@ == y@,
        (Some(RequestId::Int(x)), Some(RequestId::Int(y))) => x == y,
        _ => false,
    }
}

pub fn value_to_request_id(value: &Json) -> (r: Option<RequestId>)
    ensures
        same_id(r, id_of(*value)),
{
    match value {
        Json::Str(s) => Some(RequestId::Str(s.clone())),
        Json::Int(n) => Some(RequestId::Int(*n)),
        _ => None,
    }
}

pub fn request_id_to_value(id: &RequestId) -> (r: Json)
    ensures
        is_id(r, Some(*id)),
{
    match id {
        RequestId::Str(s) => Json::Str(s.clone()),
        RequestId::Int(n) => Json::Int(*n),
    }
}

fn id_json(id: &Option<RequestId>) -> (r: Json)
    ensures
        match *id {
            None => r is Null,
            Some(RequestId::Str(s)) => is_str(r, s@),
            Some(RequestId::Int(n)) => r == Json::Int(n),
        },
{
    match id {
        None => Json::Null,
        Some(RequestId::Str(s)) => Json::Str(s.clone()),
        Some(RequestId::Int(n)) => Json::Int(*n),
    }
}

pub open spec fn echoes_id(r: Json, id: Option<RequestId>) -> bool {
    match id {
        None => get(r, "id"@) matches Some(v) && v is Null,
        Some(RequestId::Str(s)) => get(r, "id"@) matches Some(v) && is_str(v, s@),
        Some(RequestId::Int(n)) => get(r, "id"@) == Some(Json::Int(n)),
    }
}

/// `r` is an error response for `id` with this code and message.
pub open spec fn is_error_response(r: Json, id: Option<RequestId>, code: i64, message: Seq<char>) -> bool {
    &&& get(r, "jsonrpc"@) matches Some(v) && is_str(v, "2.0"@)
    &&& echoes_id(r, id)
    &&& get(r, "error"@) matches Some(e) && get(e, "code"@) == Some(Json::Int(code)) && (get(e, "message"@) matches Some(m) && is_str(m, message))
    &&& get(r, "result"@) is None
}

/// The `data.code` member of an error response.
pub open spec fn error_data_code(r: Json) -> Option<Json> {
    match get(r, "error"@) {
        Some(e) => match get(e, "data"@) {
            Some(d) => get(d, "code"@),
            None => None,
        },
        None => None,
    }
}

/// `r` is a result response for `id` carrying `result`.
pub open spec fn is_result_response(r: Json, id: Option<RequestId>, result: Json) -> bool {
    &&& get(r, "jsonrpc"@) matches Some(v) && is_str(v, "2.0"@)
    &&& echoes_id(r, id)
    &&& get(r, "result"@) == Some(result)
    &&& get(r, "error"@) is None
}

pub fn json_rpc_error_with_data(id: Option<RequestId>, code: i64, message: &str, data: Option<Json>) -> (r: Json)
    ensures
        is_error_response(r, id, code, message@),
        crate::render::members_len(r) == 3,
        match data {
            Some(d) => get(r, "error"@) matches Some(e) && get(e, "data"@) == Some(d) && crate::render::members_len(e) == 3,
            None => get(r, "error"@) matches Some(e) && get(e, "data"@) is None && crate::render::members_len(e) == 2,
        },
{
    let mut error: Vec<(String, Json)> = Vec::new();
    error.push(("code".to_string(), Json::Int(code)));
    error.push(("message".to_string(), string(message)));
    match data {
        Some(d) => error.push(("data".to_string(), d)),
        None => {},
    }
    let mut fields: Vec<(String, Json)> = Vec::new();
    fields.push(("jsonrpc".to_string(), string("2.0")));
    fields.push(("id".to_string(), id_json(&id)));
    fields.push(("error".to_string(), Json::Object(error)));
    proof {
        reveal_strlit("code");
        reveal_strlit("message");
        reveal_strlit("data");
        reveal_strlit("jsonrpc");
        reveal_strlit("id");
        reveal_strlit("error");
        let e = fields@[2].1->Object_0@;
        assert(e[0].0@ == "code"@);
        assert(e[1].0@ == "message"@);
        assert("code"@ != "message"@ && "code"@ != "data"@ && "message"@ != "data"@) by {
            assert("code"@.len() == 4 && "message"@.len() == 7 && "data"@.len() == 4);
            assert("code"@[0] != "data"@[0]);
        }
        lemma_member_at(e, "code"@, 0);
        lemma_member_at(e, "message"@, 1);
        if e.len() == 3 {
            lemma_member_at(e, "data"@, 2);
        } else {
            lemma_member_absent(e, "data"@);
        }
        assert(fields@[0].0@ == "jsonrpc"@ && fields@[1].0@ == "id"@ && fields@[2].0@ == "error"@);
        assert("jsonrpc"@.len() == 7 && "id"@.len() == 2 && "error"@.len() == 5);
        lemma_member_at(fields@, "jsonrpc"@, 0);
        lemma_member_at(fields@, "id"@, 1);
        lemma_member_at(fields@, "error"@, 2);
        reveal_strlit("result");
        assert("result"@.len() == 6);
        assert("result"@ != "error"@) by {
            assert("result"@[0] != "error"@[0]);
        }
        lemma_member_absent(fields@, "result"@);
    }
    Json::Object(fields)
}

pub fn json_rpc_error(id: Option<RequestId>, code: i64, message: &str) -> (r: Json)
    ensures
        is_error_response(r, id, code, message@),
        crate::render::members_len(r) == 3,
        get(r, "error"@) matches Some(e) && get(e, "data"@) is None && crate::render::members_len(e) == 2,
{
    json_rpc_error_with_data(id, code, message, None)
}

pub fn json_rpc_result(id: Option<RequestId>, result: Json) -> (r: Json)
    ensures
        is_result_response(r, id, result),
{
    let ghost res = result;
    let mut fields: Vec<(String, Json)> = Vec::new();
    fields.push(("jsonrpc".to_string(), string("2.0")));
    fields.push(("id".to_string(), id_json(&id)));
    fields.push(("result".to_string(), result));
    proof {
        reveal_strlit("jsonrpc");
        reveal_strlit("id");
        reveal_strlit("error");
        reveal_strlit("result");
        assert(fields@[0].0@ == "jsonrpc"@ && fields@[1].0@ == "id"@ && fields@[2].0@ == "result"@);
        assert("jsonrpc"@.len() == 7 && "id"@.len() == 2 && "error"@.len() == 5 && "result"@.len() == 6);
        assert("result"@ != "error"@) by {
            assert("result"@[0] != "error"@[0]);
        }
        lemma_member_at(fields@, "jsonrpc"@, 0);
        lemma_member_at(fields@, "id"@, 1);
        lemma_member_at(fields@, "result"@, 2);
        lemma_member_absent(fields@, "error"@);
    }
    Json::Object(fields)
}

/// Whether a response is an error response.
pub fn is_json_rpc_error(value: &Json) -> (r: bool)
    ensures
        r == get(*value, "error"@) is Some,
{
    get_member(value, "error").is_some()
}

/// The JSON-RPC code a domain error maps to.
pub open spec fn rpc_code(e: AppError) -> i64 {
    match e {
        AppError::BadRequest { .. } => INVALID_PARAMS,
        AppError::Unauthorized { .. } => UNAUTHORIZED,
        AppError::Forbidden { .. } => UNAUTHORIZED,
        AppError::Internal { .. } => INTERNAL_ERROR,
        AppError::NotImplemented { .. } => INTERNAL_ERROR,
    }
}

pub open spec fn rpc_message(e: AppError) -> Seq<char> {
    match e {
        AppError::BadRequest { .. } => "Invalid params"@,
        AppError::Unauthorized { .. } => "Unauthorized"@,
        AppError::Forbidden { .. } => "Unauthorized"@,
        _ => "Internal error"@,
    }
}

/// Whether a domain error carries its code to the client in `data`.
pub open spec fn has_public_data(e: AppError) -> bool {
    e is BadRequest || e is Unauthorized || e is Forbidden
}

/// `d` is the `data` of a client error: its code, its message, and empty
/// details.
pub open spec fn is_error_detail(d: Json, code: Seq<char>, message: Seq<char>) -> bool {
    &&& d matches Json::Object(f) && f@.len() == 3
    &&& f_at(d, 0, "code"@) matches Some(c) && is_str(c, code)
    &&& f_at(d, 1, "message"@) matches Some(m) && is_str(m, message)
    &&& f_at(d, 2, "details"@) matches Some(Json::Object(x)) && x@.len() == 0
}

/// The member at position `i` of an object, when it is named `key`.
pub open spec fn f_at(j: Json, i: int, key: Seq<char>) -> Option<Json> {
    match j {
        Json::Object(f) => if 0 <= i < f@.len() && f@[i].0@ == key { Some(f@[i].1) } else { None },
        _ => None,
    }
}

/// The human-readable message of a domain error.
pub open spec fn message_of(e: AppError) -> Seq<char> {
    match e {
        AppError::BadRequest { message, .. } => message@,
        AppError::Unauthorized { message, .. } => message@,
        AppError::Forbidden { message, .. } => message@,
        AppError::Internal { message, .. } => message@,
        AppError::NotImplemented { message, .. } => message@,
    }
}

fn error_data(code: &str, message: &str) -> (r: Json)
    ensures
        get(r, "code"@) matches Some(c) && is_str(c, code@),
        is_error_detail(r, code@, message@),
{
    let mut fields: Vec<(String, Json)> = Vec::new();
    fields.push(("code".to_string(), string(code)));
    fields.push(("message".to_string(), string(message)));
    fields.push(("details".to_string(), Json::Object(Vec::new())));
    proof {
        reveal_strlit("code");
        lemma_member_at(fields@, "code"@, 0);
    }
    Json::Object(fields)
}

/// The error response for a domain error: client errors carry their code
/// and message in `data`; internal failures are opaque.
pub fn app_error_to_json_rpc(id: Option<RequestId>, err: AppError) -> (r: Json)
    ensures
        is_error_response(r, id, rpc_code(err), rpc_message(err)),
        has_public_data(err) ==> (error_data_code(r) matches Some(c) && is_str(c, code_of(err))),
        has_public_data(err) ==> (get(r, "error"@) matches Some(e) && (get(e, "data"@) matches Some(d)
            && is_error_detail(d, code_of(err), message_of(err)))),
        !has_public_data(err) ==> (get(r, "error"@) matches Some(e) && get(e, "data"@) is None),
{
    match err {
        AppError::BadRequest { code, message } => {
            let d = error_data(code, message);
            json_rpc_error_with_data(id, INVALID_PARAMS, "Invalid params", Some(d))
        },
        AppError::Unauthorized { code, message } => {
            let d = error_data(code, message);
            json_rpc_error_with_data(id, UNAUTHORIZED, "Unauthorized", Some(d))
        },
        AppError::Forbidden { code, message } => {
            let d = error_data(code, message);
            json_rpc_error_with_data(id, UNAUTHORIZED, "Unauthorized", Some(d))
        },
        _ => json_rpc_error(id, INTERNAL_ERROR, "Internal error"),
    }
}

/// An inbound message.
pub enum Envelope {
    Request { id: RequestId, method: String, params: Option<Json> },
    Notification { method: String, params: Option<Json> },
    /// Not a request or notification; answered with `Invalid Request`
    /// echoing whatever usable id it had.
    Invalid { id: Option<RequestId> },
}

/// `params` is absent, `null` or an object.
pub open spec fn params_shape_ok(p: Option<Json>) -> bool {
    match p {
        None => true,
        Some(j) => j is Null || j is Object,
    }
}

/// An object with `"jsonrpc": "2.0"`, a string `method`, no `result` or
/// `error` member, and parameters that are absent, `null` or an object.
pub open spec fn is_call_shape(j: Json) -> bool {
    &&& j is Object
    &&& get(j, "jsonrpc"@) matches Some(v) && is_str(v, "2.0"@)
    &&& get(j, "method"@) matches Some(m) && m is Str
    &&& get(j, "result"@) is None
    &&& get(j, "error"@) is None
    &&& params_shape_ok(get(j, "params"@))
}

pub open spec fn params_of(j: Json) -> Option<Json> {
    match get(j, "params"@) {
        Some(p) => if p is Null { None } else { Some(p) },
        None => None,
    }
}

/// How an inbound value is classified.
pub open spec fn envelope_matches(payload: Json, e: Envelope) -> bool {
    if is_call_shape(payload) && get(payload, "id"@) is None {
        e matches Envelope::Notification { method, params } && get(payload, "method"@) matches Some(
            m,
        ) && is_str(m, method@) && params == params_of(payload)
    } else if is_call_shape(payload) && (get(payload, "id"@) matches Some(i) && id_of(i) is Some) {
        e matches Envelope::Request { id, method, params } && same_id(Some(id), id_of(get(payload, "id"@)->0))
            && (get(payload, "method"@) matches Some(m) && is_str(m, method@)) && params == params_of(payload)
    } else {
        e matches Envelope::Invalid { id } && same_id(id, match get(payload, "id"@) {
            Some(i) => id_of(i),
            None => None,
        })
    }
}

proof fn lemma_member_remove(s: Seq<(String, Json)>, i: int, k: Seq<char>)
    requires
        0 <= i < s.len(),
        s[i].0@ != k,
    ensures
        member(s.remove(i), k) == member(s, k),
    decreases s.len(),
{
    if i == 0 {
        assert(s.remove(0) =~= s.drop_first());
    } else if s[0].0@ != k {
        assert(s.remove(i).drop_first() =~= s.drop_first().remove(i - 1));
        lemma_member_remove(s.drop_first(), i - 1, k);
    }
}

/// Removes and returns the first member named `key`.
fn take_member(fields: &mut Vec<(String, Json)>, key: &str) -> (r: Option<Json>)
    ensures
        r == member(old(fields)@, key@),
        r is None ==> final(fields)@ == old(fields)@,
        r is Some ==> exists|i: int| 0 <= i < old(fields)@.len() && (#[trigger] old(fields)@[i]).0@ == key@
            && final(fields)@ == old(fields)@.remove(i),
{
    let mut i: usize = 0;
    assert(fields@.subrange(0, fields@.len() as int) == fields@);
    while i < fields.len()
        invariant
            i <= fields@.len(),
            fields@ == old(fields)@,
            member(fields@, key@) == member(fields@.subrange(i as int, fields@.len() as int), key@),
        decreases fields@.len() - i,
    {
        assert(fields@.subrange(i as int, fields@.len() as int).drop_first() == fields@.subrange(
            i + 1,
            fields@.len() as int,
        ));
        if str_eq(fields[i].0.as_str(), key) {
            let (_, v) = fields.remove(i);
            return Some(v);
        }
        i += 1;
    }
    None
}

fn is_str_value(j: Option<&Json>, s: &str) -> (r: bool)
    ensures
        r == (j matches Some(v) && is_str(*v, s@)),
{
    match j {
        Some(Json::Str(t)) => str_eq(t.as_str(), s),
        _ => false,
    }
}

/// Classifies one inbound value.
pub fn parse_envelope(payload: Json) -> (r: Envelope)
    ensures
        envelope_matches(payload, r),
{
    let raw_id = match get_member(&payload, "id") {
        Some(i) => value_to_request_id(i),
        None => None,
    };
    let has_id = get_member(&payload, "id").is_some();
    let shape_ok = match &payload {
        Json::Object(_) => {
            let jsonrpc_ok = is_str_value(get_member(&payload, "jsonrpc"), "2.0");
            let method_ok = match get_member(&payload, "method") {
                Some(Json::Str(_)) => true,
                _ => false,
            };
            let no_result = get_member(&payload, "result").is_none();
            let no_error = get_member(&payload, "error").is_none();
            let params_ok = match get_member(&payload, "params") {
                None => true,
                Some(Json::Null) => true,
                Some(Json::Object(_)) => true,
                _ => false,
            };
            jsonrpc_ok && method_ok && no_result && no_error && params_ok
        },
        _ => false,
    };
    if !shape_ok || (has_id && raw_id.is_none()) {
        return Envelope::Invalid { id: raw_id };
    }
    let ghost input = payload;
    let mut fields = match payload {
        Json::Object(f) => f,
        _ => {
            return Envelope::Invalid { id: raw_id };
        },
    };
    let method = match take_member(&mut fields, "method") {
        Some(Json::Str(m)) => m,
        _ => {
            return Envelope::Invalid { id: raw_id };
        },
    };
    let ghost after_method = fields@;
    let params = match take_member(&mut fields, "params") {
        Some(Json::Null) => None,
        Some(p) => Some(p),
        None => None,
    };
    proof {
        reveal_strlit("method");
        reveal_strlit("params");
        let i = choose|i: int| 0 <= i < input->Object_0@.len() && (#[trigger] input->Object_0@[i]).0@ == "method"@
            && after_method == input->Object_0@.remove(i);
        lemma_member_remove(input->Object_0@, i, "params"@);
    }
    match raw_id {
        Some(id) => Envelope::Request { id, method, params },
        None => Envelope::Notification { method, params },
    }
}

} // verus!
