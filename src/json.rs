//! JSON values as the protocol engine sees them, deep equality, member
//! lookup, audit redaction, and compact text encoding.

use vstd::prelude::*;
use crate::text::{char_vec, chars_contains_ci, chars_eq_ci, contains_ci, eq_ci, string_from_chars, trim_chars, trimmed};

verus! {

broadcast use vstd::std_specs::vec::axiom_vec_index_decreases;

/// A JSON value. Integers that fit `i64` or `u64` are kept as such; any
/// other number is kept as its literal text.
#[derive(Debug)]
pub enum Json {
    Null,
    Bool(bool),
    Int(i64),
    UInt(u64),
    Number(String),
    Str(String),
    Array(Vec<Json>),
    Object(Vec<(String, Json)>),
}

/// Deep equality of JSON values.
pub open spec fn same(a: Json, b: Json) -> bool
    decreases a,
{
    match a {
        Json::Null => b is Null,
        Json::Bool(x) => b matches Json::Bool(y) && x == y,
        Json::Int(x) => b matches Json::Int(y) && x == y,
        Json::UInt(x) => b matches Json::UInt(y) && x == y,
        Json::Number(x) => b matches Json::Number(y) && x@ == y@,
        Json::Str(x) => b matches Json::Str(y) && x@ == y@,
        Json::Array(xs) => b matches Json::Array(ys) && xs@.len() == ys@.len() && forall|i: int|
            0 <= i < xs@.len() ==> same(#[trigger] xs@[i], ys@[i]),
        Json::Object(xs) => b matches Json::Object(ys) && xs@.len() == ys@.len() && forall|i: int|
            0 <= i < xs@.len() ==> (#[trigger] xs@[i]).0@ == ys@[i].0@ && same(xs@[i].1, ys@[i].1),
    }
}

/// `j` is the string `s`.
pub open spec fn is_str(j: Json, s: Seq<char>) -> bool {
    j matches Json::Str(t) && t@ == s
}

/// The first member named `key`.
pub open spec fn member(fields: Seq<(String, Json)>, key: Seq<char>) -> Option<Json>
    decreases fields.len(),
{
    if fields.len() == 0 {
        None
    } else if fields[0].0@ == key {
        Some(fields[0].1)
    } else {
        member(fields.drop_first(), key)
    }
}

/// The member found at the first index whose name is `key`.
pub proof fn lemma_member_at(s: Seq<(String, Json)>, key: Seq<char>, i: int)
    requires
        0 <= i < s.len(),
        s[i].0@ == key,
        forall|j: int| 0 <= j < i ==> (#[trigger] s[j]).0@ != key,
    ensures
        member(s, key) == Some(s[i].1),
    decreases i,
{
    if i > 0 {
        assert forall|j: int| 0 <= j < i - 1 implies (#[trigger] s.drop_first()[j]).0@ != key by {
            assert(s.drop_first()[j] == s[j + 1]);
        }
        lemma_member_at(s.drop_first(), key, i - 1);
    }
}

/// No member is named `key`.
pub proof fn lemma_member_absent(s: Seq<(String, Json)>, key: Seq<char>)
    requires
        forall|j: int| 0 <= j < s.len() ==> (#[trigger] s[j]).0@ != key,
    ensures
        member(s, key) is None,
    decreases s.len(),
{
    if s.len() > 0 {
        assert forall|j: int| 0 <= j < s.len() - 1 implies (#[trigger] s.drop_first()[j]).0@ != key by {
            assert(s.drop_first()[j] == s[j + 1]);
        }
        lemma_member_absent(s.drop_first(), key);
    }
}

/// The member `key` of an object, or `None` for a non-object.
pub open spec fn get(j: Json, key: Seq<char>) -> Option<Json> {
    match j {
        Json::Object(fields) => member(fields@, key),
        _ => None,
    }
}

/// The first member of `fields` named `key`.
pub fn find_member<'a>(fields: &'a Vec<(String, Json)>, key: &str) -> (r: Option<&'a Json>)
    ensures
        match r {
            Some(j) => member(fields@, key@) == Some(*j),
            None => member(fields@, key@) is None,
        },
{
    let mut i: usize = 0;
    assert(fields@.subrange(0, fields@.len() as int) == fields@);
    while i < fields.len()
        invariant
            i <= fields@.len(),
            member(fields@, key@) == member(fields@.subrange(i as int, fields@.len() as int), key@),
        decreases fields@.len() - i,
    {
        assert(fields@.subrange(i as int, fields@.len() as int).drop_first() == fields@.subrange(
            i + 1,
            fields@.len() as int,
        ));
        if crate::text::str_eq(fields[i].0.as_str(), key) {
            return Some(&fields[i].1);
        }
        i += 1;
    }
    None
}

/// The member `key` of an object, or `None` for a non-object.
pub fn get_member<'a>(j: &'a Json, key: &str) -> (r: Option<&'a Json>)
    ensures
        match r {
            Some(v) => get(*j, key@) == Some(*v),
            None => get(*j, key@) is None,
        },
{
    match j {
        Json::Object(fields) => find_member(fields, key),
        _ => None,
    }
}

/// A string value.
pub fn string(s: &str) -> (r: Json)
    ensures
        is_str(r, s@),
{
    Json::Str(s.to_string())
}

/// A deep copy.
pub fn copy_json(a: &Json) -> (r: Json)
    ensures
        same(*a, r),
    decreases a,
{
    match a {
        Json::Null => Json::Null,
        Json::Bool(b) => Json::Bool(*b),
        Json::Int(n) => Json::Int(*n),
        Json::UInt(n) => Json::UInt(*n),
        Json::Number(t) => Json::Number(t.clone()),
        Json::Str(t) => Json::Str(t.clone()),
        Json::Array(xs) => {
            let mut out: Vec<Json> = Vec::new();
            let mut i: usize = 0;
            while i < xs.len()
                invariant
                    *a == Json::Array(*xs),
                    i <= xs@.len(),
                    out@.len() == i,
                    forall|k: int| 0 <= k < i ==> same(#[trigger] xs@[k], out@[k]),
                decreases xs@.len() - i,
            {
                proof {
                    let ghost v = (*a)->Array_0;
                    assert(decreases_to!(v => v[i as int]));
                    assert(decreases_to!(*a => v[i as int]));
                }
                let c = copy_json(&xs[i]);
                out.push(c);
                i += 1;
            }
            Json::Array(out)
        },
        Json::Object(xs) => {
            let mut out: Vec<(String, Json)> = Vec::new();
            let mut i: usize = 0;
            while i < xs.len()
                invariant
                    *a == Json::Object(*xs),
                    i <= xs@.len(),
                    out@.len() == i,
                    forall|k: int| 0 <= k < i ==> (#[trigger] xs@[k]).0@ == out@[k].0@ && same(xs@[k].1, out@[k].1),
                decreases xs@.len() - i,
            {
                proof {
                    let ghost v = (*a)->Object_0;
                    assert(decreases_to!(v => v[i as int]));
                    assert(decreases_to!(*a => v[i as int].1));
                }
                let c = copy_json(&xs[i].1);
                out.push((xs[i].0.clone(), c));
                i += 1;
            }
            Json::Object(out)
        },
    }
}

/// The text that replaces sensitive values in audit records.
pub const REDACTION_MARKER: &'static str = "[REDACTED]";

/// A member name whose value must not be logged: after trimming and up to
/// ASCII case, `api_key`, `apikey`, `authorization` or `bearer`, or one that
/// contains `token`, `secret`, `password` or `credential` (which covers
/// `access_token`, `credentials` and the like).
pub open spec fn sensitive_key(key: Seq<char>) -> bool {
    let k = trimmed(key);
    eq_ci(k, "api_key"@) || eq_ci(k, "apikey"@) || eq_ci(k, "authorization"@) || eq_ci(k, "bearer"@)
        || contains_ci(k, "token"@) || contains_ci(k, "secret"@) || contains_ci(k, "password"@)
        || contains_ci(k, "credential"@)
}

/// `b` is `a` with the value of every sensitive member, at any depth,
/// replaced by the redaction marker.
pub open spec fn redacted(a: Json, b: Json) -> bool
    decreases a,
{
    match a {
        Json::Array(xs) => b matches Json::Array(ys) && xs@.len() == ys@.len() && forall|i: int|
            0 <= i < xs@.len() ==> redacted(#[trigger] xs@[i], ys@[i]),
        Json::Object(xs) => b matches Json::Object(ys) && xs@.len() == ys@.len() && forall|i: int|
            0 <= i < xs@.len() ==> (#[trigger] xs@[i]).0@ == ys@[i].0@ && (if sensitive_key(xs@[i].0@) {
                is_str(ys@[i].1, REDACTION_MARKER@)
            } else {
                redacted(xs@[i].1, ys@[i].1)
            }),
        _ => same(a, b),
    }
}

fn eq_lit(v: &Vec<char>, lit: &str) -> (r: bool)
    ensures
        r == eq_ci(v@, lit@),
{
    let l = char_vec(lit);
    chars_eq_ci(v, &l)
}

fn contains_lit(v: &Vec<char>, lit: &str) -> (r: bool)
    ensures
        r == contains_ci(v@, lit@),
{
    let l = char_vec(lit);
    chars_contains_ci(v, &l)
}

/// Whether a member name is sensitive.
pub fn is_sensitive_key(key: &str) -> (r: bool)
    ensures
        r == sensitive_key(key@),
{
    let raw = char_vec(key);
    let k = trim_chars(&raw);
    eq_lit(&k, "api_key") || eq_lit(&k, "apikey") || eq_lit(&k, "authorization") || eq_lit(&k, "bearer")
        || contains_lit(&k, "token") || contains_lit(&k, "secret") || contains_lit(&k, "password")
        || contains_lit(&k, "credential")
}

/// A copy of `value` with every sensitive member's value replaced by the
/// redaction marker, at any depth.
pub fn redact_audit_value(value: &Json) -> (r: Json)
    ensures
        redacted(*value, r),
    decreases value,
{
    match value {
        Json::Array(xs) => {
            let mut out: Vec<Json> = Vec::new();
            let mut i: usize = 0;
            while i < xs.len()
                invariant
                    *value == Json::Array(*xs),
                    i <= xs@.len(),
                    out@.len() == i,
                    forall|k: int| 0 <= k < i ==> redacted(#[trigger] xs@[k], out@[k]),
                decreases xs@.len() - i,
            {
                proof {
                    let ghost v = (*value)->Array_0;
                    assert(decreases_to!(v => v[i as int]));
                    assert(decreases_to!(*value => v[i as int]));
                }
                let c = redact_audit_value(&xs[i]);
                out.push(c);
                i += 1;
            }
            Json::Array(out)
        },
        Json::Object(xs) => {
            let mut out: Vec<(String, Json)> = Vec::new();
            let mut i: usize = 0;
            while i < xs.len()
                invariant
                    *value == Json::Object(*xs),
                    i <= xs@.len(),
                    out@.len() == i,
                    forall|k: int| 0 <= k < i ==> (#[trigger] xs@[k]).0@ == out@[k].0@ && (if sensitive_key(xs@[k].0@) {
                        is_str(out@[k].1, REDACTION_MARKER@)
                    } else {
                        redacted(xs@[k].1, out@[k].1)
                    }),
                decreases xs@.len() - i,
            {
                proof {
                    let ghost v = (*value)->Object_0;
                    assert(decreases_to!(v => v[i as int]));
                    assert(decreases_to!(*value => v[i as int].1));
                }
                let item = if is_sensitive_key(xs[i].0.as_str()) {
                    string(REDACTION_MARKER)
                } else {
                    redact_audit_value(&xs[i].1)
                };
                out.push((xs[i].0.clone(), item));
                i += 1;
            }
            Json::Object(out)
        },
        _ => copy_json(value),
    }
}

/// The audit copy of optional parameters: `null` when absent.
pub fn redact_audit_params(params: Option<&Json>) -> (r: Json)
    ensures
        match params {
            Some(p) => redacted(*p, r),
            None => r is Null,
        },
{
    match params {
        Some(p) => redact_audit_value(p),
        None => Json::Null,
    }
}

/// Redaction is idempotent: redacting an already redacted value changes
/// nothing (every redaction of it is deeply equal to it).
pub proof fn redaction_is_idempotent(a: Json, b: Json, c: Json)
    requires
        redacted(a, b),
        redacted(b, c),
    ensures
        same(b, c),
    decreases a,
{
    match a {
        Json::Array(xs) => {
            let ys = b->Array_0;
            let zs = c->Array_0;
            assert forall|i: int| 0 <= i < ys@.len() implies same(#[trigger] ys@[i], zs@[i]) by {
                assert(decreases_to!(xs => xs[i]));
                redaction_is_idempotent(xs@[i], ys@[i], zs@[i]);
            }
        },
        Json::Object(xs) => {
            let ys = b->Object_0;
            let zs = c->Object_0;
            assert forall|i: int| 0 <= i < ys@.len() implies (#[trigger] ys@[i]).0@ == zs@[i].0@ && same(ys@[i].1, zs@[i].1) by {
                assert(xs@[i].0@ == ys@[i].0@);
                if sensitive_key(xs@[i].0@) {
                    assert(is_str(ys@[i].1, REDACTION_MARKER@));
                    assert(is_str(zs@[i].1, REDACTION_MARKER@));
                } else {
                    assert(decreases_to!(xs => xs[i]));
                    redaction_is_idempotent(xs@[i].1, ys@[i].1, zs@[i].1);
                }
            }
        },
        _ => {
            lemma_same_scalar(a, b, c);
        },
    }
}

proof fn lemma_same_scalar(a: Json, b: Json, c: Json)
    requires
        !(a is Array),
        !(a is Object),
        same(a, b),
        redacted(b, c),
    ensures
        same(b, c),
{
}

/// The redaction of a member whose name contains `token` in any case is the
/// marker, whatever its value.
pub proof fn token_members_are_redacted(key: Seq<char>)
    requires
        contains_ci(trimmed(key), "token"@),
    ensures
        sensitive_key(key),
{
}

/// The escape of one character inside a JSON string literal.
pub open spec fn escape_char(c: char) -> Seq<char> {
    if c == '"' {
        seq!['\\', '"']
    } else if c == '\\' {
        seq!['\\', '\\']
    } else if c == '\n' {
        seq!['\\', 'n']
    } else if c == '\r' {
        seq!['\\', 'r']
    } else if c == '\t' {
        seq!['\\', 't']
    } else if c == '\u{8}' {
        seq!['\\', 'b']
    } else if c == '\u{c}' {
        seq!['\\', 'f']
    } else if (c as u32) < 0x20 {
        seq!['\\', 'u', '0', '0', hex_digit((c as u32) / 16), hex_digit((c as u32) % 16)]
    } else {
        seq![c]
    }
}

pub open spec fn hex_digit(d: u32) -> char {
    if d < 10 {
        crate::decimal::digit_char(d as int)
    } else {
        ((d - 10) as int + ('a' as int)) as char
    }
}

/// The escaped body of a JSON string literal.
pub open spec fn escaped(s: Seq<char>) -> Seq<char>
    decreases s.len(),
{
    if s.len() == 0 {
        Seq::empty()
    } else {
        escaped(s.drop_last()) + escape_char(s.last())
    }
}

pub open spec fn quoted(s: Seq<char>) -> Seq<char> {
    seq!['"'] + escaped(s) + seq!['"']
}

/// The parts joined with commas.
pub open spec fn joined(parts: Seq<Seq<char>>) -> Seq<char>
    decreases parts.len(),
{
    if parts.len() == 0 {
        Seq::empty()
    } else if parts.len() == 1 {
        parts[0]
    } else {
        joined(parts.drop_last()) + seq![','] + parts.last()
    }
}

/// `t` is the compact JSON text of `j`: no insignificant whitespace,
/// members in order.
pub open spec fn encodes(j: Json, t: Seq<char>) -> bool
    decreases j,
{
    match j {
        Json::Null => t == "null"@,
        Json::Bool(b) => t == (if b { "true"@ } else { "false"@ }),
        Json::Int(n) => t == crate::decimal::int_text(n as int),
        Json::UInt(n) => t == crate::decimal::int_text(n as int),
        Json::Number(x) => t == x@,
        Json::Str(x) => t == quoted(x@),
        Json::Array(xs) => exists|parts: Seq<Seq<char>>|
            parts.len() == xs@.len() && (forall|i: int| 0 <= i < xs@.len() ==> encodes(#[trigger] xs@[i], parts[i]))
                && t == seq!['['] + joined(parts) + seq![']'],
        Json::Object(xs) => exists|parts: Seq<Seq<char>>|
            parts.len() == xs@.len() && (forall|i: int| 0 <= i < xs@.len() ==> encodes((#[trigger] xs@[i]).1, parts[i]))
                && t == seq!['{'] + joined(member_texts(xs@, parts)) + seq!['}'],
    }
}

/// `"key":value` for each member, given the values' texts.
pub open spec fn member_texts(xs: Seq<(String, Json)>, parts: Seq<Seq<char>>) -> Seq<Seq<char>> {
    Seq::new(xs.len(), |i: int| quoted(xs[i].0@) + seq![':'] + parts[i])
}

fn hex_char(d: u32) -> (r: char)
    requires
        d < 16,
    ensures
        r == hex_digit(d),
{
    if d < 10 {
        crate::decimal::to_digit_char(d as u8)
    } else if d == 10 { 'a' } else if d == 11 { 'b' } else if d == 12 { 'c' }
    else if d == 13 { 'd' } else if d == 14 { 'e' } else { 'f' }
}

/// Appends the escape of `c`.
fn push_escaped(out: &mut Vec<char>, c: char)
    ensures
        final(out)@ == old(out)@ + escape_char(c),
{
    let ghost start = out@;
    if c == '"' {
        out.push('\\');
        out.push('"');
    } else if c == '\\' {
        out.push('\\');
        out.push('\\');
    } else if c == '\n' {
        out.push('\\');
        out.push('n');
    } else if c == '\r' {
        out.push('\\');
        out.push('r');
    } else if c == '\t' {
        out.push('\\');
        out.push('t');
    } else if c == '\u{8}' {
        out.push('\\');
        out.push('b');
    } else if c == '\u{c}' {
        out.push('\\');
        out.push('f');
    } else if (c as u32) < 0x20 {
        out.push('\\');
        out.push('u');
        out.push('0');
        out.push('0');
        out.push(hex_char((c as u32) / 16));
        out.push(hex_char((c as u32) % 16));
    } else {
        out.push(c);
    }
    assert(out@ =~= start + escape_char(c));
}

/// Appends the quoted, escaped literal of `s`.
fn push_quoted(out: &mut Vec<char>, s: &str)
    ensures
        final(out)@ == old(out)@ + quoted(s@),
{
    let ghost start = out@;
    let v = char_vec(s);
    out.push('"');
    let mut i: usize = 0;
    while i < v.len()
        invariant
            i <= v@.len(),
            out@ == start + seq!['"'] + escaped(v@.subrange(0, i as int)),
        decreases v@.len() - i,
    {
        push_escaped(out, v[i]);
        assert(v@.subrange(0, i + 1).drop_last() == v@.subrange(0, i as int));
        i += 1;
    }
    assert(v@.subrange(0, v@.len() as int) == v@);
    out.push('"');
    assert(out@ =~= start + quoted(s@));
}

fn append_chars(out: &mut Vec<char>, t: &Vec<char>)
    ensures
        final(out)@ == old(out)@ + t@,
{
    let ghost start = out@;
    let mut i: usize = 0;
    while i < t.len()
        invariant
            i <= t@.len(),
            out@ == start + t@.subrange(0, i as int),
        decreases t@.len() - i,
    {
        out.push(t[i]);
        assert(t@.subrange(0, i + 1) == t@.subrange(0, i as int).push(t@[i as int]));
        i += 1;
    }
    assert(t@.subrange(0, t@.len() as int) == t@);
}

/// Joins the parts with commas between `open` and `close`.
fn join_parts(parts: &Vec<Vec<char>>, open: char, close: char) -> (r: Vec<char>)
    ensures
        r@ == seq![open] + joined(parts@.map_values(|p: Vec<char>| p@)) + seq![close],
{
    let ghost views = parts@.map_values(|p: Vec<char>| p@);
    let mut out: Vec<char> = Vec::new();
    out.push(open);
    let mut i: usize = 0;
    while i < parts.len()
        invariant
            i <= parts@.len(),
            views == parts@.map_values(|p: Vec<char>| p@),
            out@ == seq![open] + joined(views.subrange(0, i as int)),
        decreases parts@.len() - i,
    {
        let ghost before = out@;
        if i > 0 {
            out.push(',');
        }
        append_chars(&mut out, &parts[i]);
        proof {
            let sub = views.subrange(0, i + 1);
            assert(sub.drop_last() == views.subrange(0, i as int));
            assert(sub.last() == parts@[i as int]@);
            if i == 0 {
                assert(sub.len() == 1);
                assert(joined(sub) == sub[0]);
                assert(out@ =~= seq![open] + joined(sub));
            } else {
                assert(out@ =~= seq![open] + joined(sub));
            }
        }
        i += 1;
    }
    assert(views.subrange(0, parts@.len() as int) == views);
    out.push(close);
    out
}

/// The compact JSON text of a value.
pub fn encode_chars(j: &Json) -> (r: Vec<char>)
    ensures
        encodes(*j, r@),
    decreases j,
{
    match j {
        Json::Null => char_vec("null"),
        Json::Bool(b) => if *b { char_vec("true") } else { char_vec("false") },
        Json::Int(n) => crate::decimal::i128_chars(*n as i128),
        Json::UInt(n) => crate::decimal::i128_chars(*n as i128),
        Json::Number(x) => char_vec(x.as_str()),
        Json::Str(x) => {
            let mut out: Vec<char> = Vec::new();
            push_quoted(&mut out, x.as_str());
            assert(out@ =~= quoted(x@));
            out
        },
        Json::Array(xs) => {
            let mut parts: Vec<Vec<char>> = Vec::new();
            let mut i: usize = 0;
            while i < xs.len()
                invariant
                    *j == Json::Array(*xs),
                    i <= xs@.len(),
                    parts@.len() == i,
                    forall|k: int| 0 <= k < i ==> encodes(#[trigger] xs@[k], parts@[k]@),
                decreases xs@.len() - i,
            {
                proof {
                    let ghost v = (*j)->Array_0;
                    assert(decreases_to!(v => v[i as int]));
                    assert(decreases_to!(*j => v[i as int]));
                }
                let c = encode_chars(&xs[i]);
                parts.push(c);
                i += 1;
            }
            let r = join_parts(&parts, '[', ']');
            let ghost views = parts@.map_values(|p: Vec<char>| p@);
            assert(forall|k: int| 0 <= k < xs@.len() ==> encodes(#[trigger] xs@[k], views[k]));
            r
        },
        Json::Object(xs) => {
            let mut parts: Vec<Vec<char>> = Vec::new();
            let ghost mut values: Seq<Seq<char>> = Seq::empty();
            let mut i: usize = 0;
            while i < xs.len()
                invariant
                    *j == Json::Object(*xs),
                    i <= xs@.len(),
                    parts@.len() == i,
                    values.len() == i,
                    forall|k: int| 0 <= k < i ==> encodes((#[trigger] xs@[k]).1, values[k]),
                    forall|k: int| 0 <= k < i ==> (#[trigger] parts@[k])@ == quoted(xs@[k].0@) + seq![':'] + values[k],
                decreases xs@.len() - i,
            {
                proof {
                    let ghost v = (*j)->Object_0;
                    assert(decreases_to!(v => v[i as int]));
                    assert(decreases_to!(*j => v[i as int].1));
                }
                let c = encode_chars(&xs[i].1);
                let mut member: Vec<char> = Vec::new();
                push_quoted(&mut member, xs[i].0.as_str());
                member.push(':');
                append_chars(&mut member, &c);
                assert(member@ =~= quoted(xs@[i as int].0@) + seq![':'] + c@);
                parts.push(member);
                proof {
                    values = values.push(c@);
                }
                i += 1;
            }
            let r = join_parts(&parts, '{', '}');
            let ghost views = parts@.map_values(|p: Vec<char>| p@);
            assert(views =~= member_texts(xs@, values));
            r
        },
    }
}

/// The compact JSON text of a value.
pub fn encode_json(j: &Json) -> (r: String)
    ensures
        encodes(*j, r@),
{
    let v = encode_chars(j);
    string_from_chars(&v)
}

} // verus!
