//! The journal query engine: grep matching, message sanitising, and the scan
//! that walks records from a seek position and keeps those a query selects.
//! Reading the journal itself is left to the caller, which reports each
//! visited record to a `JournalScan`.

use vstd::prelude::*;
use crate::decimal::{parse_i32, parse_i32_spec, parse_u8, parse_u8_spec, u8_text, u8_to_text};
use crate::errors::{AppError, is_bad_request};
use crate::text::{char_vec, chars_contains, contains, eq_ci, str_eq_ci, string_from_chars, trim_chars, trimmed};
use crate::utc::{UtcInstant, instant_from_micros, instant_of_micros, format_rfc3339_millis, rfc3339_millis};
use crate::validate::{LogOrder, LogQuery, opt_view};

verus! {

#[verifier::external_type_specification]
#[verifier::external_body]
pub struct ExRegex(regex::Regex);

/// Whether `regex::Regex::new` accepts a pattern.
pub uninterp spec fn regex_compiles(pattern: Seq<char>) -> bool;

/// Whether the regex compiled from `pattern` matches somewhere in `text`.
pub uninterp spec fn regex_finds(pattern: Seq<char>, text: Seq<char>) -> bool;

/// Relies on `regex::Regex::new`: `Some` exactly when the pattern compiles.
#[verifier::external_body]
fn compile_regex(pattern: &str) -> (r: Option<regex::Regex>)
    ensures
        r is Some == regex_compiles(pattern@),
{
    regex::Regex::new(pattern).ok()
}

/// A compiled regex together with the pattern it was compiled from. The
/// fields are private: the only constructor is `build_grep_matcher`, which
/// compiles `regex` from `source`.
pub struct CompiledPattern {
    source: String,
    regex: regex::Regex,
}

impl CompiledPattern {
    /// The pattern text the regex was compiled from.
    pub closed spec fn pattern(&self) -> Seq<char> {
        self.source@
    }
}

/// Relies on `regex::Regex::is_match` for a regex compiled from `p.source`.
#[verifier::external_body]
fn regex_is_match(p: &CompiledPattern, text: &str) -> (r: bool)
    ensures
        r == regex_finds(p.source@, text@),
{
    p.regex.is_match(text)
}

pub enum GrepMatcher {
    Substring(String),
    Pattern(CompiledPattern),
}

/// What a grep argument asks for.
pub enum GrepRule {
    Substring(Seq<char>),
    Pattern(Seq<char>),
}

/// The rule of a grep argument: none when blank; a pattern when wrapped in
/// slashes; a substring otherwise.
pub open spec fn grep_rule(g: Seq<char>) -> Option<GrepRule> {
    let t = trimmed(g);
    if t.len() == 0 {
        None
    } else if t.len() >= 2 && t[0] == '/' && t.last() == '/' {
        Some(GrepRule::Pattern(t.subrange(1, t.len() - 1)))
    } else {
        Some(GrepRule::Substring(t))
    }
}

pub open spec fn rule_of(m: Option<GrepMatcher>) -> Option<GrepRule> {
    match m {
        None => None,
        Some(GrepMatcher::Substring(s)) => Some(GrepRule::Substring(s@)),
        Some(GrepMatcher::Pattern(p)) => Some(GrepRule::Pattern(p.pattern())),
    }
}

/// Whether a message passes a grep rule.
pub open spec fn rule_accepts(rule: Option<GrepRule>, message: Seq<char>) -> bool {
    match rule {
        None => true,
        Some(GrepRule::Substring(s)) => contains(message, s),
        Some(GrepRule::Pattern(p)) => regex_finds(p, message),
    }
}

/// Builds the matcher for a grep argument; a pattern that does not compile
/// is rejected.
pub fn build_grep_matcher(grep: Option<&str>) -> (r: Result<Option<GrepMatcher>, AppError>)
    ensures
        match grep {
            None => r matches Ok(None),
            Some(g) => match grep_rule(g@) {
                Some(GrepRule::Pattern(p)) => if regex_compiles(p) {
                    r matches Ok(m) && rule_of(m) == grep_rule(g@)
                } else {
                    r matches Err(e) && is_bad_request(e, "invalid_grep"@)
                },
                _ => r matches Ok(m) && rule_of(m) == grep_rule(g@),
            },
        },
{
    let g = match grep {
        None => return Ok(None),
        Some(g) => g,
    };
    let raw = char_vec(g);
    let t = trim_chars(&raw);
    let n = t.len();
    if n == 0 {
        return Ok(None);
    }
    if n >= 2 && t[0] == '/' && t[n - 1] == '/' {
        let mut inner: Vec<char> = Vec::new();
        let mut i: usize = 1;
        while i < n - 1
            invariant
                1 <= i <= n - 1,
                n == t@.len(),
                inner@ == t@.subrange(1, i as int),
            decreases n - 1 - i,
        {
            inner.push(t[i]);
            assert(inner@ == t@.subrange(1, i + 1));
            i += 1;
        }
        let source = string_from_chars(&inner);
        return match compile_regex(source.as_str()) {
            Some(regex) => Ok(Some(GrepMatcher::Pattern(CompiledPattern { source, regex }))),
            None => Err(AppError::bad_request("invalid_grep", "grep regex pattern is invalid")),
        };
    }
    Ok(Some(GrepMatcher::Substring(string_from_chars(&t))))
}

/// Whether a message passes the matcher.
pub fn matches_grep(matcher: &Option<GrepMatcher>, message: &str) -> (r: bool)
    ensures
        r == rule_accepts(rule_of(*matcher), message@),
{
    match matcher {
        None => true,
        Some(GrepMatcher::Substring(s)) => {
            let m = char_vec(message);
            let v = char_vec(s.as_str());
            chars_contains(&m, &v)
        },
        Some(GrepMatcher::Pattern(p)) => regex_is_match(p, message),
    }
}

/// `char::is_control`: the general category Cc.
pub open spec fn is_control(c: char) -> bool {
    (c as u32) <= 0x1f || (0x7f <= (c as u32) && (c as u32) <= 0x9f)
}

/// A control character other than newline, carriage return and tab becomes
/// a space.
pub open spec fn scrub(c: char) -> char {
    if is_control(c) && c != '\n' && c != '\r' && c != '\t' {
        ' '
    } else {
        c
    }
}

/// The sanitised form of a message: trimmed, control characters replaced,
/// trimmed again; `None` when nothing is left.
pub open spec fn sanitized(m: Seq<char>) -> Option<Seq<char>> {
    let t = trimmed(m);
    if t.len() == 0 {
        None
    } else {
        let u = trimmed(t.map_values(|c: char| scrub(c)));
        if u.len() == 0 {
            None
        } else {
            Some(u)
        }
    }
}

pub fn sanitize_log_message(message: Option<String>) -> (r: Option<String>)
    ensures
        opt_view(r) == match message {
            None => None,
            Some(m) => sanitized(m@),
        },
{
    let value = match message {
        None => return None,
        Some(v) => v,
    };
    let raw = char_vec(value.as_str());
    let t = trim_chars(&raw);
    if t.len() == 0 {
        return None;
    }
    let mut scrubbed: Vec<char> = Vec::new();
    let mut i: usize = 0;
    while i < t.len()
        invariant
            i <= t@.len(),
            scrubbed@ == t@.subrange(0, i as int).map_values(|c: char| scrub(c)),
        decreases t@.len() - i,
    {
        let c = t[i];
        let n = c as u32;
        let control = n <= 0x1f || (0x7f <= n && n <= 0x9f);
        if control && c != '\n' && c != '\r' && c != '\t' {
            scrubbed.push(' ');
        } else {
            scrubbed.push(c);
        }
        assert(scrubbed@ =~= t@.subrange(0, i + 1).map_values(|c: char| scrub(c)));
        i += 1;
    }
    assert(t@.subrange(0, t@.len() as int) == t@);
    let u = trim_chars(&scrubbed);
    if u.len() == 0 {
        return None;
    }
    Some(string_from_chars(&u))
}

/// One log record as returned to clients.
#[derive(Debug, Clone, PartialEq, Eq)]
pub struct JournalLogEntry {
    pub timestamp_utc: String,
    pub unit: Option<String>,
    pub priority: Option<String>,
    pub hostname: Option<String>,
    pub pid: Option<i32>,
    pub message: Option<String>,
    pub cursor: Option<String>,
}

#[derive(Debug, Clone, PartialEq, Eq)]
pub struct LogQueryResult {
    pub entries: Vec<JournalLogEntry>,
    pub total_scanned: Option<usize>,
}

/// The raw fields of one journal record, as read from the journal.
#[derive(Debug, Clone, PartialEq, Eq)]
pub struct JournalRecord {
    pub unit: Option<String>,
    pub priority: Option<String>,
    pub hostname: Option<String>,
    pub pid: Option<String>,
    pub message: Option<String>,
    pub cursor: Option<String>,
}

/// Where the reader is positioned before the walk.
#[derive(Debug, Clone, Copy, PartialEq, Eq, Structural)]
pub enum SeekTarget {
    Realtime(u64),
    Head,
    Tail,
}

/// What to do with a visited record, judged by its timestamp.
#[derive(Debug, Clone, Copy, PartialEq, Eq, Structural)]
pub enum Verdict {
    /// No record further in the walk can be kept: end the walk.
    Stop,
    /// Go on to the next record.
    Skip,
    /// Read the record's fields and hand them to `offer`.
    Read,
}

/// A microsecond timestamp (`timestamp_micros`) of an instant.
pub open spec fn micros_of(t: UtcInstant) -> int {
    t.secs * 1_000_000 + t.nanos / 1000
}

/// The seek position for a walk: the window's end for a descending walk,
/// its start for an ascending one, or the tail or head when that timestamp
/// cannot be given to the journal.
pub open spec fn seek_for(order: LogOrder, start: UtcInstant, end: UtcInstant) -> SeekTarget {
    match order {
        LogOrder::Desc => if 0 <= micros_of(end) <= u64::MAX {
            SeekTarget::Realtime(micros_of(end) as u64)
        } else {
            SeekTarget::Tail
        },
        LogOrder::Asc => if 0 <= micros_of(start) <= u64::MAX {
            SeekTarget::Realtime(micros_of(start) as u64)
        } else {
            SeekTarget::Head
        },
    }
}

/// The verdict on a record at `ts` microseconds for a walk in `order` over
/// the window `[start_us, end_us]`: records before the window end a
/// descending walk, records after it end an ascending one.
pub open spec fn verdict_for(order: LogOrder, start_us: int, end_us: int, ts: u64) -> Verdict {
    if ts > i64::MAX {
        Verdict::Skip
    } else if ts < start_us {
        if order == LogOrder::Desc { Verdict::Stop } else { Verdict::Skip }
    } else if ts > end_us {
        if order == LogOrder::Asc { Verdict::Stop } else { Verdict::Skip }
    } else {
        Verdict::Read
    }
}

/// Whether a unit is one of the excluded ones, up to ASCII case.
pub open spec fn is_excluded(excluded: Seq<String>, unit: Option<String>) -> bool {
    match unit {
        None => false,
        Some(u) => exists|i: int| 0 <= i < excluded.len() && eq_ci(#[trigger] excluded[i]@, u@),
    }
}

pub open spec fn field_u8(f: Option<String>) -> Option<u8> {
    match f {
        None => None,
        Some(s) => parse_u8_spec(s@),
    }
}

/// Whether a record passes the query's filters: not excluded, a timestamp
/// chrono can render, priority within the threshold, and a message that
/// passes grep (a record without a message passes only without grep).
pub open spec fn record_kept(q: LogQuery, rule: Option<GrepRule>, ts: u64, rec: JournalRecord) -> bool {
    let inst = instant_of_micros(ts);
    &&& !is_excluded(q.exclude_units@, rec.unit)
    &&& rfc3339_millis(inst.secs, inst.nanos) is Some
    &&& match field_u8(q.priority) {
        None => true,
        Some(max) => field_u8(rec.priority) matches Some(p) && p <= max,
    }
    &&& match opt_view(rec.message) {
        None => q.grep is None,
        Some(m) => match sanitized(m) {
            Some(s) => rule_accepts(rule, s),
            None => q.grep is None,
        },
    }
}

/// The entry a kept record becomes.
pub open spec fn entry_for(ts: u64, rec: JournalRecord, e: JournalLogEntry) -> bool {
    let inst = instant_of_micros(ts);
    &&& rfc3339_millis(inst.secs, inst.nanos) == Some(e.timestamp_utc@)
    &&& opt_view(e.unit) == opt_view(rec.unit)
    &&& opt_view(e.priority) == match field_u8(rec.priority) {
        Some(p) => Some(u8_text(p)),
        None => None,
    }
    &&& opt_view(e.hostname) == opt_view(rec.hostname)
    &&& e.pid == match rec.pid {
        Some(p) => parse_i32_spec(p@),
        None => None,
    }
    &&& opt_view(e.message) == match opt_view(rec.message) {
        Some(m) => sanitized(m),
        None => None,
    }
    &&& opt_view(e.cursor) == opt_view(rec.cursor)
}

/// The state of one journal walk.
pub struct JournalScan {
    query: LogQuery,
    matcher: Option<GrepMatcher>,
    start_us: i128,
    end_us: i128,
    entries: Vec<JournalLogEntry>,
    total_scanned: usize,
    pending: Option<u64>,
    stopped: bool,
}

impl JournalScan {
    pub closed spec fn spec_query(&self) -> LogQuery {
        self.query
    }

    pub closed spec fn spec_entries(&self) -> Seq<JournalLogEntry> {
        self.entries@
    }

    pub closed spec fn spec_scanned(&self) -> nat {
        self.total_scanned as nat
    }

    pub closed spec fn spec_stopped(&self) -> bool {
        self.stopped
    }

    pub closed spec fn spec_rule(&self) -> Option<GrepRule> {
        rule_of(self.matcher)
    }

    /// The record awaiting `offer`, by timestamp.
    pub closed spec fn spec_pending(&self) -> Option<u64> {
        self.pending
    }

    pub closed spec fn spec_window(&self) -> (int, int) {
        (self.start_us as int, self.end_us as int)
    }

    pub closed spec fn wf(&self) -> bool {
        &&& self.entries@.len() <= self.query.limit
        &&& self.entries@.len() + (if self.pending is Some { 1int } else { 0 }) <= self.total_scanned
        &&& self.pending is Some ==> self.entries@.len() < self.query.limit
        &&& self.pending matches Some(ts) ==> ts <= i64::MAX
    }

    /// Starts a walk for a validated query, or rejects it: an invalid grep
    /// pattern, or a query without both ends of its window.
    pub fn new(query: LogQuery) -> (r: Result<(JournalScan, SeekTarget), AppError>)
        ensures
            match query.grep {
                Some(g) => match grep_rule(g@) {
                    Some(GrepRule::Pattern(p)) => !regex_compiles(p) ==> (r matches Err(e)
                        && is_bad_request(e, "invalid_grep"@)),
                    _ => true,
                },
                None => true,
            },
            r is Err <==> ((query.grep matches Some(g) && grep_rule(g@) matches Some(GrepRule::Pattern(p))
                && !regex_compiles(p)) || query.start_utc is None || query.end_utc is None),
            r matches Ok((scan, seek)) ==> {
                &&& scan.wf()
                &&& scan.spec_query() == query
                &&& scan.spec_entries().len() == 0
                &&& scan.spec_scanned() == 0
                &&& !scan.spec_stopped()
                &&& scan.spec_pending() is None
                &&& scan.spec_window() == (micros_of(query.start_utc->0), micros_of(query.end_utc->0))
                &&& seek == seek_for(query.order, query.start_utc->0, query.end_utc->0)
                &&& scan.spec_rule() == match query.grep {
                    Some(g) => grep_rule(g@),
                    None => None,
                }
            },
    {
        let matcher = match &query.grep {
            Some(g) => match build_grep_matcher(Some(g.as_str())) {
                Ok(m) => m,
                Err(e) => return Err(e),
            },
            None => None,
        };
        let (start, end) = match (query.start_utc, query.end_utc) {
            (Some(s), Some(e)) => (s, e),
            _ => {
                return Err(
                    AppError::bad_request("missing_time_range", "start_utc and end_utc are required"),
                );
            },
        };
        let start_us: i128 = start.secs as i128 * 1_000_000 + (start.nanos / 1000) as i128;
        let end_us: i128 = end.secs as i128 * 1_000_000 + (end.nanos / 1000) as i128;
        let seek = match query.order {
            LogOrder::Desc => if 0 <= end_us && end_us <= u64::MAX as i128 {
                SeekTarget::Realtime(end_us as u64)
            } else {
                SeekTarget::Tail
            },
            LogOrder::Asc => if 0 <= start_us && start_us <= u64::MAX as i128 {
                SeekTarget::Realtime(start_us as u64)
            } else {
                SeekTarget::Head
            },
        };
        let scan = JournalScan {
            query,
            matcher,
            start_us,
            end_us,
            entries: Vec::new(),
            total_scanned: 0,
            pending: None,
            stopped: false,
        };
        Ok((scan, seek))
    }

    /// Whether the walk should go on to another record.
    pub fn wants_more(&self) -> (r: bool)
        ensures
            r == (!self.spec_stopped() && self.spec_entries().len() < self.spec_query().limit),
    {
        !self.stopped && self.entries.len() < self.query.limit
    }

    /// Counts a visited record and judges its timestamp. Once the walk has
    /// stopped, or is full, every record is `Stop` and is not counted; a
    /// record handed over for reading and never offered is dropped.
    pub fn check_timestamp(&mut self, timestamp_usec: u64) -> (r: Verdict)
        requires
            old(self).wf(),
        ensures
            final(self).wf(),
            final(self).spec_query() == old(self).spec_query(),
            final(self).spec_entries() == old(self).spec_entries(),
            final(self).spec_rule() == old(self).spec_rule(),
            final(self).spec_window() == old(self).spec_window(),
            if old(self).spec_stopped() || old(self).spec_entries().len() >= old(self).spec_query().limit
                || old(self).spec_scanned() == usize::MAX {
                &&& r == Verdict::Stop
                &&& final(self).spec_scanned() == old(self).spec_scanned()
                &&& final(self).spec_stopped()
                &&& final(self).spec_pending() is None
            } else {
                &&& final(self).spec_scanned() == old(self).spec_scanned() + 1
                &&& r == verdict_for(
                    old(self).spec_query().order,
                    old(self).spec_window().0,
                    old(self).spec_window().1,
                    timestamp_usec,
                )
                &&& final(self).spec_stopped() == (r == Verdict::Stop)
                &&& final(self).spec_pending() == if r == Verdict::Read {
                    Some(timestamp_usec)
                } else {
                    None
                }
            },
    {
        self.pending = None;
        if self.stopped || self.entries.len() >= self.query.limit || self.total_scanned == usize::MAX {
            self.stopped = true;
            return Verdict::Stop;
        }
        self.total_scanned = self.total_scanned + 1;
        let ts = timestamp_usec as i128;
        let verdict = if timestamp_usec > i64::MAX as u64 {
            Verdict::Skip
        } else if ts < self.start_us {
            match self.query.order {
                LogOrder::Desc => Verdict::Stop,
                LogOrder::Asc => Verdict::Skip,
            }
        } else if ts > self.end_us {
            match self.query.order {
                LogOrder::Asc => Verdict::Stop,
                LogOrder::Desc => Verdict::Skip,
            }
        } else {
            Verdict::Read
        };
        match verdict {
            Verdict::Stop => {
                self.stopped = true;
            },
            Verdict::Read => {
                self.pending = Some(timestamp_usec);
            },
            Verdict::Skip => {},
        }
        verdict
    }

    /// Whether `unit` is one of the query's excluded units.
    fn excludes(&self, unit: &Option<String>) -> (r: bool)
        ensures
            r == is_excluded(self.query.exclude_units@, *unit),
    {
        let u = match unit {
            None => return false,
            Some(u) => u,
        };
        let mut i: usize = 0;
        while i < self.query.exclude_units.len()
            invariant
                i <= self.query.exclude_units@.len(),
                *unit == Some(*u),
                forall|k: int| 0 <= k < i ==> !eq_ci(#[trigger] self.query.exclude_units@[k]@, u@),
            decreases self.query.exclude_units@.len() - i,
        {
            if str_eq_ci(self.query.exclude_units[i].as_str(), u.as_str()) {
                return true;
            }
            i += 1;
        }
        false
    }

    /// Hands over the fields of the record whose timestamp was judged
    /// `Read`; the record becomes an entry when the query keeps it. Without
    /// such a record waiting, nothing changes.
    pub fn offer(&mut self, record: JournalRecord) -> (kept: bool)
        requires
            old(self).wf(),
        ensures
            final(self).wf(),
            final(self).spec_query() == old(self).spec_query(),
            final(self).spec_scanned() == old(self).spec_scanned(),
            final(self).spec_stopped() == old(self).spec_stopped(),
            final(self).spec_rule() == old(self).spec_rule(),
            final(self).spec_window() == old(self).spec_window(),
            final(self).spec_pending() is None,
            kept == (old(self).spec_pending() matches Some(ts) && record_kept(
                old(self).spec_query(),
                old(self).spec_rule(),
                ts,
                record,
            )),
            kept ==> final(self).spec_entries().len() == old(self).spec_entries().len() + 1
                && final(self).spec_entries().drop_last() == old(self).spec_entries()
                && entry_for(old(self).spec_pending()->0, record, final(self).spec_entries().last()),
            !kept ==> final(self).spec_entries() == old(self).spec_entries(),
    {
        let ts = match self.pending {
            None => return false,
            Some(ts) => ts,
        };
        self.pending = None;
        if self.excludes(&record.unit) {
            return false;
        }
        let instant = instant_from_micros(ts);
        let timestamp_utc = match format_rfc3339_millis(&instant) {
            Some(t) => t,
            None => return false,
        };
        let threshold = match &self.query.priority {
            Some(p) => parse_u8(p.as_str()),
            None => None,
        };
        let priority = match &record.priority {
            Some(p) => parse_u8(p.as_str()),
            None => None,
        };
        match threshold {
            Some(max) => match priority {
                Some(p) => {
                    if p > max {
                        return false;
                    }
                },
                None => return false,
            },
            None => {},
        }
        let message = sanitize_log_message(record.message);
        match &message {
            Some(m) => {
                if !matches_grep(&self.matcher, m.as_str()) {
                    return false;
                }
            },
            None => {
                if self.query.grep.is_some() {
                    return false;
                }
            },
        }
        let pid = match &record.pid {
            Some(p) => parse_i32(p.as_str()),
            None => None,
        };
        let priority_text = match priority {
            Some(p) => Some(u8_to_text(p)),
            None => None,
        };
        let entry = JournalLogEntry {
            timestamp_utc,
            unit: record.unit,
            priority: priority_text,
            hostname: record.hostname,
            pid,
            message,
            cursor: record.cursor,
        };
        self.entries.push(entry);
        proof {
            assert(self.entries@.drop_last() =~= old(self).entries@);
        }
        true
    }

    /// Ends the walk with the entries kept and the number of records visited.
    pub fn finish(self) -> (r: LogQueryResult)
        requires
            self.wf(),
        ensures
            r.entries@ == self.spec_entries(),
            r.total_scanned == Some(self.spec_scanned() as usize),
            r.entries@.len() <= self.spec_query().limit,
            r.entries@.len() <= self.spec_scanned(),
            r.total_scanned matches Some(n) && n >= r.entries@.len(),
    {
        LogQueryResult { entries: self.entries, total_scanned: Some(self.total_scanned) }
    }
}

/// What a walk returns obeys its limit and never returns more records than
/// it visited; it counts as truncated (`returned >= limit`) exactly when it
/// returned `limit` records.
pub proof fn scan_result_bounds(scan: JournalScan)
    requires
        scan.wf(),
    ensures
        scan.spec_entries().len() <= scan.spec_query().limit,
        scan.spec_entries().len() <= scan.spec_scanned(),
        (scan.spec_entries().len() >= scan.spec_query().limit) == (scan.spec_entries().len()
            == scan.spec_query().limit),
{
}

} // verus!
