//! UTC instants: RFC3339 parsing and millisecond rendering through chrono,
//! and the ordering and window arithmetic the query validation needs.

use vstd::prelude::*;

verus! {

/// An instant as seconds since the Unix epoch plus sub-second nanoseconds
/// (chrono's `timestamp` and `timestamp_subsec_nanos`).
#[derive(Debug, Clone, Copy, PartialEq, Eq, Structural)]
pub struct UtcInstant {
    pub secs: i64,
    pub nanos: u32,
}

/// Nanoseconds in seven days.
pub const MAX_WINDOW_NANOS: i128 = 604_800_000_000_000;

/// What `DateTime::parse_from_rfc3339` yields for a text: the seconds, the
/// sub-second nanoseconds and the offset from UTC in seconds, or `None`
/// when the text is not RFC3339.
pub uninterp spec fn rfc3339_fields(s: Seq<char>) -> Option<(i64, u32, i32)>;

/// The RFC3339 rendering with milliseconds and a `Z` suffix of the instant
/// `secs`/`nanos`, or `None` when chrono cannot represent it.
pub uninterp spec fn rfc3339_millis(secs: i64, nanos: u32) -> Option<Seq<char>>;

pub open spec fn instant_lt(a: UtcInstant, b: UtcInstant) -> bool {
    a.secs < b.secs || (a.secs == b.secs && a.nanos < b.nanos)
}

/// The length of the window from `a` to `b` in nanoseconds.
pub open spec fn span_nanos(a: UtcInstant, b: UtcInstant) -> int {
    (b.secs - a.secs) * 1_000_000_000 + (b.nanos - a.nanos)
}

/// The UTC instant a text denotes: RFC3339, ending in a literal `Z`, with a
/// zero offset.
pub open spec fn utc_of(s: Seq<char>) -> Option<UtcInstant> {
    if s.len() > 0 && s.last() == 'Z' {
        match rfc3339_fields(s) {
            Some(f) => if f.2 == 0 {
                Some(UtcInstant { secs: f.0, nanos: f.1 })
            } else {
                None
            },
            None => None,
        }
    } else {
        None
    }
}

/// Relies on chrono's `DateTime::parse_from_rfc3339`, reading back the
/// timestamp, its sub-second nanoseconds and the offset from UTC.
#[verifier::external_body]
fn parse_rfc3339(s: &str) -> (r: Option<(i64, u32, i32)>)
    ensures
        r == rfc3339_fields(s@),
{
    match chrono::DateTime::parse_from_rfc3339(s) {
        Ok(d) => Some((d.timestamp(), d.timestamp_subsec_nanos(), d.offset().local_minus_utc())),
        Err(_) => None,
    }
}

/// Relies on chrono's `DateTime::<Utc>::from_timestamp` followed by
/// `to_rfc3339_opts(SecondsFormat::Millis, true)`.
#[verifier::external_body]
fn format_millis(secs: i64, nanos: u32) -> (r: Option<String>)
    ensures
        match r {
            Some(t) => rfc3339_millis(secs, nanos) == Some(t@),
            None => rfc3339_millis(secs, nanos) is None,
        },
{
    match chrono::DateTime::<chrono::Utc>::from_timestamp(secs, nanos) {
        Some(d) => Some(d.to_rfc3339_opts(chrono::SecondsFormat::Millis, true)),
        None => None,
    }
}

/// Relies on chrono's `Utc::now`: the current time, which nothing constrains.
#[verifier::external_body]
pub fn now_utc() -> (r: UtcInstant) {
    let now = chrono::Utc::now();
    UtcInstant { secs: now.timestamp(), nanos: now.timestamp_subsec_nanos() }
}

/// Parses an optional timestamp that must be RFC3339 UTC ending in `Z`.
pub fn parse_utc(value: &Option<String>) -> (r: Result<Option<UtcInstant>, crate::errors::AppError>)
    ensures
        match value {
            None => r == Ok::<Option<UtcInstant>, crate::errors::AppError>(None),
            Some(v) => match utc_of(v@) {
                Some(t) => r == Ok::<Option<UtcInstant>, crate::errors::AppError>(Some(t)),
                None => r matches Err(e) && crate::errors::is_bad_request(e, "invalid_utc_time"@),
            },
        },
{
    match value {
        None => Ok(None),
        Some(v) => {
            let chars = crate::text::char_vec(v.as_str());
            if chars.len() == 0 || chars[chars.len() - 1] != 'Z' {
                return Err(
                    crate::errors::AppError::bad_request(
                        "invalid_utc_time",
                        "timestamps must be RFC3339 UTC format ending with Z",
                    ),
                );
            }
            match parse_rfc3339(v.as_str()) {
                None => Err(
                    crate::errors::AppError::bad_request(
                        "invalid_utc_time",
                        "timestamps must be RFC3339 UTC format ending with Z",
                    ),
                ),
                Some((secs, nanos, offset)) => {
                    if offset != 0 {
                        Err(
                            crate::errors::AppError::bad_request(
                                "invalid_utc_time",
                                "timestamps must use UTC offset",
                            ),
                        )
                    } else {
                        Ok(Some(UtcInstant { secs, nanos }))
                    }
                },
            }
        },
    }
}

/// Whether `a` is strictly earlier than `b`.
pub fn is_before(a: &UtcInstant, b: &UtcInstant) -> (r: bool)
    ensures
        r == instant_lt(*a, *b),
{
    a.secs < b.secs || (a.secs == b.secs && a.nanos < b.nanos)
}

/// Whether the window from `a` to `b` is longer than seven days.
pub fn exceeds_seven_days(a: &UtcInstant, b: &UtcInstant) -> (r: bool)
    ensures
        r == (span_nanos(*a, *b) > MAX_WINDOW_NANOS),
{
    let ds: i128 = b.secs as i128 - a.secs as i128;
    let dn: i128 = b.nanos as i128 - a.nanos as i128;
    assert(-0x1_0000_0000_0000_0000 <= ds <= 0x1_0000_0000_0000_0000);
    assert(-0x1_0000_0000_0000_0000 * 1_000_000_000 <= ds * 1_000_000_000 <= 0x1_0000_0000_0000_0000 * 1_000_000_000) by (nonlinear_arith)
        requires
            -0x1_0000_0000_0000_0000 <= ds <= 0x1_0000_0000_0000_0000,
    ;
    ds * 1_000_000_000 + dn > MAX_WINDOW_NANOS
}

/// The instant one hour before `t`.
pub fn hour_before(t: &UtcInstant) -> (r: UtcInstant)
    requires
        t.secs >= i64::MIN + 3600,
    ensures
        r.secs == t.secs - 3600,
        r.nanos == t.nanos,
{
    UtcInstant { secs: t.secs - 3600, nanos: t.nanos }
}

/// Renders an instant as RFC3339 with milliseconds and a `Z` suffix.
pub fn format_rfc3339_millis(t: &UtcInstant) -> (r: Option<String>)
    ensures
        match r {
            Some(s) => rfc3339_millis(t.secs, t.nanos) == Some(s@),
            None => rfc3339_millis(t.secs, t.nanos) is None,
        },
{
    format_millis(t.secs, t.nanos)
}

/// The instant of a non-negative microsecond Unix timestamp (chrono's
/// `from_timestamp_micros` split into seconds and nanoseconds).
pub open spec fn instant_of_micros(us: u64) -> UtcInstant {
    UtcInstant { secs: (us / 1_000_000) as i64, nanos: ((us % 1_000_000) * 1000) as u32 }
}

/// Splits a microsecond Unix timestamp into seconds and nanoseconds.
pub fn instant_from_micros(us: u64) -> (r: UtcInstant)
    requires
        us <= i64::MAX,
    ensures
        r == instant_of_micros(us),
        r.nanos < 1_000_000_000,
{
    UtcInstant { secs: (us / 1_000_000) as i64, nanos: ((us % 1_000_000) * 1000) as u32 }
}

/// The rendering of a unit's activation time, given in microseconds since
/// the epoch; zero means "never" and yields `None`.
pub fn format_systemd_timestamp_usec(timestamp_usec: u64) -> (r: Option<String>)
    ensures
        timestamp_usec == 0 || timestamp_usec > i64::MAX ==> r is None,
        0 < timestamp_usec <= i64::MAX ==> match r {
            Some(s) => rfc3339_millis(
                instant_of_micros(timestamp_usec).secs,
                instant_of_micros(timestamp_usec).nanos,
            ) == Some(s@),
            None => rfc3339_millis(
                instant_of_micros(timestamp_usec).secs,
                instant_of_micros(timestamp_usec).nanos,
            ) is None,
        },
{
    if timestamp_usec == 0 || timestamp_usec > i64::MAX as u64 {
        return None;
    }
    let t = instant_from_micros(timestamp_usec);
    format_rfc3339_millis(&t)
}

} // verus!
