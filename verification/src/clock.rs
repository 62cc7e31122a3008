//! Instants and dates, as the calendar crate computes them.
use vstd::prelude::*;
use chrono::TimeZone;

verus! {

/// A point in time: whole seconds since the Unix epoch and the nanoseconds
/// past that second (beyond a billion only within a leap second).
#[derive(Clone, Copy)]
pub struct Instant {
    pub secs: i64,
    pub nanos: u32,
}

/// The first second of the calendar (`NaiveDate::MIN`, midnight), in
/// seconds since the Unix epoch.
pub const CALENDAR_MIN_SECS: i64 = -8_334_601_315_200;

/// The last second of the calendar (`NaiveDate::MAX`, 23:59:59), in
/// seconds since the Unix epoch.
pub const CALENDAR_MAX_SECS: i64 = 8_210_266_876_799;

/// The last second of the year 9999 (UTC), the latest moment that an RFC
/// 3339 text with a four-digit year written in UTC denotes.
pub const RFC3339_MAX_SECS: i64 = 253_402_300_799;

/// The first second of the year 0 (UTC).
pub const RFC3339_MIN_SECS: i64 = -62_167_219_200;

/// The date and time pattern in which conversations show moments.
pub const DATE_PATTERN: &'static str = "%A %d %B %Y %H:%M:%S";

/// The instant that an RFC 3339 text denotes, as (seconds, nanoseconds);
/// `None` when the text is not RFC 3339.
pub uninterp spec fn rfc3339_instant(text: Seq<char>) -> Option<(int, int)>;

/// The whole hours (truncated toward zero) from the second instant to the
/// first, each given as (seconds, nanoseconds); `None` when one of them is
/// out of the calendar's range.
pub uninterp spec fn hours_between(later_secs: int, later_nanos: int, earlier_secs: int, earlier_nanos: int) -> Option<int>;

/// The UTC date and time of the Unix timestamp `secs` written with the
/// strftime `pattern`; `None` when the timestamp is out of the calendar's
/// range.
pub uninterp spec fn utc_formatted(secs: int, pattern: Seq<char>) -> Option<Seq<char>>;

/// Reads an RFC 3339 date and time (`DateTime::parse_from_rfc3339`), giving
/// its instant (`timestamp`, `timestamp_subsec_nanos`). The text's year has
/// four digits and its offset is under a day, so the instant lies within a
/// day of the years 0 to 9999; its nanoseconds reach past a billion only in
/// a leap second.
#[verifier::external_body]
pub(crate) fn parse_rfc3339(text: &str) -> (r: Option<Instant>)
    ensures
        r matches Some(i) ==> rfc3339_instant(text@) == Some((i.secs as int, i.nanos as int)),
        r is None ==> rfc3339_instant(text@) is None,
        r matches Some(i) ==> RFC3339_MIN_SECS - 86_400 <= i.secs <= RFC3339_MAX_SECS + 86_400 && i.nanos
            < 2_000_000_000,
{
    chrono::DateTime::parse_from_rfc3339(text).ok().map(
        |t| Instant { secs: t.timestamp(), nanos: t.timestamp_subsec_nanos() },
    )
}

/// The current instant (`Utc::now`, then `timestamp` and
/// `timestamp_subsec_nanos`). It depends on the clock; what holds of every
/// outcome is that it is not before the Unix epoch (else `Utc::now` panics),
/// lies within the calendar (else it panics too) and is no leap second.
#[verifier::external_body]
pub(crate) fn utc_now() -> (i: Instant)
    ensures
        0 <= i.secs <= CALENDAR_MAX_SECS,
        i.nanos < 1_000_000_000,
{
    let t = chrono::Utc::now();
    Instant { secs: t.timestamp(), nanos: t.timestamp_subsec_nanos() }
}

/// The current instant and its RFC 3339 text (`Utc::now`, then
/// `timestamp`, `timestamp_subsec_nanos` and `to_rfc3339`). It depends on
/// the clock; of every outcome, the instant is as `utc_now` states, and up
/// to the end of the year 9999 the text reads back as that instant. Past
/// it, chrono writes a signed year of more digits, which RFC 3339 does not
/// read; nothing is stated of that text.
#[verifier::external_body]
pub(crate) fn utc_now_rfc3339() -> (r: (Instant, String))
    ensures
        0 <= r.0.secs <= CALENDAR_MAX_SECS,
        r.0.nanos < 1_000_000_000,
        r.0.secs <= RFC3339_MAX_SECS ==> rfc3339_instant(r.1@) == Some((r.0.secs as int, r.0.nanos as int)),
{
    let t = chrono::Utc::now();
    (Instant { secs: t.timestamp(), nanos: t.timestamp_subsec_nanos() }, t.to_rfc3339())
}

/// The whole hours in the span from `earlier` to `later`, each given in
/// seconds and nanoseconds of a second, counted toward zero.
pub open spec fn whole_hours_of(later_secs: int, later_nanos: int, earlier_secs: int, earlier_nanos: int) -> int {
    let d = (later_secs - earlier_secs) * 1_000_000_000 + (later_nanos - earlier_nanos);
    if d >= 0 {
        d / 3_600_000_000_000
    } else {
        -((-d) / 3_600_000_000_000)
    }
}

/// Whole hours from `earlier` to `later` (`DateTime::from_timestamp` for
/// each, then `signed_duration_since` and `num_hours`). `None` where a
/// timestamp lies outside chrono's calendar. Where neither moment is a leap
/// second (nanoseconds under one second), the hours are `whole_hours_of`
/// them: chrono takes the span in nanoseconds, its whole seconds toward
/// zero (`num_seconds`), and of those the whole hours toward zero. Two such
/// moments within the calendar always give hours.
#[verifier::external_body]
pub(crate) fn whole_hours_between(later: Instant, earlier: Instant) -> (h: Option<i64>)
    ensures
        later.nanos < 1_000_000_000 && earlier.nanos < 1_000_000_000 && CALENDAR_MIN_SECS <= later.secs
            <= CALENDAR_MAX_SECS && CALENDAR_MIN_SECS <= earlier.secs <= CALENDAR_MAX_SECS ==> h is Some,
        later.nanos < 1_000_000_000 && earlier.nanos < 1_000_000_000 ==> (h matches Some(v) ==> v
            == whole_hours_of(later.secs as int, later.nanos as int, earlier.secs as int, earlier.nanos as int)),
        h matches Some(v) ==> hours_between(
            later.secs as int,
            later.nanos as int,
            earlier.secs as int,
            earlier.nanos as int,
        ) == Some(v as int),
        h is None ==> hours_between(
            later.secs as int,
            later.nanos as int,
            earlier.secs as int,
            earlier.nanos as int,
        ) is None,
{
    let l = chrono::DateTime::from_timestamp(later.secs, later.nanos)?;
    let e = chrono::DateTime::from_timestamp(earlier.secs, earlier.nanos)?;
    Some(l.signed_duration_since(e).num_hours())
}

/// The UTC date and time of the timestamp `secs` in the strftime `pattern`
/// (`Utc.timestamp_opt(secs, 0).single()`, then `format`).
#[verifier::external_body]
pub(crate) fn utc_timestamp_text(secs: i64, pattern: &str) -> (r: Option<String>)
    requires
        pattern@ == DATE_PATTERN@,
    ensures
        r matches Some(t) ==> utc_formatted(secs as int, pattern@) == Some(t@),
        r is None ==> utc_formatted(secs as int, pattern@) is None,
{
    chrono::Utc.timestamp_opt(secs, 0).single().map(|d| d.format(pattern).to_string())
}

/// The current local moment: its date and time in a pattern, its Unix
/// timestamp in seconds and in milliseconds.
pub struct LocalMoment {
    pub text: String,
    pub secs: i64,
    pub millis: i64,
}

/// The current local moment (`Local::now`, then `format`, `timestamp` and
/// `timestamp_millis`). It depends on the clock and the machine's time
/// zone; what is stated is that chrono counts the milliseconds as the
/// seconds times 1000 plus the moment's sub-second milliseconds, which are
/// under 2000 (a leap second reaching past 1000).
#[verifier::external_body]
pub(crate) fn local_now(pattern: &str) -> (m: LocalMoment)
    requires
        pattern@ == DATE_PATTERN@,
    ensures
        m.secs * 1000 <= m.millis < m.secs * 1000 + 2000,
{
    let now = chrono::Local::now();
    LocalMoment { text: now.format(pattern).to_string(), secs: now.timestamp(), millis: now.timestamp_millis() }
}

} // verus!
