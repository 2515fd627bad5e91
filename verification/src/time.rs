//! Points in time and local calendar days, as the library reads them from chrono.
//!
//! An instant is the UTC timestamp in whole seconds plus the nanoseconds within
//! that second; two instants compare as chrono compares the `DateTime<Utc>` they
//! came from. A day is a local calendar date counted as days from the Common Era
//! (`NaiveDate::num_days_from_ce`).
use vstd::prelude::*;

verus! {

/// Bound on the seconds of any instant chrono can represent (its dates span about
/// ±262 000 years, well under 10^13 seconds).
pub open spec fn instant_in_range(i: Instant) -> bool {
    -10_000_000_000_000 <= i.secs <= 10_000_000_000_000 && i.nanos < 2_000_000_000
}

/// Bound on the day numbers of chrono dates.
pub open spec fn day_in_range(d: i32) -> bool {
    -100_000_000 <= d <= 100_000_000
}

#[derive(Debug, Clone, Copy, PartialEq, Eq, Structural)]
pub struct Instant {
    pub secs: i64,
    pub nanos: u32,
}

impl Instant {
    /// Nanoseconds since the Unix epoch.
    pub open spec fn total_nanos(self) -> int {
        self.secs * 1_000_000_000 + self.nanos
    }

    /// Strictly earlier.
    pub open spec fn before(self, other: Instant) -> bool {
        self.secs < other.secs || (self.secs == other.secs && self.nanos < other.nanos)
    }
}

/// Strictly earlier.
pub fn instant_before(a: Instant, b: Instant) -> (r: bool)
    ensures
        r == a.before(b),
{
    a.secs < b.secs || (a.secs == b.secs && a.nanos < b.nanos)
}

/// Whole seconds in a span of nanoseconds, rounded toward zero.
pub open spec fn whole_seconds(nanos: int) -> int {
    if nanos >= 0 {
        nanos / 1_000_000_000
    } else {
        -((-nanos) / 1_000_000_000)
    }
}

/// Whole seconds from `earlier` to `later` (negative when `later` is earlier),
/// rounded toward zero as chrono's `TimeDelta::num_seconds` does.
pub fn seconds_between(later: Instant, earlier: Instant) -> (r: i64)
    requires
        instant_in_range(later),
        instant_in_range(earlier),
    ensures
        r == whole_seconds(later.total_nanos() - earlier.total_nanos()),
{
    let d: i128 = (later.secs as i128 - earlier.secs as i128) * 1_000_000_000i128
        + (later.nanos as i128 - earlier.nanos as i128);
    assert(d == later.total_nanos() - earlier.total_nanos());
    if d >= 0 {
        (d / 1_000_000_000i128) as i64
    } else {
        let m: i128 = -d;
        -((m / 1_000_000_000i128) as i64)
    }
}

/// What chrono's `DateTime::parse_from_rfc3339` reads from a string, as an instant.
pub uninterp spec fn spec_parse_rfc3339(s: Seq<char>) -> Option<Instant>;

/// What chrono's `NaiveDate::parse_from_str(_, "%Y-%m-%d")` reads from a string, as a day.
pub uninterp spec fn spec_parse_ymd(s: Seq<char>, fmt: Seq<char>) -> Option<i32>;

/// chrono's `%Y-%m-%d` rendering of a day.
pub uninterp spec fn spec_format_day(d: i32, fmt: Seq<char>) -> Seq<char>;

/// How days are written: `YYYY-MM-DD`.
pub const DAY_FORMAT: &'static str = "%Y-%m-%d";

/// How a due time is shown: month, day, hours and minutes.
pub const MONTH_DAY_TIME_FORMAT: &'static str = "%m/%d %H:%M";

/// A day's `YYYY-MM-DD` label.
pub open spec fn day_label(d: i32) -> Seq<char> {
    spec_format_day(d, DAY_FORMAT@)
}

/// The day a `YYYY-MM-DD` text names.
pub open spec fn parse_day(s: Seq<char>) -> Option<i32> {
    spec_parse_ymd(s, DAY_FORMAT@)
}

/// chrono `DateTime::parse_from_rfc3339`, taken to UTC. The result is named; it lies
/// in chrono's range.
#[verifier::external_body]
pub(crate) fn parse_rfc3339(s: &str) -> (r: Option<Instant>)
    ensures
        r == spec_parse_rfc3339(s@),
        r matches Some(i) ==> instant_in_range(i),
{
    chrono::DateTime::parse_from_rfc3339(s).ok().map(
        |d| Instant { secs: d.timestamp(), nanos: d.timestamp_subsec_nanos() },
    )
}

/// chrono `Utc::now`. Nothing is claimed of the time itself, only that it lies in
/// chrono's range.
#[verifier::external_body]
pub(crate) fn now() -> (r: Instant)
    ensures
        instant_in_range(r),
{
    let d = chrono::Utc::now();
    Instant { secs: d.timestamp(), nanos: d.timestamp_subsec_nanos() }
}

/// chrono `Utc::now().to_rfc3339()`. Nothing is claimed of the text.
#[verifier::external_body]
pub(crate) fn now_rfc3339() -> (r: String) {
    chrono::Utc::now().to_rfc3339()
}

/// chrono `NaiveDate::parse_from_str(s, fmt)`, as a day number. The result is named;
/// it lies in chrono's range.
#[verifier::external_body]
pub(crate) fn parse_ymd(s: &str, fmt: &str) -> (r: Option<i32>)
    ensures
        r == spec_parse_ymd(s@, fmt@),
        r matches Some(d) ==> day_in_range(d),
{
    chrono::NaiveDate::parse_from_str(s, fmt).ok().map(|d| chrono::Datelike::num_days_from_ce(&d))
}

/// chrono: the local calendar day of an RFC 3339 time stamp
/// (`parse_from_rfc3339(..).with_timezone(&Local).date_naive()`). It depends on the
/// machine's time zone, so only its presence is stated: it exists exactly when the
/// stamp parses.
#[verifier::external_body]
pub(crate) fn local_day_of(s: &str) -> (r: Option<i32>)
    ensures
        r is Some <==> spec_parse_rfc3339(s@) is Some,
        r matches Some(d) ==> day_in_range(d),
{
    chrono::DateTime::parse_from_rfc3339(s).ok().map(
        |d| chrono::Datelike::num_days_from_ce(&d.with_timezone(&chrono::Local).date_naive()),
    )
}

/// chrono: today's local calendar day (`Local::now().date_naive()`). Depends on the
/// clock and the time zone; only chrono's range is claimed.
#[verifier::external_body]
pub(crate) fn today_local() -> (r: i32)
    ensures
        day_in_range(r),
{
    chrono::Datelike::num_days_from_ce(&chrono::Local::now().date_naive())
}

/// chrono: the UTC instant of local midnight at the start of a day, as RFC 3339
/// (`from_num_days_from_ce_opt(..)`, `and_hms_opt(0, 0, 0)`,
/// `Local.from_local_datetime(..).earliest()`, `.with_timezone(&Utc).to_rfc3339()`);
/// `None` when the day or its midnight does not exist. Depends on the time zone;
/// nothing is claimed of the text.
#[verifier::external_body]
fn local_midnight_rfc3339(day: i32) -> (r: Option<String>) {
    chrono::NaiveDate::from_num_days_from_ce_opt(day)
        .and_then(|d| d.and_hms_opt(0, 0, 0))
        .and_then(|t| chrono::TimeZone::from_local_datetime(&chrono::Local, &t).earliest())
        .map(|t| t.with_timezone(&chrono::Utc).to_rfc3339())
}

/// The UTC instant of local midnight at the start of a day, as RFC 3339; the
/// current time when that midnight does not exist.
pub(crate) fn local_day_start_rfc3339(day: i32) -> (r: String) {
    match local_midnight_rfc3339(day) {
        Some(s) => s,
        None => now_rfc3339(),
    }
}

/// Day numbers well inside chrono's dates (years -262143 to 262142, about
/// ±95.7 million days from the common era).
pub open spec fn day_formattable(d: i32) -> bool {
    -95_000_000 <= d <= 95_000_000
}

/// chrono: a day rendered with `fmt` (`NaiveDate::format(fmt).to_string()`), when the
/// day is one chrono can represent (`from_num_days_from_ce_opt` gives `None` only out
/// of its range, so every day of `day_formattable` renders). Only the `YYYY-MM-DD`
/// format is admitted: an invalid format makes `to_string` panic. The text is named.
#[verifier::external_body]
pub(crate) fn format_day(day: i32, fmt: &str) -> (r: Option<String>)
    requires
        fmt@ == DAY_FORMAT@,
    ensures
        r matches Some(s) ==> s@ == spec_format_day(day, fmt@),
        day_formattable(day) ==> r is Some,
{
    chrono::NaiveDate::from_num_days_from_ce_opt(day).map(|d| d.format(fmt).to_string())
}

/// chrono: an RFC 3339 stamp shown in local time with `fmt`. Depends on the time
/// zone; only its presence is stated: it exists exactly when the stamp parses. Only
/// the month-day-time format is admitted: an invalid format makes `to_string` panic.
#[verifier::external_body]
pub(crate) fn local_month_day_time(s: &str, fmt: &str) -> (r: Option<String>)
    requires
        fmt@ == MONTH_DAY_TIME_FORMAT@,
    ensures
        r is Some <==> spec_parse_rfc3339(s@) is Some,
{
    chrono::DateTime::parse_from_rfc3339(s).ok().map(
        |d| d.with_timezone(&chrono::Local).format(fmt).to_string(),
    )
}

/// chrono's RFC 3339 rendering of an instant.
pub uninterp spec fn spec_instant_rfc3339(i: Instant) -> Seq<char>;

/// chrono: an instant rendered as RFC 3339 (`Utc.timestamp_opt(..).to_rfc3339()`), when
/// chrono can represent it. The text is named.
#[verifier::external_body]
pub(crate) fn instant_rfc3339(i: Instant) -> (r: Option<String>)
    ensures
        r matches Some(s) ==> s@ == spec_instant_rfc3339(i),
{
    chrono::TimeZone::timestamp_opt(&chrono::Utc, i.secs, i.nanos).single().map(|d| d.to_rfc3339())
}

/// A number of minutes chrono's `Duration::minutes` takes (and whose seconds fit
/// an `i64`).
pub open spec fn minutes_fit(m: i64) -> bool {
    -153_722_867_280_912 <= m <= 153_722_867_280_912
}

/// Seconds from the epoch well inside chrono's dates (years -262143 to 262142):
/// adding a duration that ends here does not overflow.
pub open spec fn chrono_secs(s: int) -> bool {
    -8_200_000_000_000 <= s <= 8_200_000_000_000
}

/// The instant a number of whole minutes later (chrono `+ Duration::minutes`).
pub open spec fn spec_plus_minutes(i: Instant, minutes: int) -> Instant {
    Instant { secs: (i.secs + minutes * 60) as i64, nanos: i.nanos }
}

/// The instant `minutes` whole minutes after `i`.
pub fn plus_minutes(i: Instant, minutes: i64) -> (r: Instant)
    requires
        instant_in_range(i),
        minutes_fit(minutes),
        i64::MIN <= i.secs + minutes * 60 <= i64::MAX,
    ensures
        r == spec_plus_minutes(i, minutes as int),
        r.total_nanos() == i.total_nanos() + minutes * 60_000_000_000,
{
    Instant { secs: i.secs + minutes * 60, nanos: i.nanos }
}

/// chrono `DateTime::parse_from_rfc3339`, keeping chrono's error text. The instant
/// is the named one; an error comes exactly when there is none.
#[verifier::external_body]
pub(crate) fn parse_rfc3339_or_error(s: &str) -> (r: Result<Instant, String>)
    ensures
        r matches Ok(i) ==> spec_parse_rfc3339(s@) == Some(i) && instant_in_range(i),
        r is Err <==> spec_parse_rfc3339(s@) is None,
{
    chrono::DateTime::parse_from_rfc3339(s)
        .map(|d| Instant { secs: d.timestamp(), nanos: d.timestamp_subsec_nanos() })
        .map_err(|e| e.to_string())
}

} // verus!
