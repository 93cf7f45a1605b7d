//! Trusted bindings to the clock, the identifier generator and the calendar
//! library.  Dates are carried through the library as day numbers (days from
//! the common era, as the calendar library counts them) and timestamps as
//! unix milliseconds, so that all date logic works on plain integers.

use vstd::prelude::*;

use chrono::Datelike;

verus! {

/// Relies on `uuid::Uuid::new_v4` and its `to_string`: a freshly drawn
/// random identifier.  Nothing can be promised of a random value.
#[verifier::external_body]
pub fn fresh_uuid() -> (r: String) {
    uuid::Uuid::new_v4().to_string()
}

/// Relies on `chrono::Utc::now` and `timestamp_millis`: the current wall
/// clock as unix milliseconds.  Nothing can be promised of the clock.
#[verifier::external_body]
pub fn now_millis() -> (r: i64) {
    chrono::Utc::now().timestamp_millis()
}

/// Relies on `chrono::Utc::now`, `date_naive` and `Datelike::num_days_from_ce`:
/// the current calendar date as a day number.  Nothing can be promised of
/// the clock.
#[verifier::external_body]
pub fn today_day_number() -> (r: i64) {
    chrono::Utc::now().date_naive().num_days_from_ce() as i64
}

/// The day number that an ISO `YYYY-MM-DD` string parses to, or nothing when
/// the string is not a valid calendar date.  The value is fixed by the
/// string alone.
pub uninterp spec fn iso_date_days_of(s: Seq<char>) -> Option<i64>;

/// Relies on `chrono::NaiveDate::parse_from_str` with the `%Y-%m-%d` format
/// and `Datelike::num_days_from_ce`: parses an ISO calendar date into its
/// day number.
#[verifier::external_body]
pub fn parse_iso_date(s: &str) -> (r: Option<i64>)
    ensures
        r == iso_date_days_of(s@),
{
    chrono::NaiveDate::parse_from_str(s, "%Y-%m-%d").ok().map(|d| d.num_days_from_ce() as i64)
}

/// The ISO `YYYY-MM-DD` rendering of a day number, or nothing when the day
/// number falls outside the calendar library's range.
pub uninterp spec fn day_iso_of(d: i64) -> Option<Seq<char>>;

/// Relies on `chrono::NaiveDate::from_num_days_from_ce_opt` and the
/// `Display` rendering of `NaiveDate`: formats a day number as an ISO
/// calendar date.
#[verifier::external_body]
pub fn format_day_number(d: i64) -> (r: Option<String>)
    ensures
        r.deep_view() == day_iso_of(d),
{
    if d < (i32::MIN as i64) || d > (i32::MAX as i64) {
        return None;
    }
    chrono::NaiveDate::from_num_days_from_ce_opt(d as i32).map(|date| date.to_string())
}

/// The unix seconds that an RFC 3339 timestamp string parses to, or nothing
/// when the string is not a valid timestamp.  The value is fixed by the
/// string alone.
pub uninterp spec fn rfc3339_secs_of(s: Seq<char>) -> Option<i64>;

/// Relies on `chrono::DateTime::parse_from_rfc3339` and `timestamp`: parses
/// an RFC 3339 timestamp into unix seconds.
#[verifier::external_body]
pub fn parse_rfc3339_secs(s: &str) -> (r: Option<i64>)
    ensures
        r == rfc3339_secs_of(s@),
{
    chrono::DateTime::parse_from_rfc3339(s).ok().map(|dt| dt.timestamp())
}

/// The calendar date, as a day number in the timestamp's own offset, that an
/// RFC 3339 timestamp string parses to.  The value is fixed by the string
/// alone.
pub uninterp spec fn rfc3339_day_of(s: Seq<char>) -> Option<i64>;

/// Relies on `chrono::DateTime::parse_from_rfc3339`, `date_naive` and
/// `Datelike::num_days_from_ce`: the calendar date of an RFC 3339 timestamp.
#[verifier::external_body]
pub fn parse_rfc3339_day(s: &str) -> (r: Option<i64>)
    ensures
        r == rfc3339_day_of(s@),
{
    chrono::DateTime::parse_from_rfc3339(s).ok().map(
        |dt| dt.date_naive().num_days_from_ce() as i64,
    )
}

/// The lower-case folding of a string.  The result depends on the
/// characters alone; an empty string stays empty.
pub uninterp spec fn lower_of(s: Seq<char>) -> Seq<char>;

/// Relies on `str::to_lowercase`: the Unicode lower-case folding of the
/// string.
#[verifier::external_body]
pub fn to_lowercase(s: &str) -> (r: String)
    ensures
        r@ == lower_of(s@),
        s@.len() == 0 ==> r@.len() == 0,
{
    s.to_lowercase()
}

/// The trimming of a string: what remains after leading and trailing
/// whitespace is removed.  The result depends on the characters alone.
pub uninterp spec fn trim_of(s: Seq<char>) -> Seq<char>;

/// Relies on `str::trim`: removes leading and trailing whitespace.  An
/// empty string stays empty.
#[verifier::external_body]
pub fn trim_str(s: &str) -> (r: String)
    ensures
        r@ == trim_of(s@),
        s@.len() == 0 ==> r@.len() == 0,
{
    s.trim().to_string()
}

/// Relies on `chrono::Utc::now` and `timestamp`: the current wall clock as
/// unix seconds.  Nothing can be promised of the clock.
#[verifier::external_body]
pub fn now_unix_secs() -> (r: i64) {
    chrono::Utc::now().timestamp()
}

} // verus!
