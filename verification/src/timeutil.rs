//! Time handling: UTC timestamps, cutoff-date computation, and calendar
//! formatting for download folder names.  Calendar math and RFC 3339
//! parsing are done by the `chrono` crate behind trusted wrappers; all
//! arithmetic and formatting on the plain values is verified.

use vstd::prelude::*;

verus! {

use crate::clamp_days_back;
use crate::spec_clamp_days_back;
use crate::text::spec_padded_decimal;
use crate::text::u64_to_padded_string;
use vstd::string::StringExecFns;

/// The largest unix timestamp this crate works with:
/// 9999-12-31T23:59:59 UTC.
pub const MAX_CIVIL_TIMESTAMP: i64 = 253402300799;

/// A UTC instant in seconds since the unix epoch, held to the range the
/// calendar formatting supports.
#[derive(Clone, Copy, Debug, PartialEq, Eq, Structural)]
pub struct Timestamp {
    pub secs: i64,
}

impl Timestamp {
    /// Validity: the instant lies between the unix epoch and the end of
    /// year 9999.
    pub open spec fn wf(self) -> bool {
        0 <= self.secs <= MAX_CIVIL_TIMESTAMP
    }

    /// Hold a unix timestamp to the supported range.
    pub fn from_unix(secs: i64) -> (r: Self)
        ensures
            r.wf(),
            r.secs == (if secs < 0 {
                0i64
            } else if secs > MAX_CIVIL_TIMESTAMP {
                MAX_CIVIL_TIMESTAMP as i64
            } else {
                secs
            }),
    {
        if secs < 0 {
            Self { secs: 0 }
        } else if secs > MAX_CIVIL_TIMESTAMP {
            Self { secs: MAX_CIVIL_TIMESTAMP }
        } else {
            Self { secs }
        }
    }
}

/// Relies on `chrono::Utc::now`: the current UTC time as a unix timestamp
/// in seconds.  The result depends on the system clock, so nothing is
/// promised of it; `Utc::now` itself aborts on a clock set before the
/// unix epoch.
#[verifier::external_body]
fn now_unix_seconds() -> i64 {
    chrono::Utc::now().timestamp()
}

/// The current UTC time, held to the supported range.
pub fn current_timestamp() -> (r: Timestamp)
    ensures
        r.wf(),
{
    Timestamp::from_unix(now_unix_seconds())
}

/// The UTC calendar date (year, month, day) of a unix timestamp.
pub uninterp spec fn spec_civil_date_of(ts: i64) -> (i32, u8, u8);

/// Relies on `chrono::DateTime::from_timestamp` and the `Datelike`
/// accessors `year`, `month` and `day`: the UTC calendar date of `ts`.
/// Within the admitted range the timestamp maps to a date between
/// 1970-01-01 and 9999-12-31, `month` runs from 1 to 12 and `day` from
/// 1 to 31.
#[verifier::external_body]
fn civil_date_of(ts: i64) -> (r: (i32, u8, u8))
    requires
        0 <= ts <= MAX_CIVIL_TIMESTAMP,
    ensures
        r == spec_civil_date_of(ts),
        1970 <= r.0 <= 9999,
        1 <= r.1 <= 12,
        1 <= r.2 <= 31,
{
    let dt = chrono::DateTime::<chrono::Utc>::from_timestamp(ts, 0).unwrap();
    (
        chrono::Datelike::year(&dt),
        chrono::Datelike::month(&dt) as u8,
        chrono::Datelike::day(&dt) as u8,
    )
}

/// The unix timestamp of an RFC 3339 datetime text, `None` when the text
/// does not parse.  A fixed function of the text alone.
pub uninterp spec fn spec_rfc3339_timestamp(s: Seq<char>) -> Option<i64>;

/// Relies on `chrono::DateTime::parse_from_rfc3339` and
/// `DateTime::timestamp`: the UTC unix timestamp of an RFC 3339 datetime
/// text, or `None` when it does not parse.
#[verifier::external_body]
pub(crate) fn parse_rfc3339_timestamp(s: &str) -> (r: Option<i64>)
    ensures
        r == spec_rfc3339_timestamp(s@),
{
    match chrono::DateTime::parse_from_rfc3339(s) {
        Ok(dt) => Some(dt.timestamp()),
        Err(_) => None,
    }
}

/// The cutoff timestamp of a search: the effective (clamped) days-back
/// window subtracted from the search's start instant.  Posts older than
/// this are excluded.
pub open spec fn spec_cutoff(now: Timestamp, days_back: u32) -> i64 {
    (now.secs - spec_clamp_days_back(days_back) * 86400) as i64
}

/// Compute the cutoff date for a search started at `now` looking back
/// `days_back` days; the window is clamped to [1, 3650] days first.
pub fn cutoff_timestamp(now: Timestamp, days_back: u32) -> (r: i64)
    requires
        now.wf(),
    ensures
        r == spec_cutoff(now, days_back),
{
    let days = clamp_days_back(days_back);
    now.secs - (days as i64) * 86400
}

/// The `YYYY-MM-DD` rendering of the calendar date of `ts`.
pub open spec fn spec_date_string(ts: i64) -> Seq<char> {
    let ymd = spec_civil_date_of(ts);
    spec_padded_decimal(ymd.0 as int, 4) + "-"@ + spec_padded_decimal(ymd.1 as int, 2) + "-"@
        + spec_padded_decimal(ymd.2 as int, 2)
}

/// Render the UTC calendar date of `now` as `YYYY-MM-DD`.
pub fn format_date(now: Timestamp) -> (r: String)
    requires
        now.wf(),
    ensures
        r@ == spec_date_string(now.secs),
{
    let (y, m, d) = civil_date_of(now.secs);
    let mut out = u64_to_padded_string(y as u64, 4);
    out.append("-");
    let ms = u64_to_padded_string(m as u64, 2);
    out.append(ms.as_str());
    out.append("-");
    let ds = u64_to_padded_string(d as u64, 2);
    out.append(ds.as_str());
    proof {
        assert(out@ =~= spec_date_string(now.secs));
    }
    out
}

/// The `HHMMSS` rendering of the time of day of `ts`.
pub open spec fn spec_time_of_day_string(ts: i64) -> Seq<char> {
    let sod = (ts % 86400) as int;
    spec_padded_decimal(sod / 3600, 2) + spec_padded_decimal((sod % 3600) / 60, 2)
        + spec_padded_decimal(sod % 60, 2)
}

/// Render the UTC time of day of `now` as `HHMMSS`.
pub fn format_time_of_day(now: Timestamp) -> (r: String)
    requires
        now.wf(),
    ensures
        r@ == spec_time_of_day_string(now.secs),
{
    let sod = now.secs % 86400;
    let h = sod / 3600;
    let m = (sod % 3600) / 60;
    let s = sod % 60;
    let mut out = u64_to_padded_string(h as u64, 2);
    let ms = u64_to_padded_string(m as u64, 2);
    out.append(ms.as_str());
    let ss = u64_to_padded_string(s as u64, 2);
    out.append(ss.as_str());
    proof {
        assert(out@ =~= spec_time_of_day_string(now.secs));
    }
    out
}

} // verus!
