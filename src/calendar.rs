//! Naive calendar datetimes and epoch instants, with the calendar rules that
//! decide which field combinations name a real moment.
use chrono::{Datelike, Timelike};
use vstd::prelude::*;

verus! {

/// Smallest year that the calendar backend can represent.
pub const MIN_YEAR: i32 = -262143;

/// Largest year that the calendar backend can represent.
pub const MAX_YEAR: i32 = 262142;

/// A naive (time-zone free) calendar datetime at microsecond precision, held
/// as its plain fields. Nothing forces the fields to name a real moment:
/// `is_valid` says when they do.
#[derive(Clone, Copy, Debug, PartialEq, Eq)]
pub struct DatetimeFields {
    pub year: i32,
    pub month: u32,
    pub day: u32,
    pub hour: u32,
    pub minute: u32,
    pub second: u32,
    pub microsecond: u32,
}

/// An instant given as whole seconds since 1970-01-01T00:00:00 and the
/// microseconds past that second.
#[derive(Clone, Copy, Debug, PartialEq, Eq)]
pub struct EpochTime {
    pub seconds: i64,
    pub micros: u32,
}

/// Proleptic Gregorian leap year rule.
pub open spec fn is_leap_year(y: int) -> bool {
    y % 4 == 0 && (y % 100 != 0 || y % 400 == 0)
}

pub open spec fn days_in_month(y: int, m: int) -> int {
    if m == 2 {
        if is_leap_year(y) { 29 } else { 28 }
    } else if m == 4 || m == 6 || m == 9 || m == 11 {
        30
    } else {
        31
    }
}

/// The day exists in the proleptic Gregorian calendar and its year is in range.
pub open spec fn valid_date(y: int, m: int, d: int) -> bool {
    MIN_YEAR <= y <= MAX_YEAR && 1 <= m <= 12 && 1 <= d <= days_in_month(y, m)
}

/// A time of day; a microsecond count past one million stands for a leap
/// second and is only allowed in the last second of a minute.
pub open spec fn valid_time(h: int, mi: int, s: int, us: int) -> bool {
    0 <= h < 24 && 0 <= mi < 60 && 0 <= s < 60 && 0 <= us < 2_000_000
        && (us < 1_000_000 || s == 59)
}

/// Days from 1970-01-01 to the given civil date (negative before it).
pub open spec fn days_from_civil(y: int, m: int, d: int) -> int {
    let y1 = if m <= 2 { y - 1 } else { y };
    let era = y1 / 400;
    let yoe = y1 - era * 400;
    let mp = (m + 9) % 12;
    let doy = (153 * mp + 2) / 5 + d - 1;
    let doe = yoe * 365 + yoe / 4 - yoe / 100 + doy;
    era * 146097 + doe - 719468
}

impl DatetimeFields {
    pub open spec fn is_valid(self) -> bool {
        &&& valid_date(self.year as int, self.month as int, self.day as int)
        &&& valid_time(
            self.hour as int,
            self.minute as int,
            self.second as int,
            self.microsecond as int,
        )
    }

    /// Whole seconds since the epoch of this reading taken as UTC, leap
    /// seconds not counted.
    pub open spec fn epoch_seconds(self) -> int {
        days_from_civil(self.year as int, self.month as int, self.day as int) * 86400
            + self.hour * 3600 + self.minute * 60 + self.second
    }
}

impl EpochTime {
    /// Some valid calendar reading falls on this instant.
    pub open spec fn is_representable(self) -> bool {
        &&& self.micros < 1_000_000
        &&& exists|f: DatetimeFields| #[trigger] f.is_valid() && f.epoch_seconds() == self.seconds
    }
}

#[verifier::external_type_specification]
#[verifier::external_body]
pub struct ExNaiveDate(chrono::NaiveDate);

#[verifier::external_type_specification]
#[verifier::external_body]
pub struct ExNaiveTime(chrono::NaiveTime);

/// Relies on chrono's `NaiveDate::from_ymd_opt`: `Some` exactly for an
/// existing proleptic Gregorian day whose year lies in chrono's range.
pub assume_specification[ chrono::NaiveDate::from_ymd_opt ](year: i32, month: u32, day: u32) -> (r:
    Option<chrono::NaiveDate>)
    ensures
        r.is_some() == valid_date(year as int, month as int, day as int),
;

/// Relies on chrono's `NaiveTime::from_hms_micro_opt`: `Some` exactly for a
/// time of day, where a microsecond count from one to two million (a leap
/// second) is accepted only at second 59.
pub assume_specification[ chrono::NaiveTime::from_hms_micro_opt ](
    hour: u32,
    min: u32,
    sec: u32,
    micro: u32,
) -> (r: Option<chrono::NaiveTime>)
    ensures
        r.is_some() == valid_time(hour as int, min as int, sec as int, micro as int),
;

/// Relies on chrono's `DateTime::<Utc>::from_timestamp` and the calendar
/// getters of the result: the UTC reading of an instant, or `None` where its
/// day lies outside chrono's range.
#[verifier::external_body]
fn utc_reading(seconds: i64, nanos: u32) -> (r: Option<DatetimeFields>)
    requires
        nanos < 1_000_000_000,
    ensures
        match r {
            Some(f) => f.is_valid() && f.epoch_seconds() == seconds && f.microsecond == nanos
                / 1000,
            None => forall|f: DatetimeFields| #[trigger] f.is_valid() ==> f.epoch_seconds() != seconds,
        },
{
    let d = chrono::DateTime::from_timestamp(seconds, nanos)?;
    Some(DatetimeFields {
        year: d.year(),
        month: d.month(),
        day: d.day(),
        hour: d.hour(),
        minute: d.minute(),
        second: d.second(),
        microsecond: d.timestamp_subsec_micros(),
    })
}

impl DatetimeFields {
    /// Whether the fields name a real moment of the calendar.
    pub fn check(&self) -> (r: bool)
        ensures
            r == self.is_valid(),
    {
        let date = chrono::NaiveDate::from_ymd_opt(self.year, self.month, self.day);
        let time = chrono::NaiveTime::from_hms_micro_opt(
            self.hour,
            self.minute,
            self.second,
            self.microsecond,
        );
        date.is_some() && time.is_some()
    }
}

impl EpochTime {
    /// The naive UTC calendar reading of this instant, or `None` when no
    /// valid reading falls on it.
    pub fn to_fields(&self) -> (r: Option<DatetimeFields>)
        ensures
            r.is_some() == self.is_representable(),
            r matches Some(f) ==> f.is_valid() && f.epoch_seconds() == self.seconds
                && f.microsecond == self.micros,
    {
        if self.micros >= 1_000_000 {
            return None;
        }
        let r = utc_reading(self.seconds, self.micros * 1000);
        proof {
            if let Some(f) = r {
                assert(f.is_valid() && f.epoch_seconds() == self.seconds);
            }
        }
        r
    }
}

} // verus!
