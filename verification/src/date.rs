//! The civil-date record and the arithmetic that relates it to a Unix
//! timestamp: leap-year rules, cumulative month lengths, and the day count
//! since the 1970-01-01 epoch.

use vstd::prelude::*;

verus! {

/// A civil date together with a time of day and a weekday, as carried by all
/// three textual grammars. `weekday` uses the 0 = Sunday convention.
#[derive(Clone, Copy)]
pub struct HttpDate {
    pub sec: u8,
    pub min: u8,
    pub hour: u8,
    pub day: u8,
    pub mon: u8,
    pub year: u16,
    pub weekday: u8,
}

/// The proleptic Gregorian leap-year rule: divisible by 4, except centuries
/// unless divisible by 400.
pub open spec fn is_leap_year(y: int) -> bool {
    y % 4 == 0 && (y % 100 != 0 || y % 400 == 0)
}

/// How many leap years fall strictly between 1969 and `y`, by
/// inclusion-exclusion on the years 1972, 1976, ... below `y`.
pub open spec fn leap_days_before(y: int) -> int {
    (y - 1969) / 4 - (y - 1901) / 100 + (y - 1601) / 400
}

/// Days of a common year that precede the first of month `m` (1 = January).
pub open spec fn days_before_month(m: int) -> int {
    if m == 1 { 0 }
    else if m == 2 { 31 }
    else if m == 3 { 59 }
    else if m == 4 { 90 }
    else if m == 5 { 120 }
    else if m == 6 { 151 }
    else if m == 7 { 181 }
    else if m == 8 { 212 }
    else if m == 9 { 243 }
    else if m == 10 { 273 }
    else if m == 11 { 304 }
    else { 334 }
}

/// Days from the epoch 1970-01-01 to the civil date `y`-`m`-`d`.
pub open spec fn day_index(y: int, m: int, d: int) -> int {
    (y - 1970) * 365 + leap_days_before(y) + days_before_month(m)
    + (if is_leap_year(y) && m > 2 { 1int } else { 0int })
    + d - 1
}

/// The timestamp that a civil date with its time of day denotes.
pub open spec fn timestamp_of(dt: HttpDate) -> int {
    day_index(dt.year as int, dt.mon as int, dt.day as int) * 86400
    + dt.hour as int * 3600 + dt.min as int * 60 + dt.sec as int
}

/// The range checks that the validator applies to recognized fields.
pub open spec fn fields_in_range(dt: HttpDate) -> bool {
    dt.sec < 60 && dt.min < 60 && dt.hour < 24
    && 1 <= dt.day && dt.day < 32
    && 1 <= dt.mon && dt.mon <= 12
    && 1970 <= dt.year && dt.year <= 9999
}

/// The strict cross-check: the weekday named in the text must be the weekday
/// of the denoted timestamp (day 0, 1970-01-01, was a Thursday, weekday 4).
pub open spec fn weekday_consistent(dt: HttpDate) -> bool {
    (timestamp_of(dt) / 86400 + 4) % 7 == dt.weekday as int
}

/// Every in-range civil date denotes a timestamp inside the representable
/// domain: from the epoch up to, but not including, the first instant of
/// year 10000.
pub proof fn lemma_timestamp_of_in_domain(dt: HttpDate)
    requires
        fields_in_range(dt),
    ensures
        0 <= timestamp_of(dt) < 253402300800,
{
}

/// The length of month `m` of year `y`.
pub open spec fn month_length(y: int, m: int) -> int {
    if m == 2 {
        if is_leap_year(y) { 29 } else { 28 }
    } else if m == 4 || m == 6 || m == 9 || m == 11 {
        30
    } else {
        31
    }
}

/// A date that really occurs in the calendar: its day exists in its month.
pub open spec fn date_exists(dt: HttpDate) -> bool {
    dt.day <= month_length(dt.year as int, dt.mon as int)
}

} // verus!
