//! Conversion between Unix timestamps and the textual date representations of
//! HTTP header fields: IMF-fixdate is produced, and IMF-fixdate, RFC 850
//! dates and asctime dates are accepted.

use vstd::prelude::*;

pub mod calendar;
pub mod date;
pub mod laws;
pub mod recognize;
pub mod render;

pub use date::HttpDate;

verus! {

use crate::calendar::{fields_of, lemma_fields_of_correct, timestamp_to_fields};
use crate::date::{lemma_timestamp_of_in_domain, timestamp_of};
use crate::recognize::{parse_asctime, parse_imf_fixdate, parse_outcome, parse_rfc850_date};
use crate::render::{imf_render, render_imf};

// Unix timestamp for Jan 1st, 10000
pub const YEAR_10000: u64 = 253402300800;

/// Error returned from [format] indicating that the timestamp is too far
/// into the future: IMF-fixdate only supports days prior to the year 10000.
#[derive(Debug, PartialEq, Eq, Structural)]
pub struct TooFuturistic;

/// Error returned from [parse] indicating that the input text was not a
/// valid date.
#[derive(Debug, PartialEq, Eq, Structural)]
pub struct InvalidDate;

/// Format a unix timestamp to be used in an HTTP header field into the
/// provided buffer.
///
/// Dates are formatted as IMF-fixdate: `Fri, 15 May 2015 15:34:21 GMT`.
/// This is a fixed-width format, so on success this function always
/// overwrites the entire buffer.  Timestamps at or beyond the year 10000
/// cannot be represented in a four-digit year and are refused; the buffer's
/// contents are then unspecified.
pub fn format(secs_since_epoch: u64, buffer: &mut [u8; 29]) -> (r: Result<(), TooFuturistic>)
    ensures
        r is Ok <==> secs_since_epoch < YEAR_10000,
        secs_since_epoch < YEAR_10000 ==> {
            &&& r == Ok::<(), TooFuturistic>(())
            &&& final(buffer)@ == imf_render(fields_of(secs_since_epoch as int))
        },
        secs_since_epoch >= YEAR_10000 ==> r == Err::<(), TooFuturistic>(TooFuturistic),
{
    if secs_since_epoch >= YEAR_10000 {
        return Err(TooFuturistic);
    }

    proof {
        lemma_fields_of_correct(secs_since_epoch as int);
    }
    let date = timestamp_to_fields(secs_since_epoch);
    render_imf(&date, buffer);
    Ok(())
}

/// Parse an HTTP date header into a u64 unix timestamp.
///
/// This will parse IMF-fixdate, RFC 850 dates, and asctime dates, tried in
/// that order.  Recognized fields are range-checked, and the weekday named in
/// the text must agree with the weekday computed from the date, so a
/// mislabeled date is rejected even when every field is in range.
pub fn parse(header: &[u8]) -> (r: Result<u64, InvalidDate>)
    ensures
        r is Ok <==> parse_outcome(header@) is Some,
        r is Ok ==> r.unwrap() as int == parse_outcome(header@).unwrap(),
        r is Ok ==> r.unwrap() < YEAR_10000,
        r is Err ==> r == Err::<u64, InvalidDate>(InvalidDate),
{
    let date = match parse_imf_fixdate(header) {
        Ok(d) => d,
        Err(_) => match parse_rfc850_date(header) {
            Ok(d) => d,
            Err(_) => match parse_asctime(header) {
                Ok(d) => d,
                Err(e) => {
                    return Err(e);
                },
            },
        },
    };

    let is_valid = date.sec < 60 && date.min < 60 && date.hour < 24
        && date.day > 0 && date.day < 32
        && date.mon > 0 && date.mon <= 12
        && date.year >= 1970 && date.year <= 9999;

    if !is_valid {
        return Err(InvalidDate);
    }

    let year = date.year as u64;
    let leap_years = (year - 1969) / 4 - (year - 1901) / 100 + (year - 1601) / 400;

    let mut ydays: u64 = match date.mon {
        1 => 0,
        2 => 31,
        3 => 59,
        4 => 90,
        5 => 120,
        6 => 151,
        7 => 181,
        8 => 212,
        9 => 243,
        10 => 273,
        11 => 304,
        _ => 334,
    };
    ydays += date.day as u64;
    ydays -= 1;

    let leap = year % 4 == 0 && (year % 100 != 0 || year % 400 == 0);
    if leap && date.mon > 2 {
        ydays += 1;
    }

    proof {
        lemma_timestamp_of_in_domain(date);
    }
    let days = (year - 1970) * 365 + leap_years + ydays;
    let timestamp = date.sec as u64 + date.min as u64 * 60 + date.hour as u64 * 3600
        + days * 86400;
    proof {
        assert(timestamp as int == timestamp_of(date));
    }

    let expected_weekday = ((timestamp / 86400 + 4) % 7) as u8;
    if expected_weekday != date.weekday {
        Err(InvalidDate)
    } else {
        Ok(timestamp)
    }
}

} // verus!
