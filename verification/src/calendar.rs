//! The calendar converter: from a timestamp to civil-date fields by fixed
//! 400 / 100 / 4 / 1-year cycle decomposition, with the proof that the result
//! denotes exactly the timestamp it came from.

use vstd::prelude::*;
use vstd::arithmetic::div_mod::{lemma_fundamental_div_mod, lemma_fundamental_div_mod_converse};
use crate::date::{
    HttpDate, date_exists, day_index, days_before_month, fields_in_range, is_leap_year,
    leap_days_before, month_length, timestamp_of, weekday_consistent,
};

verus! {

/// Days from the start of a March-based year to the start of its `k`-th
/// month, counting March as month 1 and February as month 12.  Re-basing at
/// March puts the leap day at the very end of the cycle arithmetic.
pub open spec fn march_cum(k: int) -> int {
    if k <= 0 { 0 }
    else if k == 1 { 31 }
    else if k == 2 { 61 }
    else if k == 3 { 92 }
    else if k == 4 { 122 }
    else if k == 5 { 153 }
    else if k == 6 { 184 }
    else if k == 7 { 214 }
    else if k == 8 { 245 }
    else if k == 9 { 275 }
    else if k == 10 { 306 }
    else if k == 11 { 337 }
    else { 366 }
}

/// The March-based month (1 = March ... 12 = February) that day `doy` of a
/// March-based year falls in.
pub open spec fn march_month(doy: int) -> int {
    if doy < 31 { 1 }
    else if doy < 61 { 2 }
    else if doy < 92 { 3 }
    else if doy < 122 { 4 }
    else if doy < 153 { 5 }
    else if doy < 184 { 6 }
    else if doy < 214 { 7 }
    else if doy < 245 { 8 }
    else if doy < 275 { 9 }
    else if doy < 306 { 10 }
    else if doy < 337 { 11 }
    else { 12 }
}

/// The civil fields of timestamp `t`: the day count is re-based to
/// 1600-03-01 (135080 days before the epoch) and decomposed into 400-year,
/// 100-year, 4-year and 1-year cycles; the remaining day of the March-based
/// year picks the month and day; hour, minute and second come from the
/// seconds of the day.
pub open spec fn fields_of(t: int) -> HttpDate {
    let sod = t % 86400;
    let z = t / 86400 + 135080;
    let era = z / 146097;
    let doe = z % 146097;
    let c = if doe / 36524 == 4 { 3int } else { doe / 36524 };
    let r2 = doe - 36524 * c;
    let q = if r2 / 1461 == 25 { 24int } else { r2 / 1461 };
    let r3 = r2 - 1461 * q;
    let ry = if r3 / 365 == 4 { 3int } else { r3 / 365 };
    let doy = r3 - 365 * ry;
    let marchyear = 1600 + 400 * era + 100 * c + 4 * q + ry;
    let mm = march_month(doy);
    let mday = doy - march_cum(mm - 1) + 1;
    HttpDate {
        sec: (sod % 60) as u8,
        min: ((sod % 3600) / 60) as u8,
        hour: (sod / 3600) as u8,
        day: mday as u8,
        mon: if mm > 10 { (mm - 10) as u8 } else { (mm + 2) as u8 },
        year: if mm > 10 { (marchyear + 1) as u16 } else { marchyear as u16 },
        weekday: ((t / 86400 + 4) % 7) as u8,
    }
}

/// Counting the leap years in [1970, y] closes to inclusion-exclusion on `y`
/// itself: there are 477 leap years in [1, 1969].
proof fn lemma_leap_closed(y: int)
    requires
        1600 <= y,
    ensures
        leap_days_before(y) + (if is_leap_year(y) { 1int } else { 0int })
            == y / 4 - y / 100 + y / 400 - 477,
{
    assert((y - 1969) / 4 + (if y % 4 == 0 { 1int } else { 0int }) == y / 4 - 492);
    assert((y - 1901) / 100 + (if y % 100 == 0 { 1int } else { 0int }) == y / 100 - 19);
    assert((y - 1601) / 400 + (if y % 400 == 0 { 1int } else { 0int }) == y / 400 - 4);
}

/// Stepping a year adds one leap day to the count exactly when the year
/// stepped over is leap.
proof fn lemma_leap_step(y: int)
    ensures
        leap_days_before(y + 1)
            == leap_days_before(y) + (if is_leap_year(y) { 1int } else { 0int }),
{
    lemma_div_step(y - 1969, 4);
    lemma_div_step(y - 1901, 100);
    lemma_div_step(y - 1601, 400);
    assert(y % 4 == (y - 1968) % 4) by {
        lemma_fundamental_div_mod(y - 1968, 4);
        lemma_fundamental_div_mod_converse((y - 1968) as int + 4 * 492, 4, (y - 1968) / 4 + 492, (y - 1968) % 4);
    }
    assert(y % 100 == (y - 1900) % 100) by {
        lemma_fundamental_div_mod(y - 1900, 100);
        lemma_fundamental_div_mod_converse((y - 1900) as int + 100 * 19, 100, (y - 1900) / 100 + 19, (y - 1900) % 100);
    }
    assert(y % 400 == (y - 1600) % 400) by {
        lemma_fundamental_div_mod(y - 1600, 400);
        lemma_fundamental_div_mod_converse((y - 1600) as int + 400 * 4, 400, (y - 1600) / 400 + 4, (y - 1600) % 400);
    }
}

/// Raising a dividend by one raises the quotient exactly at multiples of the
/// divisor.
proof fn lemma_div_step(x: int, d: int)
    requires
        d > 0,
    ensures
        (x + 1) / d == x / d + (if (x + 1) % d == 0 { 1int } else { 0int }),
{
    lemma_fundamental_div_mod(x, d);
    assert(d * (x / d) == (x / d) * d) by (nonlinear_arith);
    assert((x / d + 1) * d == (x / d) * d + d) by (nonlinear_arith);
    if x % d == d - 1 {
        lemma_fundamental_div_mod_converse(x + 1, d, x / d + 1, 0);
    } else {
        lemma_fundamental_div_mod_converse(x + 1, d, x / d, x % d + 1);
    }
}

/// The start of the March-based year `1600 + 400 era + 100 c + 4 q + ry` lies
/// exactly `146097 era + 36524 c + 1461 q + 365 ry` days after 1600-03-01.
proof fn lemma_march_base(era: int, c: int, q: int, ry: int)
    requires
        0 <= era,
        0 <= c <= 3,
        0 <= q <= 24,
        0 <= ry <= 3,
    ensures
        day_index(1600 + 400 * era + 100 * c + 4 * q + ry, 3, 1)
            == 146097 * era + 36524 * c + 1461 * q + 365 * ry - 135080,
{
    let y = 1600 + 400 * era + 100 * c + 4 * q + ry;
    lemma_leap_closed(y);
    assert(y / 4 == 400 + 100 * era + 25 * c + q);
    assert(y / 100 == 16 + 4 * era + c);
    assert(y / 400 == 4 + era);
}

/// Correctness of the cycle decomposition: for every timestamp below the
/// year-10000 bound the computed fields are in range, name a day that exists
/// in its month, carry the weekday of the timestamp, and denote exactly the
/// timestamp they came from.
#[verifier::rlimit(100)]
#[verifier::spinoff_prover]
pub proof fn lemma_fields_of_correct(t: int)
    requires
        0 <= t < 253402300800,
    ensures
        fields_in_range(fields_of(t)),
        date_exists(fields_of(t)),
        fields_of(t).weekday < 7,
        timestamp_of(fields_of(t)) == t,
        weekday_consistent(fields_of(t)),
{
    let day = t / 86400;
    let sod = t % 86400;
    assert(0 <= day <= 2932896);
    assert(0 <= sod < 86400);
    assert(t == day * 86400 + sod);

    let z = day + 135080;
    let era = z / 146097;
    let doe = z % 146097;
    assert(0 <= era <= 20);
    assert(0 <= doe <= 146096);
    assert(z == era * 146097 + doe);

    let c = if doe / 36524 == 4 { 3int } else { doe / 36524 };
    let r2 = doe - 36524 * c;
    assert(0 <= c <= 3);
    assert(0 <= r2 <= 36524);
    assert(r2 == 36524 ==> c == 3 && doe == 146096);

    let q = if r2 / 1461 == 25 { 24int } else { r2 / 1461 };
    let r3 = r2 - 1461 * q;
    assert(0 <= q <= 24);
    assert(0 <= r3 <= 1460);
    assert(r3 == 1460 && q == 24 ==> r2 == 36524);

    let ry = if r3 / 365 == 4 { 3int } else { r3 / 365 };
    let doy = r3 - 365 * ry;
    assert(0 <= ry <= 3);
    assert(0 <= doy <= 365);
    assert(doy == 365 ==> r3 == 1460 && ry == 3);

    let marchyear = 1600 + 400 * era + 100 * c + 4 * q + ry;
    lemma_march_base(era, c, q, ry);
    assert(day_index(marchyear, 3, 1) == day - doy);

    let mm = march_month(doy);
    let mcum = march_cum(mm - 1);
    let mday = doy - mcum + 1;
    assert(1 <= mm <= 12);
    assert(mcum <= doy < march_cum(mm));
    assert(1 <= mday <= march_cum(mm) - mcum);

    let dt = fields_of(t);

    // Hour, minute, second decompose the seconds of the day.
    assert(dt.hour as int == sod / 3600 && dt.hour < 24);
    assert(dt.min as int == (sod % 3600) / 60 && dt.min < 60);
    assert(dt.sec as int == sod % 60 && dt.sec < 60);
    assert(dt.hour as int * 3600 + dt.min as int * 60 + dt.sec as int == sod);

    // The weekday field is the day count mod 7.
    assert(dt.weekday as int == (day + 4) % 7 && dt.weekday < 7);

    if mm <= 10 {
        // March through December keep the March-based year.
        assert(dt.year as int == marchyear);
        assert(dt.mon as int == mm + 2);
        assert(dt.day as int == mday);
        assert(1970 <= marchyear <= 9999);
        assert(day_index(marchyear, mm + 2, mday)
            == day_index(marchyear, 3, 1) + (days_before_month(mm + 2) - 59) + (mday - 1));
        assert(days_before_month(mm + 2) - 59 == mcum);
        assert(day_index(dt.year as int, dt.mon as int, dt.day as int) == day);
        assert(dt.day <= month_length(dt.year as int, dt.mon as int));
    } else {
        // January and February belong to the following calendar year.
        assert(dt.year as int == marchyear + 1);
        assert(dt.mon as int == mm - 10);
        assert(dt.day as int == mday);
        assert(1970 <= marchyear + 1 <= 9999);
        lemma_leap_step(marchyear);
        assert(leap_days_before(marchyear + 1)
            == leap_days_before(marchyear)
                + (if is_leap_year(marchyear) { 1int } else { 0int }));
        assert(day_index(marchyear + 1, mm - 10, mday)
            == day_index(marchyear, 3, 1) + 305 + days_before_month(mm - 10) + mday);
        assert(306 + days_before_month(mm - 10) - mcum == 0);
        assert(day_index(dt.year as int, dt.mon as int, dt.day as int) == day);
        if mm == 12 && mday == 29 {
            // A leap day comes out only when the cycle arithmetic placed the
            // year last in its 4-year cycle, which makes the next calendar
            // year a leap year.
            assert(doy == 365 && ry == 3);
            let y = marchyear + 1;
            assert(y == 1604 + 400 * era + 100 * c + 4 * q);
            assert(y % 4 == 0);
            if q == 24 {
                assert(r2 == 36524 && c == 3);
                assert(y == 2000 + 400 * era);
                assert(y % 400 == 0);
            } else {
                assert(y % 100 == 4 + 4 * q);
            }
            assert(is_leap_year(y));
        }
        assert(dt.day <= month_length(dt.year as int, dt.mon as int));
    }

    assert(timestamp_of(dt) == day * 86400 + sod);
}

/// The length of the `i`-th month of a March-based year (0 = March ...
/// 11 = February, whose table entry 29 stands last so that the cycle
/// arithmetic already accounts for the leap day).
fn march_month_len(i: u64) -> (n: u64)
    requires
        i < 12,
    ensures
        n as int == march_cum(i as int + 1) - march_cum(i as int),
{
    match i {
        0 => 31,
        1 => 30,
        2 => 31,
        3 => 30,
        4 => 31,
        5 => 31,
        6 => 30,
        7 => 31,
        8 => 30,
        9 => 31,
        10 => 31,
        _ => 29,
    }
}

/// A day of a March-based year lies in the month whose cumulative bounds
/// enclose it.
proof fn lemma_march_month_char(doy: int, k: int)
    requires
        0 <= k <= 11,
        march_cum(k) <= doy < march_cum(k + 1),
    ensures
        march_month(doy) == k + 1,
{
}

/// Convert a timestamp below the year-10000 bound to its civil fields.
pub fn timestamp_to_fields(secs: u64) -> (dt: HttpDate)
    requires
        secs < 253402300800,
    ensures
        dt == fields_of(secs as int),
{
    let day: u64 = secs / 86400;
    let sod: u64 = secs % 86400;

    let z: u64 = day + 135080;
    let era: u64 = z / 146097;
    let doe: u64 = z % 146097;

    let mut c: u64 = doe / 36524;
    if c == 4 {
        c = 3;
    }
    let r2: u64 = doe - 36524 * c;

    let mut q: u64 = r2 / 1461;
    if q == 25 {
        q = 24;
    }
    let r3: u64 = r2 - 1461 * q;

    let mut ry: u64 = r3 / 365;
    if ry == 4 {
        ry = 3;
    }
    let doy: u64 = r3 - 365 * ry;

    let marchyear: u64 = 1600 + 400 * era + 100 * c + 4 * q + ry;

    let mut mm: u64 = 0;
    let mut rem: u64 = doy;
    while rem >= march_month_len(mm)
        invariant
            mm <= 11,
            doy <= 365,
            march_cum(mm as int) <= doy as int,
            rem as int == doy as int - march_cum(mm as int),
        decreases 12 - mm,
    {
        rem = rem - march_month_len(mm);
        mm = mm + 1;
    }
    proof {
        lemma_march_month_char(doy as int, mm as int);
    }
    let mday: u64 = rem + 1;

    let year: u64 = if mm >= 10 { marchyear + 1 } else { marchyear };
    let mon: u64 = if mm >= 10 { mm - 9 } else { mm + 3 };

    let dt = HttpDate {
        sec: (sod % 60) as u8,
        min: ((sod % 3600) / 60) as u8,
        hour: (sod / 3600) as u8,
        day: mday as u8,
        mon: mon as u8,
        year: year as u16,
        weekday: ((day + 4) % 7) as u8,
    };
    dt
}

} // verus!
