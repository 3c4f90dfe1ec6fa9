//! The format encoder: civil fields to the fixed 29-byte IMF-fixdate text
//! `Www, dd Mon yyyy HH:MM:SS GMT`, with two-digit and four-digit fields
//! rendered by decimal digit extraction.

use vstd::prelude::*;
use crate::date::{HttpDate, fields_in_range};

verus! {

/// The ASCII digit for a value in 0..=9.
pub open spec fn digit(v: int) -> u8 {
    (48 + v) as u8
}

/// The three-letter weekday names, indexed by the 0 = Sunday convention.
pub open spec fn weekday_name(w: int) -> Seq<u8> {
    if w == 0 { seq![83u8, 117u8, 110u8] }  // Sun
    else if w == 1 { seq![77u8, 111u8, 110u8] }  // Mon
    else if w == 2 { seq![84u8, 117u8, 101u8] }  // Tue
    else if w == 3 { seq![87u8, 101u8, 100u8] }  // Wed
    else if w == 4 { seq![84u8, 104u8, 117u8] }  // Thu
    else if w == 5 { seq![70u8, 114u8, 105u8] }  // Fri
    else { seq![83u8, 97u8, 116u8] }  // Sat
}

/// The three-letter month names, indexed 1 = January ... 12 = December.
pub open spec fn month_name(m: int) -> Seq<u8> {
    if m == 1 { seq![74u8, 97u8, 110u8] }  // Jan
    else if m == 2 { seq![70u8, 101u8, 98u8] }  // Feb
    else if m == 3 { seq![77u8, 97u8, 114u8] }  // Mar
    else if m == 4 { seq![65u8, 112u8, 114u8] }  // Apr
    else if m == 5 { seq![77u8, 97u8, 121u8] }  // May
    else if m == 6 { seq![74u8, 117u8, 110u8] }  // Jun
    else if m == 7 { seq![74u8, 117u8, 108u8] }  // Jul
    else if m == 8 { seq![65u8, 117u8, 103u8] }  // Aug
    else if m == 9 { seq![83u8, 101u8, 112u8] }  // Sep
    else if m == 10 { seq![79u8, 99u8, 116u8] }  // Oct
    else if m == 11 { seq![78u8, 111u8, 118u8] }  // Nov
    else { seq![68u8, 101u8, 99u8] }  // Dec
}

/// Byte `i` of the IMF-fixdate rendering of `dt`.
pub open spec fn imf_char(dt: HttpDate, i: int) -> u8 {
    if i <= 2 { weekday_name(dt.weekday as int)[i] }
    else if i == 3 { 44u8 }  // ','
    else if i == 4 { 32u8 }
    else if i == 5 { digit(dt.day as int / 10) }
    else if i == 6 { digit(dt.day as int % 10) }
    else if i == 7 { 32u8 }
    else if i <= 10 { month_name(dt.mon as int)[i - 8] }
    else if i == 11 { 32u8 }
    else if i == 12 { digit(dt.year as int / 1000) }
    else if i == 13 { digit(dt.year as int / 100 % 10) }
    else if i == 14 { digit(dt.year as int / 10 % 10) }
    else if i == 15 { digit(dt.year as int % 10) }
    else if i == 16 { 32u8 }
    else if i == 17 { digit(dt.hour as int / 10) }
    else if i == 18 { digit(dt.hour as int % 10) }
    else if i == 19 { 58u8 }  // ':'
    else if i == 20 { digit(dt.min as int / 10) }
    else if i == 21 { digit(dt.min as int % 10) }
    else if i == 22 { 58u8 }  // ':'
    else if i == 23 { digit(dt.sec as int / 10) }
    else if i == 24 { digit(dt.sec as int % 10) }
    else if i == 25 { 32u8 }
    else if i == 26 { 71u8 }  // 'G'
    else if i == 27 { 77u8 }  // 'M'
    else { 84u8 }  // 'T'
}

/// The full 29-byte IMF-fixdate rendering of `dt`.
pub open spec fn imf_render(dt: HttpDate) -> Seq<u8> {
    Seq::new(29, |i: int| imf_char(dt, i))
}

/// The three letters of the weekday name for `w` (0 = Sunday).
fn weekday_letters(w: u8) -> (r: (u8, u8, u8))
    requires
        w < 7,
    ensures
        r.0 == weekday_name(w as int)[0],
        r.1 == weekday_name(w as int)[1],
        r.2 == weekday_name(w as int)[2],
{
    match w {
        0 => (83u8, 117u8, 110u8),  // Sun
        1 => (77u8, 111u8, 110u8),  // Mon
        2 => (84u8, 117u8, 101u8),  // Tue
        3 => (87u8, 101u8, 100u8),  // Wed
        4 => (84u8, 104u8, 117u8),  // Thu
        5 => (70u8, 114u8, 105u8),  // Fri
        _ => (83u8, 97u8, 116u8),  // Sat
    }
}

/// The three letters of the month name for `m` (1 = January).
fn month_letters(m: u8) -> (r: (u8, u8, u8))
    requires
        1 <= m <= 12,
    ensures
        r.0 == month_name(m as int)[0],
        r.1 == month_name(m as int)[1],
        r.2 == month_name(m as int)[2],
{
    match m {
        1 => (74u8, 97u8, 110u8),  // Jan
        2 => (70u8, 101u8, 98u8),  // Feb
        3 => (77u8, 97u8, 114u8),  // Mar
        4 => (65u8, 112u8, 114u8),  // Apr
        5 => (77u8, 97u8, 121u8),  // May
        6 => (74u8, 117u8, 110u8),  // Jun
        7 => (74u8, 117u8, 108u8),  // Jul
        8 => (65u8, 117u8, 103u8),  // Aug
        9 => (83u8, 101u8, 112u8),  // Sep
        10 => (79u8, 99u8, 116u8),  // Oct
        11 => (78u8, 111u8, 118u8),  // Nov
        _ => (68u8, 101u8, 99u8),  // Dec
    }
}

/// Overwrite all 29 bytes of `buffer` with the IMF-fixdate rendering of `dt`.
pub fn render_imf(dt: &HttpDate, buffer: &mut [u8; 29])
    requires
        fields_in_range(*dt),
        dt.weekday < 7,
    ensures
        final(buffer)@ == imf_render(*dt),
{
    let (w0, w1, w2) = weekday_letters(dt.weekday);
    let (m0, m1, m2) = month_letters(dt.mon);

    buffer[0] = w0;
    buffer[1] = w1;
    buffer[2] = w2;
    buffer[3] = 44u8;  // ','
    buffer[4] = 32u8;
    buffer[5] = 48u8 + dt.day / 10;
    buffer[6] = 48u8 + dt.day % 10;
    buffer[7] = 32u8;
    buffer[8] = m0;
    buffer[9] = m1;
    buffer[10] = m2;
    buffer[11] = 32u8;
    buffer[12] = 48u8 + (dt.year / 1000) as u8;
    buffer[13] = 48u8 + (dt.year / 100 % 10) as u8;
    buffer[14] = 48u8 + (dt.year / 10 % 10) as u8;
    buffer[15] = 48u8 + (dt.year % 10) as u8;
    buffer[16] = 32u8;
    buffer[17] = 48u8 + dt.hour / 10;
    buffer[18] = 48u8 + dt.hour % 10;
    buffer[19] = 58u8;  // ':'
    buffer[20] = 48u8 + dt.min / 10;
    buffer[21] = 48u8 + dt.min % 10;
    buffer[22] = 58u8;  // ':'
    buffer[23] = 48u8 + dt.sec / 10;
    buffer[24] = 48u8 + dt.sec % 10;
    buffer[25] = 32u8;
    buffer[26] = 71u8;  // 'G'
    buffer[27] = 77u8;  // 'M'
    buffer[28] = 84u8;  // 'T'

    proof {
        assert(buffer@ =~= imf_render(*dt));
    }
}


/// The full weekday names of the RFC 850 grammar, by the 0 = Sunday
/// convention.
pub open spec fn weekday_full_name(w: int) -> Seq<u8> {
    if w == 0 { seq![83u8, 117u8, 110u8, 100u8, 97u8, 121u8] }  // Sunday
    else if w == 1 { seq![77u8, 111u8, 110u8, 100u8, 97u8, 121u8] }  // Monday
    else if w == 2 { seq![84u8, 117u8, 101u8, 115u8, 100u8, 97u8, 121u8] }  // Tuesday
    else if w == 3 { seq![87u8, 101u8, 100u8, 110u8, 101u8, 115u8, 100u8, 97u8, 121u8] }  // Wednesday
    else if w == 4 { seq![84u8, 104u8, 117u8, 114u8, 115u8, 100u8, 97u8, 121u8] }  // Thursday
    else if w == 5 { seq![70u8, 114u8, 105u8, 100u8, 97u8, 121u8] }  // Friday
    else { seq![83u8, 97u8, 116u8, 117u8, 114u8, 100u8, 97u8, 121u8] }  // Saturday
}

/// Byte `i` of the fixed 22-byte suffix `dd-Mon-yy HH:MM:SS GMT` of the
/// RFC 850 rendering of `dt`, with the year reduced to its last two digits.
pub open spec fn rfc850_suffix_char(dt: HttpDate, i: int) -> u8 {
    if i == 0 { digit(dt.day as int / 10) }
    else if i == 1 { digit(dt.day as int % 10) }
    else if i == 2 { 45u8 }  // '-'
    else if i <= 5 { month_name(dt.mon as int)[i - 3] }
    else if i == 6 { 45u8 }  // '-'
    else if i == 7 { digit(dt.year as int % 100 / 10) }
    else if i == 8 { digit(dt.year as int % 10) }
    else if i == 9 { 32u8 }
    else if i == 10 { digit(dt.hour as int / 10) }
    else if i == 11 { digit(dt.hour as int % 10) }
    else if i == 12 { 58u8 }  // ':'
    else if i == 13 { digit(dt.min as int / 10) }
    else if i == 14 { digit(dt.min as int % 10) }
    else if i == 15 { 58u8 }  // ':'
    else if i == 16 { digit(dt.sec as int / 10) }
    else if i == 17 { digit(dt.sec as int % 10) }
    else if i == 18 { 32u8 }
    else if i == 19 { 71u8 }  // 'G'
    else if i == 20 { 77u8 }  // 'M'
    else { 84u8 }
}

/// The RFC 850 rendering of `dt`, such as `Sunday, 06-Nov-94 08:49:37 GMT`:
/// the full weekday name, a comma and a space, then the fixed suffix.
pub open spec fn rfc850_render(dt: HttpDate) -> Seq<u8> {
    weekday_full_name(dt.weekday as int) + seq![44u8, 32u8]
        + Seq::new(22, |i: int| rfc850_suffix_char(dt, i))
}

/// Byte `i` of the 24-byte asctime rendering of `dt`, with the day padded
/// by a space when it is a single digit.
pub open spec fn asctime_char(dt: HttpDate, i: int) -> u8 {
    if i <= 2 { weekday_name(dt.weekday as int)[i] }
    else if i == 3 { 32u8 }
    else if i <= 6 { month_name(dt.mon as int)[i - 4] }
    else if i == 7 { 32u8 }
    else if i == 8 { if dt.day < 10 { 32u8 } else { digit(dt.day as int / 10) } }
    else if i == 9 { digit(dt.day as int % 10) }
    else if i == 10 { 32u8 }
    else if i == 11 { digit(dt.hour as int / 10) }
    else if i == 12 { digit(dt.hour as int % 10) }
    else if i == 13 { 58u8 }  // ':'
    else if i == 14 { digit(dt.min as int / 10) }
    else if i == 15 { digit(dt.min as int % 10) }
    else if i == 16 { 58u8 }  // ':'
    else if i == 17 { digit(dt.sec as int / 10) }
    else if i == 18 { digit(dt.sec as int % 10) }
    else if i == 19 { 32u8 }
    else if i == 20 { digit(dt.year as int / 1000) }
    else if i == 21 { digit(dt.year as int / 100 % 10) }
    else if i == 22 { digit(dt.year as int / 10 % 10) }
    else { digit(dt.year as int % 10) }
}

/// The asctime rendering of `dt`, such as `Sun Nov  6 08:49:37 1994`.
pub open spec fn asctime_render(dt: HttpDate) -> Seq<u8> {
    Seq::new(24, |i: int| asctime_char(dt, i))
}

} // verus!
