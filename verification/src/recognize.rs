//! The date text recognizer: raw bytes to civil fields, trying the three
//! grammars IMF-fixdate, RFC 850 and asctime in that order.  Every grammar is
//! a fixed-width pattern of literal separators, name-table lookups and
//! decimal digit fields, stated here byte by byte.

use vstd::prelude::*;
use crate::date::{HttpDate, fields_in_range, timestamp_of, weekday_consistent};
use crate::InvalidDate;

verus! {

/// An ASCII decimal digit.
pub open spec fn is_digit(b: u8) -> bool {
    48 <= b <= 57
}

/// The value of an ASCII decimal digit.
pub open spec fn digit_val(b: u8) -> int {
    b - 48
}

/// A two-digit decimal field at offset `i`.
pub open spec fn two_digit_field(s: Seq<u8>, i: int) -> Option<int> {
    if is_digit(s[i]) && is_digit(s[i + 1]) {
        Some(10 * digit_val(s[i]) + digit_val(s[i + 1]))
    } else {
        None
    }
}

/// A four-digit decimal field at offset `i`.
pub open spec fn four_digit_field(s: Seq<u8>, i: int) -> Option<int> {
    if is_digit(s[i]) && is_digit(s[i + 1]) && is_digit(s[i + 2]) && is_digit(s[i + 3]) {
        Some(
            1000 * digit_val(s[i]) + 100 * digit_val(s[i + 1]) + 10 * digit_val(s[i + 2])
                + digit_val(s[i + 3]),
        )
    } else {
        None
    }
}

/// The month numbered 1..=12 whose three-letter name is `a b c`, if any.
pub open spec fn month_code(a: u8, b: u8, c: u8) -> Option<int> {
    if a == 74 && b == 97 && c == 110 { Some(1int) }  // Jan
    else if a == 70 && b == 101 && c == 98 { Some(2int) }  // Feb
    else if a == 77 && b == 97 && c == 114 { Some(3int) }  // Mar
    else if a == 65 && b == 112 && c == 114 { Some(4int) }  // Apr
    else if a == 77 && b == 97 && c == 121 { Some(5int) }  // May
    else if a == 74 && b == 117 && c == 110 { Some(6int) }  // Jun
    else if a == 74 && b == 117 && c == 108 { Some(7int) }  // Jul
    else if a == 65 && b == 117 && c == 103 { Some(8int) }  // Aug
    else if a == 83 && b == 101 && c == 112 { Some(9int) }  // Sep
    else if a == 79 && b == 99 && c == 116 { Some(10int) }  // Oct
    else if a == 78 && b == 111 && c == 118 { Some(11int) }  // Nov
    else if a == 68 && b == 101 && c == 99 { Some(12int) }  // Dec
    else { None }
}

/// The weekday numbered 0 = Sunday ... 6 = Saturday whose three-letter
/// name is `a b c`, if any.
pub open spec fn weekday_code(a: u8, b: u8, c: u8) -> Option<int> {
    if a == 83 && b == 117 && c == 110 { Some(0int) }  // Sun
    else if a == 77 && b == 111 && c == 110 { Some(1int) }  // Mon
    else if a == 84 && b == 117 && c == 101 { Some(2int) }  // Tue
    else if a == 87 && b == 101 && c == 100 { Some(3int) }  // Wed
    else if a == 84 && b == 104 && c == 117 { Some(4int) }  // Thu
    else if a == 70 && b == 114 && c == 105 { Some(5int) }  // Fri
    else if a == 83 && b == 97 && c == 116 { Some(6int) }  // Sat
    else { None }
}

/// The full weekday name followed by a comma and a space that the input
/// starts with, if any, as the weekday number and the prefix length.
pub open spec fn rfc850_prefix(s: Seq<u8>) -> Option<(int, int)> {
    if s.len() >= 8 && s[0] == 83 && s[1] == 117 && s[2] == 110 && s[3] == 100 && s[4] == 97 && s[5] == 121 && s[6] == 44 && s[7] == 32 {  // Sunday,
        Some((0int, 8int))
    }
    else if s.len() >= 8 && s[0] == 77 && s[1] == 111 && s[2] == 110 && s[3] == 100 && s[4] == 97 && s[5] == 121 && s[6] == 44 && s[7] == 32 {  // Monday,
        Some((1int, 8int))
    }
    else if s.len() >= 9 && s[0] == 84 && s[1] == 117 && s[2] == 101 && s[3] == 115 && s[4] == 100 && s[5] == 97 && s[6] == 121 && s[7] == 44 && s[8] == 32 {  // Tuesday,
        Some((2int, 9int))
    }
    else if s.len() >= 11 && s[0] == 87 && s[1] == 101 && s[2] == 100 && s[3] == 110 && s[4] == 101 && s[5] == 115 && s[6] == 100 && s[7] == 97 && s[8] == 121 && s[9] == 44 && s[10] == 32 {  // Wednesday,
        Some((3int, 11int))
    }
    else if s.len() >= 10 && s[0] == 84 && s[1] == 104 && s[2] == 117 && s[3] == 114 && s[4] == 115 && s[5] == 100 && s[6] == 97 && s[7] == 121 && s[8] == 44 && s[9] == 32 {  // Thursday,
        Some((4int, 10int))
    }
    else if s.len() >= 8 && s[0] == 70 && s[1] == 114 && s[2] == 105 && s[3] == 100 && s[4] == 97 && s[5] == 121 && s[6] == 44 && s[7] == 32 {  // Friday,
        Some((5int, 8int))
    }
    else if s.len() >= 10 && s[0] == 83 && s[1] == 97 && s[2] == 116 && s[3] == 117 && s[4] == 114 && s[5] == 100 && s[6] == 97 && s[7] == 121 && s[8] == 44 && s[9] == 32 {  // Saturday,
        Some((6int, 10int))
    }
    else { None }
}

/// The fields of a 29-byte IMF-fixdate such as `Sun, 06 Nov 1994 08:49:37
/// GMT`: a three-letter weekday, a two-digit day, a three-letter month, a
/// four-digit year and a colon-separated time, all at fixed offsets.
pub open spec fn imf_fields(s: Seq<u8>) -> Option<HttpDate> {
    if s.len() == 29
        && weekday_code(s[0], s[1], s[2]) is Some && s[3] == 44 && s[4] == 32
        && two_digit_field(s, 5) is Some && s[7] == 32
        && month_code(s[8], s[9], s[10]) is Some && s[11] == 32
        && four_digit_field(s, 12) is Some && s[16] == 32
        && two_digit_field(s, 17) is Some && s[19] == 58
        && two_digit_field(s, 20) is Some && s[22] == 58
        && two_digit_field(s, 23) is Some
        && s[25] == 32 && s[26] == 71 && s[27] == 77 && s[28] == 84
    {
        Some(HttpDate {
            sec: two_digit_field(s, 23).unwrap() as u8,
            min: two_digit_field(s, 20).unwrap() as u8,
            hour: two_digit_field(s, 17).unwrap() as u8,
            day: two_digit_field(s, 5).unwrap() as u8,
            mon: month_code(s[8], s[9], s[10]).unwrap() as u8,
            year: four_digit_field(s, 12).unwrap() as u16,
            weekday: weekday_code(s[0], s[1], s[2]).unwrap() as u8,
        })
    } else {
        None
    }
}

/// The calendar year that a two-digit RFC 850 year denotes, windowed so that
/// values below 70 fall in the 2000s and the rest in the 1900s.
pub open spec fn rfc850_year(yy: int) -> int {
    if yy < 70 { yy + 2000 } else { yy + 1900 }
}

/// The fields of an RFC 850 date such as `Sunday, 06-Nov-94 08:49:37 GMT`: a
/// full weekday name, then a fixed 22-byte suffix with a dash-separated date,
/// a two-digit year and a colon-separated time.
pub open spec fn rfc850_fields(s: Seq<u8>) -> Option<HttpDate> {
    match rfc850_prefix(s) {
        Some((w, p)) => {
            if s.len() == p + 22
                && two_digit_field(s, p) is Some && s[p + 2] == 45
                && month_code(s[p + 3], s[p + 4], s[p + 5]) is Some && s[p + 6] == 45
                && two_digit_field(s, p + 7) is Some && s[p + 9] == 32
                && two_digit_field(s, p + 10) is Some && s[p + 12] == 58
                && two_digit_field(s, p + 13) is Some && s[p + 15] == 58
                && two_digit_field(s, p + 16) is Some
                && s[p + 18] == 32 && s[p + 19] == 71 && s[p + 20] == 77 && s[p + 21] == 84
            {
                Some(HttpDate {
                    sec: two_digit_field(s, p + 16).unwrap() as u8,
                    min: two_digit_field(s, p + 13).unwrap() as u8,
                    hour: two_digit_field(s, p + 10).unwrap() as u8,
                    day: two_digit_field(s, p).unwrap() as u8,
                    mon: month_code(s[p + 3], s[p + 4], s[p + 5]).unwrap() as u8,
                    year: rfc850_year(two_digit_field(s, p + 7).unwrap()) as u16,
                    weekday: w as u8,
                })
            } else {
                None
            }
        },
        None => None,
    }
}

/// The day-of-month field of an asctime date: two digits, or a space and one
/// digit for days below 10.
pub open spec fn asctime_day(s: Seq<u8>) -> Option<int> {
    if s[8] == 32 {
        if is_digit(s[9]) { Some(digit_val(s[9])) } else { None }
    } else {
        two_digit_field(s, 8)
    }
}

/// The fields of a 24-byte asctime date such as `Sun Nov  6 08:49:37 1994`:
/// a three-letter weekday and month, a space-padded day, a colon-separated
/// time, and a trailing four-digit year.
pub open spec fn asctime_fields(s: Seq<u8>) -> Option<HttpDate> {
    if s.len() == 24
        && weekday_code(s[0], s[1], s[2]) is Some && s[3] == 32
        && month_code(s[4], s[5], s[6]) is Some && s[7] == 32
        && asctime_day(s) is Some && s[10] == 32
        && two_digit_field(s, 11) is Some && s[13] == 58
        && two_digit_field(s, 14) is Some && s[16] == 58
        && two_digit_field(s, 17) is Some && s[19] == 32
        && four_digit_field(s, 20) is Some
    {
        Some(HttpDate {
            sec: two_digit_field(s, 17).unwrap() as u8,
            min: two_digit_field(s, 14).unwrap() as u8,
            hour: two_digit_field(s, 11).unwrap() as u8,
            day: asctime_day(s).unwrap() as u8,
            mon: month_code(s[4], s[5], s[6]).unwrap() as u8,
            year: four_digit_field(s, 20).unwrap() as u16,
            weekday: weekday_code(s[0], s[1], s[2]).unwrap() as u8,
        })
    } else {
        None
    }
}

/// The civil fields of an input that any of the three grammars recognizes,
/// trying IMF-fixdate, then RFC 850, then asctime.
pub open spec fn recognized_fields(s: Seq<u8>) -> Option<HttpDate> {
    if imf_fields(s) is Some {
        imf_fields(s)
    } else if rfc850_fields(s) is Some {
        rfc850_fields(s)
    } else {
        asctime_fields(s)
    }
}


/// Decode one ASCII digit by wrapping subtraction: bytes below `'0'` wrap to
/// large values and fail the `< 10` check together with bytes above `'9'`.
fn toint_1(x: u8) -> (r: Result<u8, InvalidDate>)
    ensures
        is_digit(x) ==> r == Ok::<u8, InvalidDate>((x - 48) as u8),
        !is_digit(x) ==> r == Err::<u8, InvalidDate>(InvalidDate),
{
    let result = x.wrapping_sub(48);
    if result < 10 {
        Ok(result)
    } else {
        Err(InvalidDate)
    }
}

/// Decode a two-digit decimal field from its two bytes.
fn toint_2(a: u8, b: u8) -> (r: Result<u8, InvalidDate>)
    ensures
        is_digit(a) && is_digit(b)
            ==> r == Ok::<u8, InvalidDate>((10 * digit_val(a) + digit_val(b)) as u8),
        !(is_digit(a) && is_digit(b)) ==> r == Err::<u8, InvalidDate>(InvalidDate),
{
    let high = a.wrapping_sub(48);
    let low = b.wrapping_sub(48);

    if high < 10 && low < 10 {
        Ok(high * 10 + low)
    } else {
        Err(InvalidDate)
    }
}

/// Decode a four-digit decimal field from its four bytes.
fn toint_4(a: u8, b: u8, c: u8, d: u8) -> (r: Result<u16, InvalidDate>)
    ensures
        is_digit(a) && is_digit(b) && is_digit(c) && is_digit(d)
            ==> r == Ok::<u16, InvalidDate>(
                (1000 * digit_val(a) + 100 * digit_val(b) + 10 * digit_val(c)
                    + digit_val(d)) as u16,
            ),
        !(is_digit(a) && is_digit(b) && is_digit(c) && is_digit(d))
            ==> r == Err::<u16, InvalidDate>(InvalidDate),
{
    let va = a.wrapping_sub(48) as u16;
    let vb = b.wrapping_sub(48) as u16;
    let vc = c.wrapping_sub(48) as u16;
    let vd = d.wrapping_sub(48) as u16;

    if va < 10 && vb < 10 && vc < 10 && vd < 10 {
        Ok(va * 1000 + vb * 100 + vc * 10 + vd)
    } else {
        Err(InvalidDate)
    }
}


/// Look a three-letter month name up in the closed table.
fn month_from(a: u8, b: u8, c: u8) -> (r: Option<u8>)
    ensures
        month_code(a, b, c) is Some ==> r == Some::<u8>(month_code(a, b, c).unwrap() as u8),
        month_code(a, b, c) is None ==> r is None,
{
    if a == 74 && b == 97 && c == 110 {  // Jan
        Some(1)
    } else if a == 70 && b == 101 && c == 98 {  // Feb
        Some(2)
    } else if a == 77 && b == 97 && c == 114 {  // Mar
        Some(3)
    } else if a == 65 && b == 112 && c == 114 {  // Apr
        Some(4)
    } else if a == 77 && b == 97 && c == 121 {  // May
        Some(5)
    } else if a == 74 && b == 117 && c == 110 {  // Jun
        Some(6)
    } else if a == 74 && b == 117 && c == 108 {  // Jul
        Some(7)
    } else if a == 65 && b == 117 && c == 103 {  // Aug
        Some(8)
    } else if a == 83 && b == 101 && c == 112 {  // Sep
        Some(9)
    } else if a == 79 && b == 99 && c == 116 {  // Oct
        Some(10)
    } else if a == 78 && b == 111 && c == 118 {  // Nov
        Some(11)
    } else if a == 68 && b == 101 && c == 99 {  // Dec
        Some(12)
    } else {
        None
    }
}


/// Look a three-letter weekday name up in the closed table.
fn weekday_from(a: u8, b: u8, c: u8) -> (r: Option<u8>)
    ensures
        weekday_code(a, b, c) is Some ==> r == Some::<u8>(weekday_code(a, b, c).unwrap() as u8),
        weekday_code(a, b, c) is None ==> r is None,
{
    if a == 83 && b == 117 && c == 110 {  // Sun
        Some(0)
    } else if a == 77 && b == 111 && c == 110 {  // Mon
        Some(1)
    } else if a == 84 && b == 117 && c == 101 {  // Tue
        Some(2)
    } else if a == 87 && b == 101 && c == 100 {  // Wed
        Some(3)
    } else if a == 84 && b == 104 && c == 117 {  // Thu
        Some(4)
    } else if a == 70 && b == 114 && c == 105 {  // Fri
        Some(5)
    } else if a == 83 && b == 97 && c == 116 {  // Sat
        Some(6)
    } else {
        None
    }
}


/// Match the full weekday name and the comma and space after it at the
/// start of an RFC 850 date, returning the weekday and the prefix length.
fn rfc850_weekday(s: &[u8]) -> (r: Option<(u8, usize)>)
    requires
        s@.len() >= 11,
    ensures
        rfc850_prefix(s@) is Some ==> {
            &&& r is Some
            &&& r.unwrap().0 as int == rfc850_prefix(s@).unwrap().0
            &&& r.unwrap().1 as int == rfc850_prefix(s@).unwrap().1
            &&& 8 <= r.unwrap().1 <= 11
        },
        rfc850_prefix(s@) is None ==> r is None,
{
    if s[0] == 83 && s[1] == 117 && s[2] == 110 && s[3] == 100 && s[4] == 97 && s[5] == 121 && s[6] == 44 && s[7] == 32 {  // Sunday,
        Some((0, 8))
    } else if s[0] == 77 && s[1] == 111 && s[2] == 110 && s[3] == 100 && s[4] == 97 && s[5] == 121 && s[6] == 44 && s[7] == 32 {  // Monday,
        Some((1, 8))
    } else if s[0] == 84 && s[1] == 117 && s[2] == 101 && s[3] == 115 && s[4] == 100 && s[5] == 97 && s[6] == 121 && s[7] == 44 && s[8] == 32 {  // Tuesday,
        Some((2, 9))
    } else if s[0] == 87 && s[1] == 101 && s[2] == 100 && s[3] == 110 && s[4] == 101 && s[5] == 115 && s[6] == 100 && s[7] == 97 && s[8] == 121 && s[9] == 44 && s[10] == 32 {  // Wednesday,
        Some((3, 11))
    } else if s[0] == 84 && s[1] == 104 && s[2] == 117 && s[3] == 114 && s[4] == 115 && s[5] == 100 && s[6] == 97 && s[7] == 121 && s[8] == 44 && s[9] == 32 {  // Thursday,
        Some((4, 10))
    } else if s[0] == 70 && s[1] == 114 && s[2] == 105 && s[3] == 100 && s[4] == 97 && s[5] == 121 && s[6] == 44 && s[7] == 32 {  // Friday,
        Some((5, 8))
    } else if s[0] == 83 && s[1] == 97 && s[2] == 116 && s[3] == 117 && s[4] == 114 && s[5] == 100 && s[6] == 97 && s[7] == 121 && s[8] == 44 && s[9] == 32 {  // Saturday,
        Some((6, 10))
    } else {
        None
    }
}


/// Recognize a 29-byte IMF-fixdate such as `Sun, 06 Nov 1994 08:49:37 GMT`.
pub(crate) fn parse_imf_fixdate(s: &[u8]) -> (r: Result<HttpDate, InvalidDate>)
    ensures
        imf_fields(s@) is Some ==> r == Ok::<HttpDate, InvalidDate>(imf_fields(s@).unwrap()),
        imf_fields(s@) is None ==> r == Err::<HttpDate, InvalidDate>(InvalidDate),
{
    if s.len() != 29 {
        return Err(InvalidDate);
    }
    if s[25] != 32 || s[26] != 71 || s[27] != 77 || s[28] != 84 {  // " GMT"
        return Err(InvalidDate);
    }
    if s[16] != 32 || s[19] != 58 || s[22] != 58 || s[3] != 44 || s[4] != 32 || s[7] != 32
        || s[11] != 32 {
        return Err(InvalidDate);
    }
    let weekday = match weekday_from(s[0], s[1], s[2]) {
        Some(w) => w,
        None => {
            return Err(InvalidDate);
        },
    };
    let mon = match month_from(s[8], s[9], s[10]) {
        Some(m) => m,
        None => {
            return Err(InvalidDate);
        },
    };
    let day = toint_2(s[5], s[6])?;
    let year = toint_4(s[12], s[13], s[14], s[15])?;
    let hour = toint_2(s[17], s[18])?;
    let min = toint_2(s[20], s[21])?;
    let sec = toint_2(s[23], s[24])?;

    Ok(HttpDate { sec, min, hour, day, mon, year, weekday })
}

/// Recognize an RFC 850 date such as `Sunday, 06-Nov-94 08:49:37 GMT`.
pub(crate) fn parse_rfc850_date(s: &[u8]) -> (r: Result<HttpDate, InvalidDate>)
    ensures
        rfc850_fields(s@) is Some ==> r == Ok::<HttpDate, InvalidDate>(rfc850_fields(s@).unwrap()),
        rfc850_fields(s@) is None ==> r == Err::<HttpDate, InvalidDate>(InvalidDate),
{
    if s.len() < 23 {
        return Err(InvalidDate);
    }
    let (weekday, p) = match rfc850_weekday(s) {
        Some(wp) => wp,
        None => {
            return Err(InvalidDate);
        },
    };
    if s.len() != p + 22 {
        return Err(InvalidDate);
    }
    if s[p + 2] != 45 || s[p + 6] != 45 || s[p + 9] != 32 || s[p + 12] != 58 || s[p + 15] != 58
        || s[p + 18] != 32 || s[p + 19] != 71 || s[p + 20] != 77 || s[p + 21] != 84 {
        return Err(InvalidDate);
    }
    let mon = match month_from(s[p + 3], s[p + 4], s[p + 5]) {
        Some(m) => m,
        None => {
            return Err(InvalidDate);
        },
    };
    let day = toint_2(s[p], s[p + 1])?;
    let mut year = toint_2(s[p + 7], s[p + 8])? as u16;
    if year < 70 {
        year += 2000;
    } else {
        year += 1900;
    }
    let hour = toint_2(s[p + 10], s[p + 11])?;
    let min = toint_2(s[p + 13], s[p + 14])?;
    let sec = toint_2(s[p + 16], s[p + 17])?;

    Ok(HttpDate { sec, min, hour, day, mon, year, weekday })
}

/// Recognize a 24-byte asctime date such as `Sun Nov  6 08:49:37 1994`.
pub(crate) fn parse_asctime(s: &[u8]) -> (r: Result<HttpDate, InvalidDate>)
    ensures
        asctime_fields(s@) is Some ==> r == Ok::<HttpDate, InvalidDate>(asctime_fields(s@).unwrap()),
        asctime_fields(s@) is None ==> r == Err::<HttpDate, InvalidDate>(InvalidDate),
{
    if s.len() != 24 {
        return Err(InvalidDate);
    }
    if s[10] != 32 || s[13] != 58 || s[16] != 58 || s[19] != 32 || s[3] != 32 || s[7] != 32 {
        return Err(InvalidDate);
    }
    let weekday = match weekday_from(s[0], s[1], s[2]) {
        Some(w) => w,
        None => {
            return Err(InvalidDate);
        },
    };
    let mon = match month_from(s[4], s[5], s[6]) {
        Some(m) => m,
        None => {
            return Err(InvalidDate);
        },
    };
    let day = if s[8] == 32 {
        toint_1(s[9])?
    } else {
        toint_2(s[8], s[9])?
    };
    let hour = toint_2(s[11], s[12])?;
    let min = toint_2(s[14], s[15])?;
    let sec = toint_2(s[17], s[18])?;
    let year = toint_4(s[20], s[21], s[22], s[23])?;

    Ok(HttpDate { sec, min, hour, day, mon, year, weekday })
}


/// What parsing yields: the timestamp of the recognized fields, provided
/// some grammar matches, every field is in range, and the weekday named in
/// the text is the weekday of that timestamp.
pub open spec fn parse_outcome(s: Seq<u8>) -> Option<int> {
    match recognized_fields(s) {
        Some(dt) => {
            if fields_in_range(dt) && weekday_consistent(dt) {
                Some(timestamp_of(dt))
            } else {
                None
            }
        },
        None => None,
    }
}

} // verus!
