//! The laws that relate formatting and parsing: rendering is recognized
//! back to the same fields, the round trip from a timestamp through its
//! IMF-fixdate text returns the same timestamp, and a 29-byte input parses
//! only when it is exactly such a rendering.

use vstd::prelude::*;
use crate::calendar::{fields_of, lemma_fields_of_correct};
use crate::date::{HttpDate, date_exists, fields_in_range, timestamp_of, weekday_consistent};
use crate::recognize::{
    asctime_day, asctime_fields, digit_val, four_digit_field, imf_fields, month_code,
    parse_outcome, recognized_fields, rfc850_fields, rfc850_prefix, rfc850_year,
    two_digit_field, weekday_code,
};
use crate::render::{asctime_char, asctime_render, imf_char, imf_render, month_name,
    rfc850_render, rfc850_suffix_char, weekday_full_name, weekday_name};

verus! {

/// Looking a rendered weekday name up recovers the weekday.
proof fn lemma_weekday_name_code(w: int)
    requires
        0 <= w < 7,
    ensures
        weekday_code(weekday_name(w)[0], weekday_name(w)[1], weekday_name(w)[2]) == Some(w),
{
}

/// Looking a rendered month name up recovers the month.
proof fn lemma_month_name_code(m: int)
    requires
        1 <= m <= 12,
    ensures
        month_code(month_name(m)[0], month_name(m)[1], month_name(m)[2]) == Some(m),
{
}

/// Recognizing the IMF-fixdate rendering of in-range fields gives the very
/// same fields back.
#[verifier::rlimit(100)]
#[verifier::spinoff_prover]
pub proof fn lemma_imf_recognizes_render(dt: HttpDate)
    requires
        fields_in_range(dt),
        dt.weekday < 7,
    ensures
        imf_fields(imf_render(dt)) == Some(dt),
{
    let s = imf_render(dt);
    assert(s.len() == 29);
    assert(forall|i: int| 0 <= i < 29 ==> s[i] == imf_char(dt, i));
    lemma_weekday_name_code(dt.weekday as int);
    lemma_month_name_code(dt.mon as int);
    assert(weekday_code(s[0], s[1], s[2]) == Some(dt.weekday as int));
    assert(month_code(s[8], s[9], s[10]) == Some(dt.mon as int));
    assert(10 * (dt.day as int / 10) + dt.day as int % 10 == dt.day as int);
    assert(10 * (dt.hour as int / 10) + dt.hour as int % 10 == dt.hour as int);
    assert(10 * (dt.min as int / 10) + dt.min as int % 10 == dt.min as int);
    assert(10 * (dt.sec as int / 10) + dt.sec as int % 10 == dt.sec as int);
    let y = dt.year as int;
    assert(1000 * (y / 1000) + 100 * (y / 100 % 10) + 10 * (y / 10 % 10) + y % 10 == y);
}

/// A weekday name that the closed table recognizes is the rendering of the
/// weekday it recognizes it as.
proof fn lemma_weekday_code_inverse(a: u8, b: u8, c: u8)
    requires
        weekday_code(a, b, c) is Some,
    ensures
        ({
            let w = weekday_code(a, b, c).unwrap();
            &&& 0 <= w < 7
            &&& a == weekday_name(w)[0]
            &&& b == weekday_name(w)[1]
            &&& c == weekday_name(w)[2]
        }),
{
}

/// A month name that the closed table recognizes is the rendering of the
/// month it recognizes it as.
proof fn lemma_month_code_inverse(a: u8, b: u8, c: u8)
    requires
        month_code(a, b, c) is Some,
    ensures
        ({
            let m = month_code(a, b, c).unwrap();
            &&& 1 <= m <= 12
            &&& a == month_name(m)[0]
            &&& b == month_name(m)[1]
            &&& c == month_name(m)[2]
        }),
{
}

/// An input that the IMF-fixdate grammar recognizes is, byte for byte, the
/// rendering of the fields it recognizes: the grammar admits no other
/// spelling of them.
#[verifier::rlimit(100)]
#[verifier::spinoff_prover]
pub proof fn lemma_imf_render_of_recognized(s: Seq<u8>)
    requires
        imf_fields(s) is Some,
    ensures
        s == imf_render(imf_fields(s).unwrap()),
{
    let dt = imf_fields(s).unwrap();
    lemma_weekday_code_inverse(s[0], s[1], s[2]);
    lemma_month_code_inverse(s[8], s[9], s[10]);

    // Each numeric field splits back into exactly the digits it was read from.
    assert(dt.day as int == 10 * digit_val(s[5]) + digit_val(s[6]));
    assert(dt.day as int / 10 == digit_val(s[5]) && dt.day as int % 10 == digit_val(s[6]));
    assert(dt.hour as int / 10 == digit_val(s[17]) && dt.hour as int % 10 == digit_val(s[18]));
    assert(dt.min as int / 10 == digit_val(s[20]) && dt.min as int % 10 == digit_val(s[21]));
    assert(dt.sec as int / 10 == digit_val(s[23]) && dt.sec as int % 10 == digit_val(s[24]));
    let y = dt.year as int;
    assert(y == 1000 * digit_val(s[12]) + 100 * digit_val(s[13]) + 10 * digit_val(s[14])
        + digit_val(s[15]));
    assert(y / 1000 == digit_val(s[12]) && y / 100 % 10 == digit_val(s[13])
        && y / 10 % 10 == digit_val(s[14]) && y % 10 == digit_val(s[15]));

    assert(s =~= imf_render(dt));
}

/// Rejection: a 29-byte input parses only when it is exactly the IMF-fixdate
/// rendering of in-range fields whose named weekday agrees with the date;
/// any other 29 bytes, wrong separators, out-of-range digits and mislabeled
/// weekdays included, fail to parse.
pub proof fn lemma_reject_non_renderings(s: Seq<u8>, t: int)
    requires
        s.len() == 29,
        parse_outcome(s) == Some(t),
    ensures
        imf_fields(s) is Some,
        ({
            let dt = imf_fields(s).unwrap();
            &&& fields_in_range(dt)
            &&& weekday_consistent(dt)
            &&& t == timestamp_of(dt)
            &&& s == imf_render(dt)
        }),
{
    assert(recognized_fields(s) == imf_fields(s));
    lemma_imf_render_of_recognized(s);
}

/// Round trip: parsing the formatted rendering of any representable
/// timestamp yields exactly that timestamp.
pub proof fn lemma_round_trip(t: int)
    requires
        0 <= t < 253402300800,
    ensures
        parse_outcome(imf_render(fields_of(t))) == Some(t),
{
    lemma_fields_of_correct(t);
    lemma_imf_recognizes_render(fields_of(t));
}

/// Format shape: the rendering of every representable timestamp is 29 bytes
/// that the IMF-fixdate grammar itself recognizes, with the weekday and
/// month names from the closed tables, the day below 32 and the year
/// between 1970 and 9999.
pub proof fn lemma_format_shape(t: int)
    requires
        0 <= t < 253402300800,
    ensures
        imf_render(fields_of(t)).len() == 29,
        imf_fields(imf_render(fields_of(t))) == Some(fields_of(t)),
        fields_in_range(fields_of(t)),
        date_exists(fields_of(t)),
{
    lemma_fields_of_correct(t);
    lemma_imf_recognizes_render(fields_of(t));
}


/// Recognizing the RFC 850 rendering of in-range fields whose year falls in
/// the two-digit window gives the very same fields back, and no earlier
/// grammar claims it.
#[verifier::rlimit(100)]
#[verifier::spinoff_prover]
pub proof fn lemma_rfc850_recognizes_render(dt: HttpDate)
    requires
        fields_in_range(dt),
        dt.weekday < 7,
        dt.year <= 2069,
    ensures
        recognized_fields(rfc850_render(dt)) == Some(dt),
{
    let s = rfc850_render(dt);
    let w = dt.weekday as int;
    let name = weekday_full_name(w);
    let p = name.len() as int + 2;
    assert(6 <= name.len() <= 9);
    assert(s.len() == p + 22);
    assert(forall|i: int| 0 <= i < name.len() ==> s[i] == name[i]);
    assert(s[p - 2] == 44 && s[p - 1] == 32);
    assert(forall|i: int| 0 <= i < 22 ==> s[p + i] == rfc850_suffix_char(dt, i));

    assert(rfc850_prefix(s) == Some((w, p)));

    lemma_month_name_code(dt.mon as int);
    assert(month_code(s[p + 3], s[p + 4], s[p + 5]) == Some(dt.mon as int));

    assert(two_digit_field(s, p) == Some(dt.day as int));
    assert(two_digit_field(s, p + 10) == Some(dt.hour as int));
    assert(two_digit_field(s, p + 13) == Some(dt.min as int));
    assert(two_digit_field(s, p + 16) == Some(dt.sec as int));

    let y = dt.year as int;
    assert(y % 10 == y % 100 % 10);
    assert(two_digit_field(s, p + 7) == Some(y % 100));
    assert(rfc850_year(y % 100) == y);

    assert(rfc850_fields(s) == Some(dt));
    assert(imf_fields(s) is None);
}

/// Recognizing the asctime rendering of in-range fields gives the very same
/// fields back, and no earlier grammar claims it.
#[verifier::rlimit(100)]
#[verifier::spinoff_prover]
pub proof fn lemma_asctime_recognizes_render(dt: HttpDate)
    requires
        fields_in_range(dt),
        dt.weekday < 7,
    ensures
        recognized_fields(asctime_render(dt)) == Some(dt),
{
    let s = asctime_render(dt);
    assert(s.len() == 24);
    assert(forall|i: int| 0 <= i < 24 ==> s[i] == asctime_char(dt, i));

    lemma_weekday_name_code(dt.weekday as int);
    lemma_month_name_code(dt.mon as int);
    assert(weekday_code(s[0], s[1], s[2]) == Some(dt.weekday as int));
    assert(month_code(s[4], s[5], s[6]) == Some(dt.mon as int));

    assert(asctime_day(s) == Some(dt.day as int));
    assert(two_digit_field(s, 11) == Some(dt.hour as int));
    assert(two_digit_field(s, 14) == Some(dt.min as int));
    assert(two_digit_field(s, 17) == Some(dt.sec as int));
    let y = dt.year as int;
    assert(four_digit_field(s, 20) == Some(y));

    assert(asctime_fields(s) == Some(dt));
    assert(imf_fields(s) is None);
    assert(rfc850_prefix(s) is None);
    assert(rfc850_fields(s) is None);
}

/// Cross-format agreement: for one instant, the three grammars' renderings
/// all parse to the same outcome (the RFC 850 text can only spell years up
/// to 2069 in its two-digit field, so the instant's year must fall in that
/// window).
pub proof fn lemma_cross_format_agreement(dt: HttpDate)
    requires
        fields_in_range(dt),
        dt.weekday < 7,
        dt.year <= 2069,
    ensures
        parse_outcome(rfc850_render(dt)) == parse_outcome(imf_render(dt)),
        parse_outcome(asctime_render(dt)) == parse_outcome(imf_render(dt)),
{
    lemma_imf_recognizes_render(dt);
    lemma_rfc850_recognizes_render(dt);
    lemma_asctime_recognizes_render(dt);
    assert(recognized_fields(imf_render(dt)) == Some(dt));
}

} // verus!
