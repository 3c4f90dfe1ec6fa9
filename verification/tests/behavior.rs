use date_header::{InvalidDate, TooFuturistic};
use date_header::parse;

/// Round trip: formatting a timestamp and parsing the result gives the
/// timestamp back, across epochs, leap days, century boundaries and the
/// last representable second.
#[test]
fn round_trip_samples() {
    let samples: [u64; 16] = [
        0,
        1,
        59,
        3599,
        86399,
        86400,
        68169600,
        951782400,
        784111777,
        1431704061,
        1475419451,
        2145916800,
        4107542399,
        946684800,
        253402214400,
        253402300799,
    ];
    let mut buffer = [0u8; 29];
    for t in samples {
        assert_eq!(Ok(()), date_header::format(t, &mut buffer), "{t} formats");
        assert_eq!(Ok(t), parse(&buffer), "{t} round trips");
    }
}

/// Cross-format agreement: the same instant spelled in all three grammars
/// parses to the same timestamp.
#[test]
fn cross_format_agreement() {
    let instants = [
        (
            784111777,
            "Sun, 06 Nov 1994 08:49:37 GMT",
            "Sunday, 06-Nov-94 08:49:37 GMT",
            "Sun Nov  6 08:49:37 1994",
        ),
        (
            0,
            "Thu, 01 Jan 1970 00:00:00 GMT",
            "Thursday, 01-Jan-70 00:00:00 GMT",
            "Thu Jan  1 00:00:00 1970",
        ),
        (
            2145916800,
            "Fri, 01 Jan 2038 00:00:00 GMT",
            "Friday, 01-Jan-38 00:00:00 GMT",
            "Fri Jan  1 00:00:00 2038",
        ),
    ];
    for (t, imf, rfc850, asctime) in instants {
        assert_eq!(Ok(t), parse(imf.as_bytes()));
        assert_eq!(Ok(t), parse(rfc850.as_bytes()));
        assert_eq!(Ok(t), parse(asctime.as_bytes()));
    }
}

/// Format always fully overwrites the buffer: no stale byte survives a
/// successful call on a reused buffer.
#[test]
fn format_overwrites_whole_buffer() {
    let mut buffer = [0xFFu8; 29];
    assert_eq!(Ok(()), date_header::format(1431704061, &mut buffer));
    assert_eq!(&buffer, b"Fri, 15 May 2015 15:34:21 GMT");
    assert!(buffer.iter().all(|b| b.is_ascii()));
}

/// Boundary: the last second of year 9999 formats; the first second of year
/// 10000 is refused with the future-date error.
#[test]
fn format_boundary() {
    let mut buffer = [0u8; 29];
    assert_eq!(Ok(()), date_header::format(253402300799, &mut buffer));
    assert_eq!(&buffer, b"Fri, 31 Dec 9999 23:59:59 GMT");
    assert_eq!(Err(TooFuturistic), date_header::format(253402300800, &mut buffer));
    assert_eq!(Err(TooFuturistic), date_header::format(u64::MAX, &mut buffer));
}

/// Epoch: timestamp 0 and its rendering convert to each other.
#[test]
fn epoch() {
    let mut buffer = [0u8; 29];
    assert_eq!(Ok(()), date_header::format(0, &mut buffer));
    assert_eq!(&buffer, b"Thu, 01 Jan 1970 00:00:00 GMT");
    assert_eq!(Ok(0), parse(b"Thu, 01 Jan 1970 00:00:00 GMT"));
}

/// Malformed input of every kind is rejected: wrong length, wrong
/// separators, bytes outside the digit range (on both sides of it), names
/// outside the closed tables, and out-of-range fields.
#[test]
fn rejection() {
    let bad: [&[u8]; 14] = [
        b"",
        b"G",
        b"Sun, 06 Nov 1994 08:49:37 GM",
        b"Sun, 06 Nov 1994 08:49:37 GMTT",
        b"Sun. 06 Nov 1994 08:49:37 GMT",
        b"Sun, 06 Nov 1994 08 49:37 GMT",
        b"Sun, 06 Nov 1994 08:49:37 GmT",
        b"Sun, 0/ Nov 1994 08:49:37 GMT",
        b"Sun, 0: Nov 1994 08:49:37 GMT",
        b"Sun, 06 Foo 1994 08:49:37 GMT",
        b"Xxx, 06 Nov 1994 08:49:37 GMT",
        b"Sun, 06 Nov 1994 08:79:37 GMT",
        b"Sun, 32 Nov 1994 08:49:37 GMT",
        b"Sun, 06 Nov 1994 08:49:60 GMT",
    ];
    for s in bad {
        assert_eq!(Err(InvalidDate), parse(s));
    }
}

/// The validator checks ranges and the weekday, not per-month day counts: a
/// day that a month does not have rolls forward into the next month, and is
/// accepted when the named weekday matches the rolled-forward date.
#[test]
fn nonexistent_day_rolls_forward() {
    // Day 61 of 1970 is 1970-03-03, a Tuesday.
    assert_eq!(Ok(61 * 86400), parse(b"Tue, 31 Feb 1970 00:00:00 GMT"));
    assert_eq!(Err(InvalidDate), parse(b"Mon, 31 Feb 1970 00:00:00 GMT"));
    let mut buffer = [0u8; 29];
    assert_eq!(Ok(()), date_header::format(61 * 86400, &mut buffer));
    assert_eq!(&buffer, b"Tue, 03 Mar 1970 00:00:00 GMT");
}

/// The asctime day field accepts both the space-padded and the zero-padded
/// spelling of a single-digit day.
#[test]
fn asctime_day_padding() {
    assert_eq!(Ok(784111777), parse(b"Sun Nov  6 08:49:37 1994"));
    assert_eq!(Ok(784111777), parse(b"Sun Nov 06 08:49:37 1994"));
    assert_eq!(Err(InvalidDate), parse(b"Sun Nov 6  08:49:37 1994"));
}

/// The two-digit RFC 850 year is windowed: values below 70 land in the
/// 2000s, the rest in the 1900s.
#[test]
fn rfc850_year_window() {
    assert_eq!(Ok(0), parse(b"Thursday, 01-Jan-70 00:00:00 GMT"));
    // 1999-12-31 23:59:59 was a Friday.
    assert_eq!(Ok(946684799), parse(b"Friday, 31-Dec-99 23:59:59 GMT"));
    // 2000-01-01 was a Saturday.
    assert_eq!(Ok(946684800), parse(b"Saturday, 01-Jan-00 00:00:00 GMT"));
    // 2069-12-31 23:59:59, the last instant the window can spell, a Tuesday.
    assert_eq!(Ok(3155759999), parse(b"Tuesday, 31-Dec-69 23:59:59 GMT"));
}

/// Every full weekday name is recognized at its own length.
#[test]
fn rfc850_weekday_names() {
    let days = [
        (86400 * 3, "Sunday, 04-Jan-70 00:00:00 GMT"),
        (86400 * 4, "Monday, 05-Jan-70 00:00:00 GMT"),
        (86400 * 5, "Tuesday, 06-Jan-70 00:00:00 GMT"),
        (86400 * 6, "Wednesday, 07-Jan-70 00:00:00 GMT"),
        (0, "Thursday, 01-Jan-70 00:00:00 GMT"),
        (86400, "Friday, 02-Jan-70 00:00:00 GMT"),
        (86400 * 2, "Saturday, 03-Jan-70 00:00:00 GMT"),
    ];
    for (t, text) in days {
        assert_eq!(Ok(t), parse(text.as_bytes()));
    }
}
