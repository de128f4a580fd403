use strptime::ErrorKind;
use strptime::ParseResult;
use strptime::Parser;
use strptime::YearResolution;

#[test]
fn test_parse_ymd() -> ParseResult<()> {
    let parser = Parser::new("%Y-%m-%d");
    assert!(parser.parse("2012-04-21")?.date()?.ymd() == (2012, 4, 21));
    assert!(parser.parse("1776-07-04")?.date()?.ymd() == (1776, 7, 4));
    assert!(parser.parse("2012-04-21")?.time().is_err());
    let parser = Parser::new("%-m/%-d/%Y");
    assert!(parser.parse("4/21/2012")?.date()?.ymd() == (2012, 4, 21));
    assert!(parser.parse("7/4/1776")?.date()?.ymd() == (1776, 7, 4));
    Ok(())
}

#[test]
fn test_parse_weekday() -> ParseResult<()> {
    let parser = Parser::new("%A, %B %-d, %Y");
    assert!(parser.parse("Saturday, April 21, 2012")?.date()?.ymd() == (2012, 4, 21));
    let parser = Parser::new("%a, %B %-d, %Y");
    assert!(parser.parse("Sat, April 21, 2012")?.date()?.ymd() == (2012, 4, 21));
    Ok(())
}

#[test]
fn test_parse_month_abbr() -> ParseResult<()> {
    let parser = Parser::new("%Y %b %-d");
    for d in ["2012 Apr 21", "2012 apr 21", "2012 APR 21"] {
        assert!(parser.parse(d)?.date()?.ymd() == (2012, 4, 21));
    }
    Ok(())
}

#[test]
fn test_parse_month() -> ParseResult<()> {
    let parser = Parser::new("%B %-d, %Y");
    for d in ["April 21, 2012", "Apr 21, 2012", "APRIL 21, 2012"] {
        assert!(parser.parse(d)?.date()?.ymd() == (2012, 4, 21));
    }
    Ok(())
}

#[test]
fn test_parse_single_digits() -> ParseResult<()> {
    let parser = Parser::new("%-m/%-d/%Y");
    assert!(parser.parse("3/11/2020")?.date()?.ymd() == (2020, 3, 11));
    assert!(parser.parse("7/4/1776")?.date()?.ymd() == (1776, 7, 4));
    Ok(())
}

#[test]
fn test_parse_time() -> ParseResult<()> {
    let parser = Parser::new("%Y-%m-%d %H:%M:%S");
    let raw = parser.parse("2012-04-21 11:00:00")?;
    assert!(raw.date().unwrap().ymd() == (2012, 4, 21));
    assert!(raw.time().unwrap().hms() == (11, 0, 0, 0));
    Ok(())
}

#[test]
fn test_parse_time_alone() -> ParseResult<()> {
    let parser = Parser::new("%H:%M:%S");
    let raw = parser.parse("15:30:45")?;
    assert!(raw.date().ok().is_none());
    assert!(raw.time()?.hms() == (15, 30, 45, 0));
    Ok(())
}

#[test]
fn test_12h_time() -> ParseResult<()> {
    assert!(Parser::new("%I:%M %P").parse("11:30 am")?.time()?.hms() == (11, 30, 0, 0));
    assert!(Parser::new("%I:%M %P").parse("11:30 pm")?.time()?.hms() == (23, 30, 0, 0));
    assert!(Parser::new("%I:%M %p").parse("11:30 PM")?.time()?.hms() == (23, 30, 0, 0));
    Ok(())
}

#[test]
fn test_nanos() -> ParseResult<()> {
    assert!(
        Parser::new("%H:%M:%S%3f").parse("11:00:00500")?.time()?.hms() == (11, 0, 0, 500_000_000)
    );
    assert!(
        Parser::new("%H:%M:%S%.3f").parse("11:00:00.500")?.time()?.hms() == (11, 0, 0, 500_000_000)
    );
    assert!(
        Parser::new("%H:%M:%S%.6f").parse("11:00:00.500000")?.time()?.hms()
            == (11, 0, 0, 500_000_000)
    );
    assert!(
        Parser::new("%H:%M:%S%.9f").parse("11:00:00.500000000")?.time()?.hms()
            == (11, 0, 0, 500_000_000)
    );
    Ok(())
}

#[test]
fn test_errors() -> ParseResult<()> {
    assert!(Parser::new("%Y-%m-%d").parse("12-14-21").is_err()); // Expected 4 digits
    assert!(Parser::new("%C").parse("20").is_err()); // Ambiguous
    assert!(Parser::new("%Y %b %d").parse("2012 April 21").is_err()); // Expected "Apr"
    assert!(Parser::new("%m/%d/%Y").parse("7/4/1776").is_err()); // Expected 2 digits
    assert!(Parser::new("%I:%M").parse("11:30").is_err()); // No AM/PM
    assert!(Parser::new("%I:%M %p").parse("11:30 P").is_err()); // Parse error: No trailing M
    assert!(Parser::new("%Y-%m-%d").parse("2012-04-21T11:00:00").is_err()); // Trailing input
    Ok(())
}

#[test]
fn test_two_digit_year_default_resolution() -> ParseResult<()> {
    let parser = Parser::new("%m/%d/%y");
    assert_eq!(parser.parse("04/21/12")?.date()?.year(), 2012);
    assert_eq!(parser.parse("04/21/69")?.date()?.year(), 2069);
    assert_eq!(parser.parse("04/21/70")?.date()?.year(), 1970);
    assert_eq!(parser.parse("04/21/99")?.date()?.year(), 1999);
    Ok(())
}

#[test]
fn test_two_digit_year_custom_resolution() -> ParseResult<()> {
    let resolution = YearResolution { pivot: 0, base_before_pivot: 2200, base_from_pivot: 2200 };
    let parser = Parser::new("%m/%d/%y").modulo_year_resolution(resolution);
    assert_eq!(parser.parse("04/21/12")?.date()?.year(), 2212);
    Ok(())
}

#[test]
fn test_century_with_remainder() -> ParseResult<()> {
    let raw = Parser::new("%C%y-%m-%d").parse("2012-04-21")?;
    assert_eq!(raw.date()?.ymd(), (2012, 4, 21));
    let raw = Parser::new("%C%y-%m-%d").parse("1776-07-04")?;
    assert_eq!(raw.date()?.ymd(), (1776, 7, 4));
    Ok(())
}

#[test]
fn test_ambiguous_kinds() {
    let err = Parser::new("%C").parse("20").unwrap_err();
    assert!(matches!(err.kind, ErrorKind::Ambiguous));
    let err = Parser::new("%I:%M").parse("11:30").unwrap_err();
    assert!(matches!(err.kind, ErrorKind::Ambiguous));
    let err = Parser::new("%P").parse("am").unwrap_err();
    assert!(matches!(err.kind, ErrorKind::Ambiguous));
}

#[test]
fn test_twelve_oclock_meridiem() -> ParseResult<()> {
    assert_eq!(Parser::new("%I:%M %P").parse("12:30 am")?.time()?.hour(), 0);
    assert_eq!(Parser::new("%I:%M %P").parse("12:30 pm")?.time()?.hour(), 12);
    assert_eq!(Parser::new("%I:%M %P").parse("01:30 pm")?.time()?.hour(), 13);
    Ok(())
}

#[test]
fn test_strictness_kinds() {
    // The year field demands exactly four characters of digits.
    let err = Parser::new("%Y-%m-%d").parse("12-14-21").unwrap_err();
    assert!(matches!(err.kind, ErrorKind::Unexpected));
    assert_eq!(err.index, Some(0));
    // Month and day fields demand two digits without a no-padding modifier.
    let err = Parser::new("%m/%d/%Y").parse("7/4/1776").unwrap_err();
    assert!(matches!(err.kind, ErrorKind::Unexpected));
    // Unconsumed input remains after the format string.
    let err = Parser::new("%Y-%m-%d").parse("2012-04-21T11:00:00").unwrap_err();
    assert!(matches!(err.kind, ErrorKind::InputTooLong));
    assert_eq!(err.index, Some(10));
    assert_eq!(err.src, "2012-04-21T11:00:00");
}

#[test]
fn test_input_too_short_kind() {
    let err = Parser::new("%Y-%m-%d").parse("2012").unwrap_err();
    assert!(matches!(err.kind, ErrorKind::InputTooShort));
    assert_eq!(err.index, Some(4));
}

#[test]
fn test_invalid_format_kinds() {
    let err = Parser::new("%q").parse("2012").unwrap_err();
    assert!(matches!(err.kind, ErrorKind::InvalidFormat));
    // A format string that ends inside a directive is malformed.
    let err = Parser::new("%").parse("2012").unwrap_err();
    assert!(matches!(err.kind, ErrorKind::InvalidFormat));
    // A precision modifier may only introduce a fractional-second field.
    let err = Parser::new("%3d").parse("123").unwrap_err();
    assert!(matches!(err.kind, ErrorKind::InvalidFormat));
    // A dot prefix may only be followed by a precision digit or `f`.
    let err = Parser::new("%.2f").parse(".500").unwrap_err();
    assert!(matches!(err.kind, ErrorKind::InvalidFormat));
}

#[test]
fn test_incomplete_date_kind() {
    let err = Parser::new("%m/%d").parse("04/21").unwrap_err();
    assert!(matches!(err.kind, ErrorKind::IncompleteDate));
    assert_eq!(err.index, None);
    let err = Parser::new("%Y").parse("2012").unwrap_err();
    assert!(matches!(err.kind, ErrorKind::IncompleteDate));
}

#[test]
fn test_time_fields_default_to_zero() -> ParseResult<()> {
    // A time-only parse needs no completeness check: omitted fields are 0.
    let raw = Parser::new("%H").parse("09")?;
    assert_eq!(raw.time()?.hms(), (9, 0, 0, 0));
    assert!(raw.time()?.utc_offset().is_none());
    assert!(raw.date().is_err());
    Ok(())
}

#[test]
fn test_missing_date_and_time_kinds() -> ParseResult<()> {
    let raw = Parser::new("%H:%M:%S").parse("15:30:45")?;
    let err = raw.date().unwrap_err();
    assert!(matches!(err.kind, ErrorKind::MissingDate));
    let raw = Parser::new("%Y-%m-%d").parse("2012-04-21")?;
    let err = raw.time().unwrap_err();
    assert!(matches!(err.kind, ErrorKind::MissingTime));
    Ok(())
}

#[test]
fn test_space_padding() -> ParseResult<()> {
    // `%e` defaults to space padding; an explicit space modifier works on
    // any numeric field.
    assert!(Parser::new("%Y-%m-%e").parse("2012-04- 1")?.date()?.ymd() == (2012, 4, 1));
    assert!(Parser::new("% m/%d/%Y").parse(" 4/21/2012")?.date()?.ymd() == (2012, 4, 21));
    let raw = Parser::new("%k:%M").parse(" 9:30")?;
    assert_eq!(raw.time()?.hms(), (9, 30, 0, 0));
    Ok(())
}

#[test]
fn test_plain_nanosecond_directive() -> ParseResult<()> {
    let raw = Parser::new("%H:%M:%S.%f").parse("11:00:00.500000000")?;
    assert_eq!(raw.time()?.nanosecond(), 500_000_000);
    let raw = Parser::new("%H:%M:%S%.f").parse("11:00:00.012345678")?;
    assert_eq!(raw.time()?.nanosecond(), 12_345_678);
    Ok(())
}

#[test]
fn test_all_month_abbreviations() -> ParseResult<()> {
    let names = [
        "Jan", "Feb", "Mar", "Apr", "May", "Jun", "Jul", "Aug", "Sep", "Oct", "Nov", "Dec",
    ];
    let parser = Parser::new("%Y %b %d");
    for (i, name) in names.iter().enumerate() {
        let input = format!("2012 {} 21", name);
        assert_eq!(parser.parse(&input)?.date()?.month() as usize, i + 1);
    }
    Ok(())
}

#[test]
fn test_all_weekday_names() -> ParseResult<()> {
    let names = ["Sunday", "Monday", "Tuesday", "Wednesday", "Thursday", "Friday", "Saturday"];
    let parser = Parser::new("%A %Y-%m-%d");
    for name in names.iter() {
        let input = format!("{} 2012-04-21", name);
        assert_eq!(parser.parse(&input)?.date()?.ymd(), (2012, 4, 21));
    }
    Ok(())
}

#[test]
fn test_partial_month_names() -> ParseResult<()> {
    // The full-name directive accepts the name as far as it matches.
    let parser = Parser::new("%B %-d, %Y");
    for d in ["September 21, 2012", "Sept 21, 2012", "Sep 21, 2012", "SEPTEMBER 21, 2012"] {
        assert_eq!(parser.parse(d)?.date()?.ymd(), (2012, 9, 21));
    }
    Ok(())
}

#[test]
fn test_empty_format() -> ParseResult<()> {
    let raw = Parser::new("").parse("")?;
    assert!(raw.date().is_err());
    assert!(raw.time().is_err());
    assert!(Parser::new("").parse("x").is_err());
    Ok(())
}

#[test]
fn test_round_trip_formatting() -> ParseResult<()> {
    // Zero-padded formatting, parsed back with the matching directives,
    // reproduces the original values.
    let cases: [(i16, u8, u8, u8, u8, u8); 3] = [
        (2012, 4, 21, 11, 0, 0),
        (1776, 7, 4, 23, 59, 59),
        (1, 1, 1, 0, 0, 0),
    ];
    let parser = Parser::new("%Y-%m-%d %H:%M:%S");
    for (y, m, d, h, mi, s) in cases {
        let input = format!("{:04}-{:02}-{:02} {:02}:{:02}:{:02}", y, m, d, h, mi, s);
        let raw = parser.parse(&input)?;
        assert_eq!(raw.date()?.ymd(), (y, m, d));
        assert_eq!(raw.time()?.hms(), (h, mi, s, 0));
    }
    Ok(())
}

#[test]
fn test_unrepresentable_year_rejected() {
    // A century and remainder combine as century * 100 + remainder; a
    // combination that does not fit the year field is rejected.
    let err = Parser::new("%-C-%y").parse("328-12").unwrap_err();
    assert!(matches!(err.kind, ErrorKind::Unexpected));
    assert_eq!(err.index, None);
    // The same holds when the default resolution rule overflows.
    let err = Parser::new("%-y").parse("32000").unwrap_err();
    assert!(matches!(err.kind, ErrorKind::Unexpected));
}
