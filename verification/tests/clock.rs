use dstimer::clock::{format_time, parse_time, time_fits};

fn parse(s: &str) -> Result<u64, String> {
    assert!(time_fits(s));
    parse_time(s)
}

#[test]
fn parses_plain_seconds() {
    assert_eq!(parse("7"), Ok(7));
    assert_eq!(parse("90"), Ok(90));
    assert_eq!(parse("+5"), Ok(5));
    assert_eq!(parse("0"), Ok(0));
}

#[test]
fn parses_minutes_and_seconds() {
    assert_eq!(parse("25:00"), Ok(1500));
    assert_eq!(parse("5:00"), Ok(300));
    assert_eq!(parse("30:00"), Ok(1800));
    assert_eq!(parse("90:59"), Ok(5459));
}

#[test]
fn parses_hours_minutes_seconds() {
    assert_eq!(parse("1:30:17"), Ok(5417));
    assert_eq!(parse("00:00:07"), Ok(7));
    assert_eq!(parse("100:00:00"), Ok(360000));
}

#[test]
fn rejects_out_of_range_fields() {
    assert_eq!(parse("1:60"), Err("seconds must be 0-59".to_string()));
    assert_eq!(parse("1:60:00"), Err("minutes must be 0-59".to_string()));
    assert_eq!(parse("1:00:60"), Err("seconds must be 0-59".to_string()));
    assert_eq!(parse("1:60:60"), Err("minutes must be 0-59".to_string()));
}

#[test]
fn rejects_too_many_fields() {
    assert_eq!(
        parse("1:2:3:4"),
        Err("expected format: HH:MM:SS, MM:SS, or SS".to_string())
    );
}

#[test]
fn reports_number_errors() {
    let bad = "abc".parse::<u64>().unwrap_err().to_string();
    assert_eq!(parse("abc"), Err(bad.clone()));
    assert_eq!(parse("1:x"), Err(bad.clone()));
    assert_eq!(parse("-5"), Err(bad.clone()));
    assert_eq!(parse(" 5"), Err(bad));
    let empty = "".parse::<u64>().unwrap_err().to_string();
    assert_eq!(parse(""), Err(empty.clone()));
    assert_eq!(parse("5:"), Err(empty.clone()));
    assert_eq!(parse(":5"), Err(empty));
    let big = "99999999999999999999".parse::<u64>().unwrap_err().to_string();
    assert_eq!(parse("99999999999999999999"), Err(big));
}

#[test]
fn number_error_comes_from_first_bad_field() {
    let bad = "a".parse::<u64>().unwrap_err().to_string();
    let empty = "".parse::<u64>().unwrap_err().to_string();
    assert_eq!(parse("a::"), Err(bad.clone()));
    assert_eq!(parse("1::a"), Err(empty));
    assert_eq!(parse("1:99:a"), Err(bad));
}

#[test]
fn overflowing_totals_are_out_of_range() {
    assert!(!time_fits("18446744073709551615:00"));
    assert!(!time_fits("5124095576030432:00:00"));
    assert!(time_fits("18446744073709551615"));
    assert!(time_fits("307445734561825860:15"));
    assert!(time_fits("1:2:3:4"));
    assert_eq!(parse("307445734561825860:15"), Ok(u64::MAX));
}

#[test]
fn formats_minutes_and_seconds() {
    assert_eq!(format_time(0), "00:00");
    assert_eq!(format_time(7), "00:07");
    assert_eq!(format_time(59), "00:59");
    assert_eq!(format_time(60), "01:00");
    assert_eq!(format_time(1500), "25:00");
    assert_eq!(format_time(3599), "59:59");
}

#[test]
fn formats_hours() {
    assert_eq!(format_time(3600), "01:00:00");
    assert_eq!(format_time(5417), "01:30:17");
    assert_eq!(format_time(360000), "100:00:00");
    assert_eq!(format_time(u64::MAX), "5124095576030431:00:15");
}

#[test]
fn parse_undoes_format() {
    for n in [0u64, 1, 9, 10, 59, 60, 61, 599, 3599, 3600, 3661, 86399, 86400, 360000, u64::MAX] {
        assert_eq!(parse(&format_time(n)), Ok(n));
    }
}
