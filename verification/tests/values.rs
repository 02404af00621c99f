use remcal::ical::values::base::{ICalValueType, Param, CodecError};
use remcal::ical::values::date::ICalDate;
use remcal::ical::values::datetime::{ICalDateTime, DateTimeParts};
use remcal::ical::values::duration::ICalDuration;

#[test]
fn test_date() {
    let value = "20140517";
    let date = ICalDate::parse(value, &Vec::new()).expect("Failed to parse!");
    assert_eq!(date.year(), 2014);
    assert_eq!(date.month(), 5);
    assert_eq!(date.day(), 17);
    let s = ICalValueType::serialize(&date);
    assert_eq!(s, value);
}

fn parts_of(dt: &ICalDateTime) -> DateTimeParts {
    match dt {
        ICalDateTime::Local(p) => *p,
        ICalDateTime::Zoned(p, _) => *p,
    }
}

#[test]
fn test_datetime_utc() {
    let value = "20140517T123456Z";
    let icaldt = ICalDateTime::parse(value, &Vec::new()).expect("Failed to parse!");
    let ICalDateTime::Zoned(_, ref tz) = icaldt else {
        panic!("Did not get UTC datetime");
    };
    let p = parts_of(&icaldt);
    assert_eq!(p.date.year, 2014);
    assert_eq!(p.date.month, 5);
    assert_eq!(p.date.day, 17);
    assert_eq!(p.hour, 12);
    assert_eq!(p.minute, 34);
    assert_eq!(p.second, 56);
    assert_eq!(tz, "UTC");
    let s = ICalValueType::serialize(&icaldt);
    assert_eq!(s, value);
}

#[test]
fn test_datetime_tz() {
    let value = "19921217T123456";
    let params = vec![Param { name: "TZID".to_string(), value: "America/New_York".to_string() }];
    let icaldt = ICalDateTime::parse(value, &params).expect("Failed to parse!");
    let ICalDateTime::Zoned(_, ref tz) = icaldt else {
        panic!("Did not get Zoned datetime");
    };
    let p = parts_of(&icaldt);
    assert_eq!(p.date.year, 1992);
    assert_eq!(p.date.month, 12);
    assert_eq!(p.date.day, 17);
    assert_eq!(p.hour, 12);
    assert_eq!(p.minute, 34);
    assert_eq!(p.second, 56);
    assert_eq!(tz, "America/New_York");
    let s = ICalValueType::serialize(&icaldt);
    assert_eq!(s, value);
}

#[test]
fn test_datetime_unknown_zone() {
    let params = vec![Param { name: "TZID".to_string(), value: "Nowhere/Atlantis".to_string() }];
    let r = ICalDateTime::parse("19921217T123456", &params);
    assert_eq!(r.unwrap_err(), CodecError::BadTimezone);
}

#[test]
fn test_datetime_bad_digits() {
    let r = ICalDateTime::parse("2014-05-17", &Vec::new());
    assert_eq!(r.unwrap_err(), CodecError::BadDateTime);
}

#[test]
fn test_date_rejects_bad_month() {
    let r = ICalDate::parse("20141317", &Vec::new());
    assert_eq!(r.unwrap_err(), CodecError::BadDate);
}

#[test]
fn test_date_leap_year() {
    assert!(ICalDate::parse("20240229", &Vec::new()).is_ok());
    assert_eq!(
        ICalDate::parse("20230229", &Vec::new()).unwrap_err(),
        CodecError::BadDate
    );
}

#[test]
fn test_integer_codec() {
    let n: i32 = ICalValueType::parse("-42", &Vec::new()).expect("Failed to parse!");
    assert_eq!(n, -42);
    assert_eq!(ICalValueType::serialize(&n), "-42");
    let p: i32 = ICalValueType::parse("+17", &Vec::new()).expect("Failed to parse!");
    assert_eq!(ICalValueType::serialize(&p), "17");
    let bad: Result<i32, _> = ICalValueType::parse("12x", &Vec::new());
    assert_eq!(bad.unwrap_err(), CodecError::BadInteger);
    let over: Result<i32, _> = ICalValueType::parse("2147483648", &Vec::new());
    assert_eq!(over.unwrap_err(), CodecError::BadInteger);
    assert!(<i32 as ICalValueType>::parse("-2147483648", &Vec::new()).is_ok());
}

fn assert_duration(
    value: &str,
    expected_weeks: i64,
    expected_days: i64,
    expected_hours: i64,
    expected_minutes: i64,
    expected_seconds: i64,
) {
    let dur = ICalDuration::parse(value, &Vec::new()).expect("Failed to parse!");

    let weeks = dur.num_weeks();
    let days = dur.num_days() - (weeks * 7);
    let hours = dur.num_hours() - (dur.num_days() * 24);
    let minutes = dur.num_minutes() - (dur.num_hours() * 60);
    let seconds = dur.num_seconds() - (dur.num_minutes() * 60);

    assert_eq!(weeks, expected_weeks, "Weeks wrong");
    assert_eq!(days, expected_days, "Days wrong");
    assert_eq!(hours, expected_hours, "Hours wrong");
    assert_eq!(minutes, expected_minutes, "Minutes wrong");
    assert_eq!(seconds, expected_seconds, "Seconds wrong");

    let s = ICalValueType::serialize(&dur);
    assert_eq!(s, value, "Serialization wrong");
}

#[test]
fn test_duration_date() {
    assert_duration("P15DT5H0M20S", 2, 1, 5, 0, 20);
}

#[test]
fn test_duration_weeks() {
    assert_duration("P7W", 7, 0, 0, 0, 0);
}

#[test]
fn test_negative_duration() {
    assert_duration("-P1D", 0, -1, 0, 0, 0);
}

#[test]
fn test_duration_exact_seconds() {
    let dur = ICalDuration::parse("P15DT5H0M20S", &Vec::new()).expect("Failed to parse!");
    assert_eq!(dur.num_seconds(), 15 * 86400 + 5 * 3600 + 20);
    let neg = ICalDuration::parse("-P1D", &Vec::new()).expect("Failed to parse!");
    assert_eq!(neg.num_seconds(), -86400);
}

#[test]
fn test_duration_zero_form() {
    let zero = ICalDuration::from_seconds(0);
    assert_eq!(ICalValueType::serialize(&zero), "PT0S");
    let back = ICalDuration::parse("PT0S", &Vec::new()).expect("Failed to parse!");
    assert_eq!(back.num_seconds(), 0);
}

#[test]
fn test_duration_rejects_garbage() {
    let r = ICalDuration::parse("15D", &Vec::new());
    assert_eq!(r.unwrap_err(), CodecError::BadDuration);
    let r2 = ICalDuration::parse("PX", &Vec::new());
    assert_eq!(r2.unwrap_err(), CodecError::BadDuration);
    let r3 = ICalDuration::parse("PD", &Vec::new());
    assert_eq!(r3.unwrap_err(), CodecError::BadDuration);
}
