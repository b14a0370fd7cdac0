use fastdate::civil::leap_year;
use fastdate::error::Error;
use fastdate::local::host_offset;
use fastdate::{Date, DateTime, DurationFrom, Time};
use std::cmp::Ordering;
use std::time::Duration;

fn message(r: Result<DateTime, Error>) -> String {
    r.err().unwrap().to_string()
}

#[test]
fn leap_day_follows_the_gregorian_rule() {
    assert!(Date::from_str("2000-02-29").is_ok());
    assert!(Date::from_str("2024-02-29").is_ok());
    assert_eq!(Date::from_str("1900-02-29").err().unwrap().to_string(), "OutOfRangeDay");
    assert_eq!(Date::from_str("2023-02-29").err().unwrap().to_string(), "OutOfRangeDay");
    assert!(leap_year(2000));
    assert!(leap_year(2024));
    assert!(!leap_year(1900));
    assert!(!leap_year(2023));
}

#[test]
fn same_instant_at_other_offsets_compares_equal() {
    let a = DateTime::from_str_default("2022-12-12T08:00:00+08:00", 0).unwrap();
    let b = DateTime::from_str_default("2022-12-12T00:00:00Z", 0).unwrap();
    let c = DateTime::from_str_default("2022-12-11T19:00:00-05:00", 0).unwrap();
    assert_eq!(a, b);
    assert_eq!(b, c);
    assert_eq!(a.cmp(&c), Ordering::Equal);
    assert_eq!(a.partial_cmp(&c), Some(Ordering::Equal));
    assert_eq!(a.unix_timestamp_nano(), c.unix_timestamp_nano());
    let later = DateTime::from_str_default("2022-12-12T00:00:00.000000001Z", 0).unwrap();
    assert!(a < later);
    assert!(a.unix_timestamp_nano() < later.unix_timestamp_nano());
    assert_eq!(later.cmp(&a), Ordering::Greater);
}

#[test]
fn adding_then_subtracting_gives_the_value_back() {
    let v = DateTime::from_str_default("2024-02-28T23:59:59.5+05:30", 0).unwrap();
    let d = Duration::new(86_400 * 400 + 1, 700_000_000);
    let w = v + d;
    assert_eq!(w.to_string(), "2025-04-04T00:00:01.200+05:30");
    let u = w - d;
    assert_eq!(u.to_string(), v.to_string());
    assert_eq!(u.offset(), v.offset());
}

#[test]
fn fraction_is_cut_to_whole_groups_of_three_digits() {
    let base = "2022-12-13T11:12:14";
    let cases = [
        ("Z", "2022-12-13T11:12:14Z"),
        (".123Z", "2022-12-13T11:12:14.123Z"),
        (".123456789Z", "2022-12-13T11:12:14.123456789Z"),
        (".123456Z", "2022-12-13T11:12:14.123456Z"),
        (".12Z", "2022-12-13T11:12:14.120Z"),
        (".0001Z", "2022-12-13T11:12:14.000100Z"),
    ];
    for (tail, want) in cases {
        let v = DateTime::from_str_default(&format!("{}{}", base, tail), 0).unwrap();
        assert_eq!(v.to_string(), want);
    }
}

#[test]
fn scenario_parse_and_format() {
    let v = DateTime::from_str_default("2022-12-13 11:12:14.123456Z", 3600).unwrap();
    assert_eq!(v.year(), 2022);
    assert_eq!(v.mon(), 12);
    assert_eq!(v.day(), 13);
    assert_eq!(v.hour(), 11);
    assert_eq!(v.minute(), 12);
    assert_eq!(v.sec(), 14);
    assert_eq!(v.nano(), 123456000);
    assert_eq!(v.offset(), 0);
    assert_eq!(v.to_string(), "2022-12-13T11:12:14.123456Z");
}

#[test]
fn scenario_negative_offset() {
    let v = DateTime::from_str_default("2022-12-12T00:00:00-08:00", 0).unwrap();
    assert_eq!(v.offset(), -28800);
    assert_eq!(v.hour(), 0);
    assert_eq!(v.offset_hms(), (-8, 0, 0));
}

#[test]
fn scenario_week_day_is_counted_from_sunday() {
    let v = DateTime::from_str_default("2022-07-27T12:00:00Z", 0).unwrap();
    assert_eq!(v.week_day(), 3);
    let sunday = DateTime::from_str_default("2022-07-31T12:00:00Z", 0).unwrap();
    assert_eq!(sunday.week_day(), 0);
    let before_epoch = DateTime::from_str_default("1969-12-31T23:59:59Z", 0).unwrap();
    assert_eq!(before_epoch.week_day(), 3);
}

#[test]
fn scenario_timestamp_before_the_epoch() {
    let v = DateTime::from_timestamp(-378691200);
    assert_eq!(v.to_string(), "1958-01-01T00:00:00Z");
    let w = DateTime::from_timestamp_nano(-1);
    assert_eq!(w.to_string(), "1969-12-31T23:59:59.999999999Z");
    assert_eq!(w.unix_timestamp(), -1);
    assert_eq!(w.unix_timestamp_millis(), -1);
    assert_eq!(w.unix_timestamp_micros(), -1);
}

#[test]
fn scenario_fraction_too_long() {
    let r = Time::from_str("11:12:13.12345678910");
    assert_eq!(r.err().unwrap().to_string(), "SecondFractionTooLong");
}

#[test]
fn scenario_day_out_of_range() {
    let r = Date::from_str("2024-02-40");
    assert_eq!(r.err().unwrap().to_string(), "OutOfRangeDay");
}

#[test]
fn each_parse_error_has_its_message() {
    let cases = [
        ("2022-1", "TooShort"),
        ("20x2-01-01", "InvalidCharYear"),
        ("2022-0x-01", "InvalidCharMonth"),
        ("2022-01-x1", "InvalidCharDay"),
        ("2022-13-01", "OutOfRangeMonth"),
        ("2022-04-31", "OutOfRangeDay"),
        ("2022-01-01T1", "TooShort"),
        ("2022-01-01Tx0:00:00", "InvalidCharHour"),
        ("2022-01-01T00:x0:00", "InvalidCharMinute"),
        ("2022-01-01T00:00:x0", "InvalidCharSecond"),
        ("2022-01-01T00:00", "InvalidCharSecond"),
        ("2022-01-01T24:00:00", "OutOfRangeHour"),
        ("2022-01-01T00:60:00", "OutOfRangeMinute"),
        ("2022-01-01T00:00:60", "OutOfRangeSecond"),
        ("2022-01-01T00:00:00.", "SecondFractionMissing"),
        ("2022-01-01T00:00:00,1234567890", "SecondFractionTooLong"),
        ("2022-01-01T00:00:00X", "InvalidCharOffset"),
        ("2022-01-01T00:00:00+0", "InvalidCharOffset"),
        ("2022-01-01T00:00:00Zabc", "InvalidCharOffset"),
        ("2022-01-01T00:00:00+24:00", "OutOfRangeOffset"),
        ("2022-01-01T00:00:00+01:60", "OutOfRangeOffset"),
    ];
    for (text, want) in cases {
        assert_eq!(message(DateTime::from_str_default(text, 0)), want, "{}", text);
    }
}

#[test]
fn offsets_with_seconds_and_short_offsets() {
    let v = DateTime::from_str_default("2022-01-01T00:00:00-01:02:03", 0).unwrap();
    assert_eq!(v.offset(), -3723);
    assert_eq!(v.to_string(), "2022-01-01T00:00:00-01:02:03");
    let w = DateTime::from_str_default("2022-01-01T00:00:00+05", 0).unwrap();
    assert_eq!(w.offset(), 18000);
    assert_eq!(w.to_string(), "2022-01-01T00:00:00+05:00");
}

#[test]
fn default_offset_is_limited_to_a_day() {
    let v = DateTime::from_str_default("2022-01-01", 100_000).unwrap();
    assert_eq!(v.offset(), 86399);
    let w = DateTime::from_str_default("2022-01-01", -59).unwrap();
    assert_eq!(w.offset(), -59);
    let z = DateTime::from_str_default("2022-01-01T00:00:00Z", 3600).unwrap();
    assert_eq!(z.offset(), 0);
}

#[test]
fn text_round_trip_on_edges() {
    let texts = [
        "0000-01-01T00:00:00Z",
        "9999-12-31T23:59:59.999999999Z",
        "0000-01-01T00:00:00+23:59:59",
        "9999-12-31T23:59:59-23:59:59",
        "2024-02-29T12:34:56.000001-00:30",
    ];
    for t in texts {
        let v = DateTime::from_str_default(t, 0).unwrap();
        assert_eq!(v.to_string(), t);
        let back = DateTime::from_str_default(&v.to_string(), 7200).unwrap();
        assert_eq!(back.to_string(), t);
        assert_eq!(back.offset(), v.offset());
    }
}

#[test]
fn instant_round_trip() {
    let v = DateTime::from_str_default("1600-02-29T13:14:15.161718192+02:00", 0).unwrap();
    let n = v.unix_timestamp_nano();
    let w = DateTime::from_timestamp_nano(n).set_offset(7200);
    assert_eq!(w.to_string(), v.to_string());
    let max = DateTime::from_str_default("9999-12-31T23:59:59.999999999Z", 0).unwrap();
    assert_eq!(max.unix_timestamp_nano(), 253_402_300_799_999_999_999);
    let min = DateTime::from_str_default("0000-01-01T00:00:00Z", 0).unwrap();
    assert_eq!(min.unix_timestamp(), -62_167_219_200);
}

#[test]
fn set_offset_keeps_the_instant_and_is_limited() {
    let v = DateTime::from_str_default("2000-01-01T12:00:00Z", 0).unwrap();
    let w = v.set_offset(100_000);
    assert_eq!(w.offset(), 86399);
    assert_eq!(w, v);
    assert_eq!(w.to_string(), "2000-01-02T11:59:59+23:59:59");
}

#[test]
fn difference_is_unsigned() {
    let a = DateTime::from_str_default("2000-01-01T00:00:00Z", 0).unwrap();
    let b = DateTime::from_str_default("2000-01-02T00:00:00.5+01:00", 0).unwrap();
    assert_eq!((a - b).as_nanos(), 82_800_500_000_000);
    assert_eq!((b - a).as_nanos(), 82_800_500_000_000);
}

#[test]
fn durations_by_larger_units() {
    assert_eq!(Duration::from_minute(2).as_secs(), 120);
    assert_eq!(Duration::from_hour(2).as_secs(), 7200);
    assert_eq!(Duration::from_day(2).as_secs(), 172800);
}

#[test]
fn template_errors_name_the_token() {
    let r = DateTime::parse("YYYY-MM-DD hh", "2022-12-13 1");
    assert_eq!(r.err().unwrap().to_string(), "wrong hh format");
    let r = DateTime::parse("xx YYYY", "2022");
    assert_eq!(r.err().unwrap().to_string(), "wrong YYYY format");
}

#[test]
fn template_format_keeps_other_characters() {
    let v = DateTime::from_str_default("2021-03-04T05:06:07.089Z", 0).unwrap();
    assert_eq!(v.format("é YYYY|MM|DD hh.mm.ss .000000 +00:00"), "é 2021|03|04 05.06.07 .089000 +00:00");
}

#[test]
fn setters_ignore_values_out_of_range() {
    let d = Date { day: 31, mon: 1, year: 2023 };
    assert_eq!(d.set_mon(2), d);
    assert_eq!(d.set_mon(3).get_mon(), 3);
    let t = Time { nano: 0, sec: 0, minute: 0, hour: 0 };
    assert_eq!(t.set_hour(24), t);
    assert_eq!(t.set_nano(1_000_000_000), t);
    assert_eq!(t.set_micro(999_999).get_nano(), 999_999_000);
}

#[test]
fn time_from_duration_drops_whole_days() {
    let t = Time::from(Duration::new(86_400 + 3_723, 5));
    assert_eq!(t.to_string(), "01:02:03.000000005");
}

#[test]
fn host_offset_is_limited_and_defaults_to_utc() {
    assert_eq!(host_offset(Some(-3600)), -3600);
    assert_eq!(host_offset(Some(93_599)), 86399);
    assert_eq!(host_offset(Some(-93_599)), -86399);
    assert_eq!(host_offset(None), 0);
    let o = fastdate::offset_sec();
    assert!(-86399 <= o && o <= 86399);
}

#[test]
fn time_text_round_trip() {
    let times = [
        Time { nano: 0, sec: 0, minute: 0, hour: 0 },
        Time { nano: 120_000_000, sec: 59, minute: 59, hour: 23 },
        Time { nano: 1, sec: 1, minute: 2, hour: 3 },
        Time { nano: 999_999_999, sec: 30, minute: 30, hour: 12 },
    ];
    for t in times {
        assert_eq!(Time::from_str(&t.to_string()).unwrap(), t);
    }
}

#[test]
fn clock_readings_round_trip() {
    let t = std::time::UNIX_EPOCH + Duration::new(1_700_000_000, 123_456_789);
    let v = DateTime::from_system_time(t, 3600);
    assert_eq!(v.offset(), 3600);
    assert_eq!(v.unix_timestamp_nano(), 1_700_000_000_123_456_789);
    assert_eq!(v.to_system_time(), t);
    let before = std::time::UNIX_EPOCH - Duration::new(86_400, 1);
    assert_eq!(DateTime::from(before).unix_timestamp_nano(), -86_400_000_000_001);
}
