use podchiver::rfc2822::parse_timestamp;
use podchiver::timestamp::{month_length, Timestamp};

fn stamp_of(text: &str) -> Option<String> {
    parse_timestamp(text).map(|t| t.stamp())
}

#[test]
fn timestamp_in_utc_is_kept() {
    let t = Timestamp::new(2023, 5, 1, 13, 0, 0, 0).unwrap();
    assert_eq!(t.year(), 2023);
    assert_eq!(t.month(), 5);
    assert_eq!(t.day(), 1);
    assert_eq!(t.hour(), 13);
    assert_eq!(t.minute(), 0);
    assert_eq!(t.second(), 0);
    assert_eq!(t.offset_minutes(), 0);
    assert_eq!(t.stamp(), "20230501-130000Z");
}

#[test]
fn timestamp_east_of_utc_is_moved_back() {
    let t = Timestamp::new(2023, 5, 1, 1, 30, 15, 120).unwrap();
    assert_eq!(t.stamp(), "20230430-233015Z");
    assert_eq!(t.offset_minutes(), 120);
}

#[test]
fn timestamp_west_of_utc_is_moved_forward() {
    let t = Timestamp::new(2023, 12, 31, 22, 0, 0, -300).unwrap();
    assert_eq!(t.stamp(), "20240101-030000Z");
}

#[test]
fn timestamp_moves_over_the_end_of_february() {
    assert_eq!(Timestamp::new(2024, 3, 1, 0, 0, 0, 60).unwrap().stamp(), "20240229-230000Z");
    assert_eq!(Timestamp::new(2023, 3, 1, 0, 0, 0, 60).unwrap().stamp(), "20230228-230000Z");
    assert_eq!(Timestamp::new(2024, 2, 28, 23, 30, 0, -60).unwrap().stamp(), "20240229-003000Z");
    assert_eq!(Timestamp::new(2023, 2, 28, 23, 30, 0, -60).unwrap().stamp(), "20230301-003000Z");
}

#[test]
fn timestamp_pads_every_field() {
    assert_eq!(Timestamp::new(7, 1, 2, 3, 4, 5, 0).unwrap().stamp(), "00070102-030405Z");
}

#[test]
fn timestamp_allows_a_leap_second() {
    assert_eq!(Timestamp::new(2016, 12, 31, 23, 59, 60, 0).unwrap().stamp(), "20161231-235960Z");
    assert_eq!(Timestamp::new(2016, 12, 31, 23, 59, 61, 0), None);
}

#[test]
fn timestamp_refuses_dates_off_the_calendar() {
    assert_eq!(Timestamp::new(2023, 2, 29, 0, 0, 0, 0), None);
    assert_eq!(Timestamp::new(1900, 2, 29, 0, 0, 0, 0), None);
    assert!(Timestamp::new(2000, 2, 29, 0, 0, 0, 0).is_some());
    assert_eq!(Timestamp::new(2023, 4, 31, 0, 0, 0, 0), None);
    assert_eq!(Timestamp::new(2023, 0, 1, 0, 0, 0, 0), None);
    assert_eq!(Timestamp::new(2023, 13, 1, 0, 0, 0, 0), None);
    assert_eq!(Timestamp::new(2023, 1, 0, 0, 0, 0, 0), None);
    assert_eq!(Timestamp::new(2023, 1, 32, 0, 0, 0, 0), None);
}

#[test]
fn timestamp_refuses_times_off_the_clock() {
    assert_eq!(Timestamp::new(2023, 1, 1, 24, 0, 0, 0), None);
    assert_eq!(Timestamp::new(2023, 1, 1, 0, 60, 0, 0), None);
    assert_eq!(Timestamp::new(2023, 1, 1, 0, 0, 0, 1440), None);
    assert_eq!(Timestamp::new(2023, 1, 1, 0, 0, 0, -1440), None);
    assert!(Timestamp::new(2023, 1, 1, 0, 0, 0, 1439).is_some());
    assert!(Timestamp::new(2023, 1, 1, 0, 0, 0, -1439).is_some());
}

#[test]
fn timestamp_refuses_years_beyond_four_digits() {
    assert_eq!(Timestamp::new(0, 1, 1, 0, 0, 0, 1), None);
    assert_eq!(Timestamp::new(9999, 12, 31, 23, 59, 0, -1), None);
    assert_eq!(Timestamp::new(10000, 1, 1, 12, 0, 0, 0), None);
    assert_eq!(Timestamp::new(10000, 1, 1, 0, 0, 0, 1).unwrap().stamp(), "99991231-235900Z");
    assert_eq!(Timestamp::new(0, 1, 1, 0, 0, 0, 0).unwrap().stamp(), "00000101-000000Z");
}

#[test]
fn month_length_knows_leap_years() {
    assert_eq!(month_length(2023, 1), 31);
    assert_eq!(month_length(2023, 2), 28);
    assert_eq!(month_length(2024, 2), 29);
    assert_eq!(month_length(1900, 2), 28);
    assert_eq!(month_length(2000, 2), 29);
    assert_eq!(month_length(2023, 4), 30);
    assert_eq!(month_length(2023, 6), 30);
    assert_eq!(month_length(2023, 9), 30);
    assert_eq!(month_length(2023, 11), 30);
    assert_eq!(month_length(2023, 12), 31);
}

#[test]
fn parse_reads_the_usual_form() {
    assert_eq!(stamp_of("Mon, 01 May 2023 13:00:00 +0000"), Some("20230501-130000Z".to_string()));
    assert_eq!(stamp_of("Wed, 02 Oct 2002 15:00:00 +0200"), Some("20021002-130000Z".to_string()));
    assert_eq!(stamp_of("Sun, 31 Dec 2023 22:15:30 -0500"), Some("20240101-031530Z".to_string()));
}

#[test]
fn parse_keeps_the_offset() {
    let t = parse_timestamp("Wed, 02 Oct 2002 15:00:00 +0230").unwrap();
    assert_eq!(t.offset_minutes(), 150);
    assert_eq!((t.hour(), t.minute()), (12, 30));
    let t = parse_timestamp("Wed, 02 Oct 2002 15:00:00 -0000").unwrap();
    assert_eq!(t.offset_minutes(), 0);
}

#[test]
fn parse_reads_named_zones() {
    assert_eq!(stamp_of("Tue, 10 Jun 2003 04:00:00 GMT"), Some("20030610-040000Z".to_string()));
    assert_eq!(stamp_of("Tue, 10 Jun 2003 04:00:00 UT"), Some("20030610-040000Z".to_string()));
    assert_eq!(stamp_of("Tue, 10 Jun 2003 04:00:00 Z"), Some("20030610-040000Z".to_string()));
    assert_eq!(stamp_of("Tue, 10 Jun 2003 04:00:00 EST"), Some("20030610-090000Z".to_string()));
    assert_eq!(stamp_of("Tue, 10 Jun 2003 04:00:00 EDT"), Some("20030610-080000Z".to_string()));
    assert_eq!(stamp_of("Tue, 10 Jun 2003 04:00:00 CST"), Some("20030610-100000Z".to_string()));
    assert_eq!(stamp_of("Tue, 10 Jun 2003 04:00:00 CDT"), Some("20030610-090000Z".to_string()));
    assert_eq!(stamp_of("Tue, 10 Jun 2003 04:00:00 MST"), Some("20030610-110000Z".to_string()));
    assert_eq!(stamp_of("Tue, 10 Jun 2003 04:00:00 MDT"), Some("20030610-100000Z".to_string()));
    assert_eq!(stamp_of("Tue, 10 Jun 2003 04:00:00 PST"), Some("20030610-120000Z".to_string()));
    assert_eq!(stamp_of("Tue, 10 Jun 2003 04:00:00 PDT"), Some("20030610-110000Z".to_string()));
}

#[test]
fn parse_reads_every_month() {
    let months = ["Jan", "Feb", "Mar", "Apr", "May", "Jun", "Jul", "Aug", "Sep", "Oct", "Nov",
        "Dec"];
    for (i, month) in months.iter().enumerate() {
        let text = format!("05 {} 2021 06:07:08 +0000", month);
        let t = parse_timestamp(&text).unwrap();
        assert_eq!(t.month() as usize, i + 1);
        assert_eq!(t.day(), 5);
    }
}

#[test]
fn parse_reads_every_day_name() {
    for day in ["Mon", "Tue", "Wed", "Thu", "Fri", "Sat", "Sun"] {
        let text = format!("{}, 05 Jan 2021 06:07:08 +0000", day);
        assert_eq!(stamp_of(&text), Some("20210105-060708Z".to_string()));
    }
}

#[test]
fn parse_works_without_day_name_and_seconds() {
    assert_eq!(stamp_of("1 May 2023 13:05 +0000"), Some("20230501-130500Z".to_string()));
}

#[test]
fn parse_ignores_case_and_extra_blanks() {
    assert_eq!(
        stamp_of("  mon,\t01   MAY 2023\r\n 13:00:00   gmt "),
        Some("20230501-130000Z".to_string())
    );
}

#[test]
fn parse_reads_short_years() {
    assert_eq!(stamp_of("01 May 23 13:00:00 +0000"), Some("20230501-130000Z".to_string()));
    assert_eq!(stamp_of("01 May 49 13:00:00 +0000"), Some("20490501-130000Z".to_string()));
    assert_eq!(stamp_of("01 May 50 13:00:00 +0000"), Some("19500501-130000Z".to_string()));
    assert_eq!(stamp_of("01 May 99 13:00:00 +0000"), Some("19990501-130000Z".to_string()));
    assert_eq!(stamp_of("01 May 101 13:00:00 +0000"), Some("20010501-130000Z".to_string()));
    assert_eq!(stamp_of("01 May 5 13:00:00 +0000"), None);
    assert_eq!(stamp_of("01 May 12023 13:00:00 +0000"), None);
}

#[test]
fn parse_refuses_what_is_no_date() {
    assert_eq!(parse_timestamp(""), None);
    assert_eq!(parse_timestamp("yesterday"), None);
    assert_eq!(parse_timestamp("2023-05-01T13:00:00+00:00"), None);
    assert_eq!(parse_timestamp("Mon, 01 May 2023 13:00:00"), None);
    assert_eq!(parse_timestamp("Mon, 01 May 2023 13:00:00 +0000 extra"), None);
    assert_eq!(parse_timestamp("Xyz, 01 May 2023 13:00:00 +0000"), None);
    assert_eq!(parse_timestamp("Mon 01 May 2023 13:00:00 +0000"), None);
    assert_eq!(parse_timestamp("Mon, 01 Mai 2023 13:00:00 +0000"), None);
    assert_eq!(parse_timestamp("Mon, 001 May 2023 13:00:00 +0000"), None);
    assert_eq!(parse_timestamp("Mon, 01 May 2023 1:00:00 +0000"), None);
    assert_eq!(parse_timestamp("Mon, 01 May 2023 13.00.00 +0000"), None);
    assert_eq!(parse_timestamp("Mon, 01 May 2023 13:00:00 0000"), None);
    assert_eq!(parse_timestamp("Mon, 01 May 2023 13:00:00 +000"), None);
    assert_eq!(parse_timestamp("Mon, 01 May 2023 13:00:00 +0060"), None);
    assert_eq!(parse_timestamp("Mon, 01 May 2023 13:00:00 +2400"), None);
    assert_eq!(parse_timestamp("Mon, 01 May 2023 13:00:00 CET"), None);
}

#[test]
fn parse_refuses_dates_off_the_calendar() {
    assert_eq!(parse_timestamp("Fri, 31 Feb 2023 13:00:00 +0000"), None);
    assert_eq!(parse_timestamp("Fri, 00 Jan 2023 13:00:00 +0000"), None);
    assert_eq!(parse_timestamp("Fri, 01 Jan 2023 24:00:00 +0000"), None);
    assert_eq!(parse_timestamp("Fri, 01 Jan 2023 13:60:00 +0000"), None);
    assert_eq!(parse_timestamp("Fri, 01 Jan 2023 13:00:61 +0000"), None);
}
