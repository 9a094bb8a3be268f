use foodtracker::date::{format_date, parse_date, CalendarDate};

fn ymd(year: i32, month: u8, day: u8) -> CalendarDate {
    CalendarDate { year, month, day }
}

#[test]
fn parses_plain_date() {
    assert_eq!(parse_date("2024-06-01"), Some(ymd(2024, 6, 1)));
    assert_eq!(parse_date("2024-05-20"), Some(ymd(2024, 5, 20)));
}

#[test]
fn rejects_month_and_day_out_of_range() {
    assert_eq!(parse_date("2024-13-40"), None);
    assert_eq!(parse_date("2024-00-10"), None);
    assert_eq!(parse_date("2024-04-31"), None);
    assert_eq!(parse_date("2024-01-00"), None);
    assert_eq!(parse_date("2024-01-32"), None);
}

#[test]
fn leap_years_follow_the_gregorian_rule() {
    assert_eq!(parse_date("2024-02-29"), Some(ymd(2024, 2, 29)));
    assert_eq!(parse_date("2000-02-29"), Some(ymd(2000, 2, 29)));
    assert_eq!(parse_date("2023-02-29"), None);
    assert_eq!(parse_date("1900-02-29"), None);
    assert_eq!(parse_date("2024-02-30"), None);
}

#[test]
fn rejects_other_shapes() {
    assert_eq!(parse_date(""), None);
    assert_eq!(parse_date("24-06-01"), None);
    assert_eq!(parse_date("2024-6-01"), None);
    assert_eq!(parse_date("2024/06/01"), None);
    assert_eq!(parse_date(" 2024-06-01"), None);
    assert_eq!(parse_date("2024-06-01T00:00"), None);
    assert_eq!(parse_date("２024-06-01"), None);
}

#[test]
fn formats_with_zero_padding() {
    assert_eq!(format_date(&ymd(2024, 6, 1)), "2024-06-01");
    assert_eq!(format_date(&ymd(7, 3, 5)), "0007-03-05");
    assert_eq!(format_date(&ymd(9999, 12, 31)), "9999-12-31");
}

#[test]
fn dates_round_trip_through_text() {
    for text in ["2024-03-01", "0000-01-01", "9999-12-31", "2024-02-29", "1999-11-30"] {
        let d = parse_date(text).unwrap();
        assert_eq!(format_date(&d), text);
        assert_eq!(parse_date(&format_date(&d)), Some(d));
    }
}

#[test]
fn sort_key_orders_dates() {
    assert!(ymd(2024, 6, 1).sort_key() > ymd(2024, 5, 20).sort_key());
    assert!(ymd(2025, 1, 1).sort_key() > ymd(2024, 12, 31).sort_key());
    assert_eq!(ymd(2024, 6, 1).sort_key(), 20240601);
}
