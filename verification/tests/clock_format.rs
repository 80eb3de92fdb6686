use chrono::Datelike;
use footbar::clock::{format_timestamp, now};

#[test]
fn clock_tick_literal() {
    assert_eq!(format_timestamp(2024, 1, 15, 9, 30, 0), "2024-01-15 09:30:00");
}

#[test]
fn all_fields_are_zero_padded() {
    assert_eq!(format_timestamp(987, 12, 5, 0, 0, 7), "0987-12-05 00:00:07");
    assert_eq!(format_timestamp(0, 1, 1, 0, 0, 0), "0000-01-01 00:00:00");
}

#[test]
fn wide_and_negative_years_render() {
    assert_eq!(format_timestamp(12345, 6, 7, 8, 9, 10), "12345-06-07 08:09:10");
    assert_eq!(format_timestamp(-44, 3, 15, 12, 0, 0), "-0044-03-15 12:00:00");
}

#[test]
fn now_has_timestamp_shape() {
    let s = now();
    let b = s.as_bytes();
    assert_eq!(b.len(), 19);
    for (i, c) in b.iter().enumerate() {
        match i {
            4 | 7 => assert_eq!(*c, b'-'),
            10 => assert_eq!(*c, b' '),
            13 | 16 => assert_eq!(*c, b':'),
            _ => assert!(c.is_ascii_digit()),
        }
    }
}

#[test]
fn now_matches_wall_clock() {
    // Two readings straddle the library's own; the rendered date and
    // hour must fall between them (they are almost always equal).
    let before = chrono::Local::now();
    let s = now();
    let after = chrono::Local::now();
    let lo = format!("{}", before.format("%Y-%m-%d %H:%M:%S"));
    let hi = format!("{}", after.format("%Y-%m-%d %H:%M:%S"));
    assert!(lo <= s && s <= hi, "{} <= {} <= {}", lo, s, hi);
    // The rendered year is the wall-clock year.
    let year: i32 = s[0..4].parse().unwrap();
    assert!(year == before.year() || year == after.year());
}
