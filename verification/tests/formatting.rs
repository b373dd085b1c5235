use lanmon::clock::{format_u32, wall_now, WallClock};

#[test]
fn timestamp_renders_day_month_year_hour_minute() {
    let w = WallClock { year: 2018, month: 11, day: 25, hour: 14, minute: 5 };
    assert_eq!(w.format_timestamp(), "25-Nov-2018 14:05");
}

#[test]
fn timestamp_pads_single_digits() {
    let w = WallClock { year: 2024, month: 2, day: 3, hour: 4, minute: 9 };
    assert_eq!(w.format_timestamp(), "03-Feb-2024 04:09");
}

#[test]
fn timestamp_pads_small_years() {
    let w = WallClock { year: 99, month: 7, day: 1, hour: 0, minute: 0 };
    assert_eq!(w.format_timestamp(), "01-Jul-0099 00:00");
    let w = WallClock { year: 0, month: 1, day: 1, hour: 0, minute: 0 };
    assert_eq!(w.format_timestamp(), "01-Jan-0000 00:00");
}

#[test]
fn timestamp_all_months() {
    let names = [
        "Jan", "Feb", "Mar", "Apr", "May", "Jun", "Jul", "Aug", "Sep", "Oct", "Nov", "Dec",
    ];
    for m in 1..=12u8 {
        let w = WallClock { year: 2020, month: m, day: 15, hour: 12, minute: 30 };
        let expected = format!("15-{}-2020 12:30", names[(m - 1) as usize]);
        assert_eq!(w.format_timestamp(), expected);
    }
}

#[test]
fn decimal_rendering() {
    assert_eq!(format_u32(0), "0");
    assert_eq!(format_u32(7), "7");
    assert_eq!(format_u32(10), "10");
    assert_eq!(format_u32(12345), "12345");
    assert_eq!(format_u32(4294967295), "4294967295");
}

#[test]
fn from_parts_clamps_out_of_range_fields() {
    let w = WallClock::from_parts(-5, 0, 0, 99, 99);
    assert_eq!(w.year, 0);
    assert_eq!(w.month, 1);
    assert_eq!(w.day, 1);
    assert_eq!(w.hour, 23);
    assert_eq!(w.minute, 59);
    let w = WallClock::from_parts(2026, 10, 12, 9, 41);
    assert_eq!(w.year, 2026);
    assert_eq!(w.month, 10);
    assert_eq!(w.day, 12);
    assert_eq!(w.hour, 9);
    assert_eq!(w.minute, 41);
}

#[test]
fn wall_now_is_well_formed() {
    let w = wall_now();
    assert!((1..=12).contains(&w.month));
    assert!((1..=31).contains(&w.day));
    assert!(w.hour < 24);
    assert!(w.minute < 60);
    // the rendering is well-shaped: DD-Mon-YYYY HH:MM
    let s = w.format_timestamp();
    assert_eq!(s.len(), 17);
    assert_eq!(&s[2..3], "-");
    assert_eq!(&s[6..7], "-");
    assert_eq!(&s[11..12], " ");
    assert_eq!(&s[14..15], ":");
}

#[test]
fn timestamp_wide_year() {
    let w = WallClock { year: 123456, month: 1, day: 15, hour: 23, minute: 59 };
    assert_eq!(w.format_timestamp(), "15-Jan-123456 23:59");
}
