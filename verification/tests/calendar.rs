use days::calendar::{has_date_pattern, Date};

fn date(year: i32, month: u32, day: u32) -> Date {
    Date::new(year, month, day).unwrap()
}

#[test]
fn new_accepts_days_of_the_calendar() {
    let d = date(2024, 2, 29);
    assert_eq!((d.year(), d.month(), d.day()), (2024, 2, 29));
    assert!(Date::new(2000, 2, 29).is_some());
    assert!(Date::new(0, 1, 1).is_some());
    assert!(Date::new(0, 2, 29).is_some());
    assert!(Date::new(9999, 12, 31).is_some());
    assert!(Date::new(2024, 4, 30).is_some());
    assert!(Date::new(2024, 12, 31).is_some());
}

#[test]
fn new_refuses_days_that_do_not_exist() {
    assert_eq!(Date::new(2023, 2, 29), None);
    assert_eq!(Date::new(1900, 2, 29), None);
    assert_eq!(Date::new(2100, 2, 29), None);
    assert_eq!(Date::new(2024, 2, 30), None);
    assert_eq!(Date::new(2024, 4, 31), None);
    assert_eq!(Date::new(2024, 0, 10), None);
    assert_eq!(Date::new(2024, 13, 10), None);
    assert_eq!(Date::new(2024, 1, 0), None);
    assert_eq!(Date::new(2024, 1, 32), None);
}

#[test]
fn new_refuses_years_beyond_four_digits() {
    assert_eq!(Date::new(-1, 1, 1), None);
    assert_eq!(Date::new(10000, 1, 1), None);
    assert_eq!(Date::new(i32::MIN, 1, 1), None);
    assert_eq!(Date::new(i32::MAX, 12, 31), None);
}

#[test]
fn parse_reads_the_fixed_pattern() {
    assert_eq!(Date::parse("2024-03-15"), Some(date(2024, 3, 15)));
    assert_eq!(Date::parse("1990-03-15"), Some(date(1990, 3, 15)));
    assert_eq!(Date::parse("0000-01-01"), Some(date(0, 1, 1)));
    assert_eq!(Date::parse("9999-12-31"), Some(date(9999, 12, 31)));
    assert_eq!(Date::parse("2024-02-29"), Some(date(2024, 2, 29)));
    assert_eq!(Date::parse("0007-08-09"), Some(date(7, 8, 9)));
}

#[test]
fn parse_refuses_other_shapes() {
    assert_eq!(Date::parse("not-a-date"), None);
    assert_eq!(Date::parse(""), None);
    assert_eq!(Date::parse("2024-3-15"), None);
    assert_eq!(Date::parse("2024-03-5"), None);
    assert_eq!(Date::parse(" 2024-03-15"), None);
    assert_eq!(Date::parse("2024-03-15 "), None);
    assert_eq!(Date::parse("+2024-03-15"), None);
    assert_eq!(Date::parse("-024-03-15"), None);
    assert_eq!(Date::parse("2024/03/15"), None);
    assert_eq!(Date::parse("20240315"), None);
    assert_eq!(Date::parse("2024-03-150"), None);
    assert_eq!(Date::parse("2024- 3-15"), None);
    assert_eq!(Date::parse("2024-03-1x"), None);
    assert_eq!(Date::parse("\u{ff12}024-03-15"), None);
    assert_eq!(Date::parse("15-03-2024"), None);
}

#[test]
fn parse_refuses_days_that_do_not_exist() {
    assert_eq!(Date::parse("2023-02-29"), None);
    assert_eq!(Date::parse("2024-13-01"), None);
    assert_eq!(Date::parse("2024-00-10"), None);
    assert_eq!(Date::parse("2024-01-00"), None);
    assert_eq!(Date::parse("2024-04-31"), None);
    assert_eq!(Date::parse("2024-01-32"), None);
    assert_eq!(Date::parse("2024-99-99"), None);
}

#[test]
fn pattern_is_a_matter_of_shape_only() {
    assert!(has_date_pattern("2024-03-15"));
    assert!(has_date_pattern("2024-99-99"));
    assert!(has_date_pattern("0000-00-00"));
    assert!(!has_date_pattern("2024-03-1"));
    assert!(!has_date_pattern("2024_03_15"));
    assert!(!has_date_pattern("abcd-ef-gh"));
    assert!(!has_date_pattern(""));
}

#[test]
fn to_text_pads_with_zeros() {
    assert_eq!(date(2024, 3, 5).to_text(), "2024-03-05");
    assert_eq!(date(2024, 12, 31).to_text(), "2024-12-31");
    assert_eq!(date(7, 1, 1).to_text(), "0007-01-01");
    assert_eq!(date(0, 1, 1).to_text(), "0000-01-01");
    assert_eq!(date(9999, 12, 31).to_text(), "9999-12-31");
    assert_eq!(date(123, 10, 9).to_text(), "0123-10-09");
}

#[test]
fn text_reads_back_as_the_same_date() {
    let dates = vec![
        date(0, 1, 1),
        date(1, 2, 28),
        date(1600, 2, 29),
        date(1999, 12, 31),
        date(2000, 1, 1),
        date(2024, 2, 29),
        date(9999, 12, 31),
    ];
    for d in dates {
        assert_eq!(Date::parse(&d.to_text()), Some(d));
    }
}

#[test]
fn days_until_counts_whole_days() {
    assert_eq!(date(2014, 1, 1).days_until(&date(2014, 1, 1)), 0);
    assert_eq!(date(2013, 12, 31).days_until(&date(2014, 1, 1)), 1);
    assert_eq!(date(2014, 1, 2).days_until(&date(2014, 1, 1)), -1);
    assert_eq!(date(2013, 9, 23).days_until(&date(2014, 1, 1)), 100);
    assert_eq!(date(2013, 1, 1).days_until(&date(2014, 1, 1)), 365);
    assert_eq!(date(2010, 1, 1).days_until(&date(2014, 1, 1)), 365 * 4 + 1);
    assert_eq!(date(1614, 1, 1).days_until(&date(2014, 1, 1)), 365 * 400 + 97);
}

#[test]
fn days_until_knows_leap_years() {
    assert_eq!(date(2024, 2, 28).days_until(&date(2024, 3, 1)), 2);
    assert_eq!(date(2023, 2, 28).days_until(&date(2023, 3, 1)), 1);
    assert_eq!(date(1900, 2, 28).days_until(&date(1900, 3, 1)), 1);
    assert_eq!(date(2000, 2, 28).days_until(&date(2000, 3, 1)), 2);
    assert_eq!(date(2024, 1, 1).days_until(&date(2025, 1, 1)), 366);
    assert_eq!(date(0, 1, 1).days_until(&date(1, 1, 1)), 366);
}

#[test]
fn days_until_spans_the_whole_range() {
    assert_eq!(date(0, 1, 1).days_until(&date(9999, 12, 31)), 3_652_424);
    assert_eq!(date(9999, 12, 31).days_until(&date(0, 1, 1)), -3_652_424);
}

#[test]
fn days_until_changes_sign_with_direction() {
    let a = date(1990, 3, 15);
    let b = date(2024, 3, 15);
    assert_eq!(a.days_until(&b), -b.days_until(&a));
}

#[test]
fn dates_compare_as_the_calendar_does() {
    assert!(date(2023, 12, 31) < date(2024, 1, 1));
    assert!(date(2024, 1, 31) < date(2024, 2, 1));
    assert!(date(2024, 2, 1) < date(2024, 2, 2));
    assert_eq!(date(2024, 2, 2), date(2024, 2, 2));
    assert!(date(2024, 2, 2) > date(2024, 1, 31));
}

#[test]
fn earlier_date_has_positive_distance_to_later() {
    let earlier = date(2024, 2, 29);
    let later = date(2024, 3, 1);
    assert!(earlier < later);
    assert!(earlier.days_until(&later) > 0);
    assert!(later.days_until(&earlier) < 0);
}

#[test]
fn partial_order_of_dates_agrees_with_total_order() {
    let dates = vec![
        date(0, 1, 1),
        date(1999, 12, 31),
        date(2000, 1, 1),
        date(2000, 1, 2),
        date(2000, 2, 1),
        date(2001, 1, 1),
        date(9999, 12, 31),
    ];
    for (i, a) in dates.iter().enumerate() {
        for (j, b) in dates.iter().enumerate() {
            assert_eq!(a.partial_cmp(b), Some(i.cmp(&j)));
            assert_eq!(a.cmp(b), i.cmp(&j));
            assert_eq!(a.days_until(b).signum(), (j as i64 - i as i64).signum());
        }
    }
}
