use monsum::Date;

fn ymd(date: Date) -> (i32, u32, u32) {
    (date.year(), date.month(), date.day())
}

#[test]
fn a_date_reads_back_as_it_was_made() {
    assert_eq!(ymd(Date::new(2022, 9, 29).unwrap()), (2022, 9, 29));
    assert_eq!(ymd(Date::new(1, 1, 1).unwrap()), (1, 1, 1));
    assert_eq!(ymd(Date::new(9999, 12, 31).unwrap()), (9999, 12, 31));
    assert_eq!(Date::new(2022, 9, 29), Date::new(2022, 9, 29));
    assert_ne!(Date::new(2022, 9, 29), Date::new(2022, 9, 30));
}

#[test]
fn february_has_a_29th_in_leap_years_only() {
    assert!(Date::new(2024, 2, 29).is_some());
    assert!(Date::new(2023, 2, 29).is_none());
    assert!(Date::new(1900, 2, 29).is_none());
    assert!(Date::new(2100, 2, 29).is_none());
    assert!(Date::new(2000, 2, 29).is_some());
    assert!(Date::new(4, 2, 29).is_some());
    assert!(Date::new(2022, 2, 28).is_some());
    assert!(Date::new(2022, 2, 30).is_none());
    assert!(Date::new(2024, 2, 30).is_none());
}

#[test]
fn every_month_has_its_own_length() {
    let lengths = [31, 28, 31, 30, 31, 30, 31, 31, 30, 31, 30, 31];
    for (index, length) in lengths.iter().enumerate() {
        let month = index as u32 + 1;
        assert!(Date::new(2023, month, *length).is_some(), "{month}");
        assert!(Date::new(2023, month, *length + 1).is_none(), "{month}");
        assert!(Date::new(2023, month, 1).is_some(), "{month}");
        assert!(Date::new(2023, month, 0).is_none(), "{month}");
    }
}

#[test]
fn months_and_years_have_bounds() {
    assert!(Date::new(2022, 0, 1).is_none());
    assert!(Date::new(2022, 13, 1).is_none());
    assert!(Date::new(2022, u32::MAX, 1).is_none());
    assert!(Date::new(2022, 1, u32::MAX).is_none());
    assert!(Date::new(0, 1, 1).is_none());
    assert!(Date::new(-1, 1, 1).is_none());
    assert!(Date::new(10000, 1, 1).is_none());
    assert!(Date::new(i32::MAX, 1, 1).is_none());
    assert!(Date::new(i32::MIN, 1, 1).is_none());
}

#[test]
fn dates_agree_with_the_calendar_of_chrono() {
    for year in [1, 4, 100, 400, 1582, 1600, 1900, 1999, 2000, 2022, 2024, 2100, 9999] {
        for month in 0..=13u32 {
            for day in 0..=32u32 {
                let ours = Date::new(year, month, day);
                let theirs = chrono::NaiveDate::from_ymd_opt(year, month, day);
                assert_eq!(ours.is_some(), theirs.is_some(), "{year}-{month}-{day}");
            }
        }
    }
}
