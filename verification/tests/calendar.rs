use chrono::NaiveDate;
use datepicker::calendar::{last_day_of_month, leap_year, month_name, roll_month, CalendarDay};

#[test]
fn last_day_of_february_in_a_leap_year() {
    assert_eq!(last_day_of_month(2024, 2), 29);
}

#[test]
fn last_day_of_february_in_a_common_year() {
    assert_eq!(last_day_of_month(2023, 2), 28);
}

#[test]
fn last_day_of_april() {
    assert_eq!(last_day_of_month(2024, 4), 30);
}

#[test]
fn last_day_of_every_month_of_a_common_year() {
    let expected = [31, 28, 31, 30, 31, 30, 31, 31, 30, 31, 30, 31];
    for month in 1..=12u32 {
        assert_eq!(last_day_of_month(2023, month), expected[(month - 1) as usize]);
    }
}

#[test]
fn centuries_are_leap_only_every_four_hundred_years() {
    assert_eq!(last_day_of_month(1900, 2), 28);
    assert_eq!(last_day_of_month(2000, 2), 29);
    assert_eq!(last_day_of_month(2100, 2), 28);
    assert!(!leap_year(1900));
    assert!(leap_year(2000));
    assert!(leap_year(2024));
    assert!(!leap_year(2023));
}

#[test]
fn leap_years_before_year_one() {
    assert!(leap_year(0));
    assert!(leap_year(-4));
    assert!(!leap_year(-1));
    assert!(!leap_year(-100));
    assert!(leap_year(-400));
    assert_eq!(last_day_of_month(-4, 2), 29);
    assert_eq!(last_day_of_month(i32::MIN, 2), 29);
    assert_eq!(last_day_of_month(i32::MAX, 2), 28);
}

#[test]
fn last_day_agrees_with_chrono() {
    for year in -420..=2420 {
        for month in 1..=12u32 {
            let last = last_day_of_month(year, month);
            assert!(NaiveDate::from_ymd_opt(year, month, last).is_some());
            assert!(NaiveDate::from_ymd_opt(year, month, last + 1).is_none());
        }
    }
}

#[test]
fn month_names() {
    let expected =
        ["Jan", "Feb", "Mar", "Apr", "May", "Jun", "Jul", "Aug", "Sep", "Oct", "Nov", "Dec"];
    for month in 1..=12u32 {
        assert_eq!(month_name(month), expected[(month - 1) as usize]);
    }
}

#[test]
fn roll_month_inside_the_year() {
    assert_eq!(roll_month(2023, 5, 1), (2023, 6));
    assert_eq!(roll_month(2023, 5, -1), (2023, 4));
}

#[test]
fn roll_month_carries_into_the_year() {
    assert_eq!(roll_month(2023, 12, 1), (2024, 1));
    assert_eq!(roll_month(2023, 1, -1), (2022, 12));
    assert_eq!(roll_month(i32::MAX, 11, 1), (i32::MAX, 12));
    assert_eq!(roll_month(i32::MIN, 2, -1), (i32::MIN, 1));
}

#[test]
fn new_accepts_dates_that_exist() {
    assert_eq!(CalendarDay::new(2024, 2, 29), Some(CalendarDay { year: 2024, month: 2, day: 29 }));
    assert_eq!(CalendarDay::new(2023, 12, 31), Some(CalendarDay { year: 2023, month: 12, day: 31 }));
    assert_eq!(CalendarDay::new(-1, 1, 1), Some(CalendarDay { year: -1, month: 1, day: 1 }));
}

#[test]
fn new_refuses_dates_that_do_not_exist() {
    assert_eq!(CalendarDay::new(2023, 2, 29), None);
    assert_eq!(CalendarDay::new(2023, 4, 31), None);
    assert_eq!(CalendarDay::new(2023, 0, 1), None);
    assert_eq!(CalendarDay::new(2023, 13, 1), None);
    assert_eq!(CalendarDay::new(2023, 1, 0), None);
    assert_eq!(CalendarDay::new(2023, 1, 32), None);
}

#[test]
fn is_valid_tells_dates_apart() {
    assert!(CalendarDay { year: 2024, month: 2, day: 29 }.is_valid());
    assert!(!CalendarDay { year: 2023, month: 2, day: 29 }.is_valid());
    assert!(!CalendarDay { year: 0, month: 0, day: 0 }.is_valid());
}

#[test]
fn step_day_inside_the_month() {
    let day = CalendarDay { year: 2023, month: 6, day: 15 };
    assert_eq!(day.step_day(1), CalendarDay { year: 2023, month: 6, day: 16 });
    assert_eq!(day.step_day(-1), CalendarDay { year: 2023, month: 6, day: 14 });
}

#[test]
fn step_day_over_the_end_of_february() {
    let leap = CalendarDay { year: 2024, month: 2, day: 28 };
    assert_eq!(leap.step_day(1), CalendarDay { year: 2024, month: 2, day: 29 });
    let common = CalendarDay { year: 2023, month: 2, day: 28 };
    assert_eq!(common.step_day(1), CalendarDay { year: 2023, month: 3, day: 1 });
    let march = CalendarDay { year: 2024, month: 3, day: 1 };
    assert_eq!(march.step_day(-1), CalendarDay { year: 2024, month: 2, day: 29 });
}

#[test]
fn step_day_agrees_with_chrono() {
    let mut day = CalendarDay { year: 1999, month: 12, day: 30 };
    let mut date = NaiveDate::from_ymd_opt(1999, 12, 30).unwrap();
    for _ in 0..1500 {
        day = day.step_day(1);
        date = date.succ_opt().unwrap();
        assert_eq!(NaiveDate::from_ymd_opt(day.year, day.month, day.day), Some(date));
    }
    for _ in 0..3000 {
        day = day.step_day(-1);
        date = date.pred_opt().unwrap();
        assert_eq!(NaiveDate::from_ymd_opt(day.year, day.month, day.day), Some(date));
    }
}

#[test]
fn step_day_there_and_back() {
    let days = [
        CalendarDay { year: 2023, month: 1, day: 1 },
        CalendarDay { year: 2023, month: 12, day: 31 },
        CalendarDay { year: 2024, month: 2, day: 29 },
        CalendarDay { year: 2024, month: 3, day: 1 },
        CalendarDay { year: 2023, month: 7, day: 17 },
    ];
    for day in days {
        assert_eq!(day.step_day(1).step_day(-1), day);
        assert_eq!(day.step_day(-1).step_day(1), day);
    }
}
