use carender::calendar::{calendar, day_line, default_columns};
use carender::options::{choose_first_weekday, choose_layout, default_column};
use carender::text::{center, decimal_string, join_strings, pad2_string};
use carender::{CalError, CalFormat, CalRange, Calendar, CalendarDate, Month, MonthOfYear, Weekday, Year};

fn moy(y: u32, m: u8) -> MonthOfYear {
    MonthOfYear::new(y, m).unwrap()
}

fn ymd(y: i32, m: u32, d: u32) -> CalendarDate {
    CalendarDate::new(y, m, d).unwrap()
}

#[test]
fn leap_years_follow_gregorian_rule() {
    assert!(Year(2000).is_leap_year());
    assert!(Year(2020).is_leap_year());
    assert!(!Year(2021).is_leap_year());
    assert!(!Year(2100).is_leap_year());
    assert!(Year(2400).is_leap_year());
    assert!(!Year(1900).is_leap_year());
    assert!(Year(0).is_leap_year());
}

#[test]
fn month_lengths_of_a_year() {
    let lengths = [31, 28, 31, 30, 31, 30, 31, 31, 30, 31, 30, 31];
    for m in 1..=12u8 {
        assert_eq!(moy(2023, m).num_of_days(), lengths[m as usize - 1]);
    }
    assert_eq!(moy(2024, 2).num_of_days(), 29);
    assert_eq!(moy(1900, 2).num_of_days(), 28);
    assert_eq!(moy(2000, 2).num_of_days(), 29);
}

#[test]
fn weekday_of_first_in_early_years() {
    assert_eq!(moy(1, 1).weekday_of_first(), Weekday::Monday);
    assert_eq!(moy(0, 1).weekday_of_first(), Weekday::Saturday);
    assert_eq!(moy(2000, 3).weekday_of_first(), Weekday::Wednesday);
    assert_eq!(moy(4_000_000_000, 1).weekday_of_first(), moy(4_000_000_000 - 400, 1).weekday_of_first());
}

#[test]
fn pred_succ_round_trip_across_years() {
    for (y, m) in [(2022, 12), (2022, 1), (2021, 6), (1, 1)] {
        let x = moy(y, m);
        assert_eq!(x.succ().pred(), x);
        assert_eq!(x.pred().succ(), x);
    }
    assert_eq!(moy(2022, 12).succ(), moy(2023, 1));
    assert_eq!(moy(2022, 1).pred(), moy(2021, 12));
}

#[test]
fn month_cursor_hands_out_consecutive_months() {
    let mut it = moy(2022, 12).iter();
    assert_eq!(it.next(), Some(moy(2022, 12)));
    assert_eq!(it.next(), Some(moy(2023, 1)));
    assert_eq!(it.current, moy(2023, 2));
}

#[test]
fn monday_first_shifts_rows() {
    let cal = moy(2022, 11).calendar(Weekday::Monday);
    assert_eq!(cal[1], "Mo Tu We Th Fr Sa Su ");
    assert_eq!(cal[2], "    1  2  3  4  5  6 ");
}

#[test]
fn three_months_side_by_side() {
    let range = CalRange::new(2022, 10, 3, false).unwrap();
    let text = CalFormat::new(range, Weekday::Sunday, 3).format();
    let lines: Vec<&str> = text.split('\n').collect();
    assert_eq!(lines.len(), 8);
    assert_eq!(lines[0], "    October 2022          November 2022         December 2022    ");
    let blocks: Vec<Vec<String>> = [10u8, 11, 12].iter().map(|m| moy(2022, *m).calendar(Weekday::Sunday)).collect();
    for i in 0..8 {
        let parts = vec![blocks[0][i].clone(), blocks[1][i].clone(), blocks[2][i].clone()];
        assert_eq!(lines[i], parts.join(" "));
    }
}

#[test]
fn span_with_even_count_starts_early() {
    let range = CalRange::new(2022, 11, 4, true).unwrap();
    assert_eq!(range.iter(), vec![moy(2022, 9), moy(2022, 10), moy(2022, 11), moy(2022, 12)]);
    let range = CalRange::new(2022, 11, 3, true).unwrap();
    assert_eq!(range.iter(), vec![moy(2022, 10), moy(2022, 11), moy(2022, 12)]);
}

#[test]
fn whole_year_ignores_month_and_span() {
    let cal = Calendar::new((2022, 7, 15), 5, true, true, 0, Some(3), None, (2022, 7, 15)).unwrap();
    let months = cal.iter_month();
    assert_eq!(months.len(), 12);
    for (i, m) in months.iter().enumerate() {
        assert_eq!(*m, moy(2022, i as u8 + 1));
    }
}

#[test]
fn month_errors_name_the_value() {
    assert_eq!(MonthOfYear::new(2022, 0), Err(CalError::InvalidMonth(0)));
    assert_eq!(Month::try_from(13), Err(CalError::InvalidMonth(13)));
    assert_eq!(CalError::InvalidMonth(13).message(), "invalid month: 13");
    assert!(CalRange::new(2022, 13, 1, false).is_err());
}

#[test]
fn weekday_errors_name_the_value() {
    assert_eq!(Weekday::try_from(7), Err(CalError::InvalidWeekday(7)));
    assert_eq!(CalError::InvalidWeekday(200).message(), "invalid weekday: 200");
    assert!(Calendar::new((2022, 11, 1), 1, false, false, 7, Some(3), None, (2022, 11, 1)).is_none());
}

#[test]
fn invalid_dates_are_refused() {
    assert!(CalendarDate::new(2021, 2, 29).is_none());
    assert!(CalendarDate::new(2020, 2, 29).is_some());
    assert!(CalendarDate::new(0, 1, 1).is_none());
    assert!(CalendarDate::new(2022, 4, 31).is_none());
    assert!(CalendarDate::new(2022, 13, 1).is_none());
    assert!(Calendar::new((2022, 2, 30), 1, false, false, 0, None, None, (2022, 1, 1)).is_none());
}

#[test]
fn text_helpers() {
    assert_eq!(decimal_string(0), "0");
    assert_eq!(decimal_string(4294967295), "4294967295");
    assert_eq!(pad2_string(7), " 7");
    assert_eq!(pad2_string(42), "42");
    assert_eq!(center("ab", 5), " ab  ");
    assert_eq!(center("abcdef", 3), "abcdef");
    let parts = vec!["a".to_string(), "b".to_string(), "c".to_string()];
    assert_eq!(join_strings(&parts, ", "), "a, b, c");
    assert_eq!(join_strings(&Vec::new(), ", "), "");
}

#[test]
fn default_column_counts() {
    assert_eq!(default_columns(None, false), 3);
    assert_eq!(default_columns(Some(200), true), 3);
    assert_eq!(default_columns(Some(43), false), 2);
    assert_eq!(default_columns(Some(10), false), 0);
    assert_eq!(default_column(None), 3);
    assert_eq!(default_column(Some(50)), 2);
    assert_eq!(default_column(Some(10)), 1);
    assert_eq!(default_column(Some(120)), 3);
    let cal = Calendar::new((2022, 11, 1), 1, false, false, 0, None, Some(10), (2022, 11, 1)).unwrap();
    assert_eq!(cal.ncol, 1);
}

#[test]
fn layout_precedence() {
    assert_eq!(choose_layout(true, true, true, Some(5), true, true, false), (1, false, false));
    assert_eq!(choose_layout(false, true, true, Some(5), false, true, false), (3, true, false));
    assert_eq!(choose_layout(false, false, true, Some(5), true, false, true), (12, false, true));
    assert_eq!(choose_layout(false, false, false, Some(5), true, true, false), (5, true, false));
    assert_eq!(choose_layout(false, false, false, Some(0), false, false, false), (1, false, false));
    assert_eq!(choose_layout(false, false, false, None, false, true, false), (12, false, true));
    assert_eq!(choose_layout(false, false, false, None, false, true, true), (1, false, false));
    assert_eq!(choose_first_weekday(true, Some(3)), 1);
    assert_eq!(choose_first_weekday(false, Some(3)), 3);
    assert_eq!(choose_first_weekday(false, None), 0);
}

#[test]
fn neighbour_days_are_dimmed() {
    colored::control::set_override(true);
    let cal = calendar(ymd(2022, 11, 1), Weekday::Sunday, false, ymd(1970, 1, 1), true);
    assert_eq!(
        cal[2],
        "\x1b[2;31m30\x1b[0m \x1b[2m31\x1b[0m  1  2  3  4 \x1b[31m 5\x1b[0m "
    );
}

#[test]
fn highlighted_weekend_day() {
    colored::control::set_override(true);
    let line = day_line(ymd(2022, 11, 5), Weekday::Sunday, 11, ymd(2022, 11, 5), false);
    assert_eq!(line, "       1  2  3  4 \x1b[7;31m 5\x1b[0m ");
}

#[test]
fn colors_off_gives_plain_layout() {
    colored::control::set_override(false);
    let cal = calendar(ymd(2022, 11, 11), Weekday::Sunday, false, ymd(2022, 11, 11), false);
    assert_eq!(cal, moy(2022, 11).calendar(Weekday::Sunday));
}

#[test]
fn whole_year_titles_leave_out_the_year() {
    let cal = calendar(ymd(2022, 1, 1), Weekday::Sunday, true, ymd(1970, 1, 1), false);
    assert_eq!(cal[0], "       January       ");
}
