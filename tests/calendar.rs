use carender::calendar::{calendar, day_line, month_year_line, weekday_line};
use carender::{Calendar, CalendarDate, Weekday};

fn ymd(y: i32, m: u32, d: u32) -> CalendarDate {
    CalendarDate::new(y, m, d).unwrap()
}

/// Leaves out the terminal color sequences `ESC [ ... m`.
fn strip_color(s: &str) -> String {
    let mut out = String::new();
    let mut in_escape = false;
    for c in s.chars() {
        if in_escape {
            in_escape = c != 'm';
        } else if c == '\x1b' {
            in_escape = true;
        } else {
            out.push(c);
        }
    }
    out
}

#[test]
fn month_year_line_test() {
    let date = ymd(2022, 1, 1);
    assert_eq!(month_year_line(date, false), "    January 2022     ");
    let date = ymd(2022, 11, 1);
    assert_eq!(month_year_line(date, false), "    November 2022    ");
}

#[test]
fn weekday_line_test() {
    colored::control::set_override(true);
    let su = "\x1b[31mSu\x1b[0m Mo Tu We Th Fr \x1b[31mSa\x1b[0m ";
    assert_eq!(weekday_line(Weekday::Sunday), su);
    let mo = "Mo Tu We Th Fr \x1b[31mSa\x1b[0m \x1b[31mSu\x1b[0m ";
    assert_eq!(weekday_line(Weekday::Monday), mo);
}

#[test]
fn day_line_test() {
    colored::control::set_override(true);
    let date = ymd(2022, 11, 1);
    let cur_line = "      \x1b[7m 1\x1b[0m  2  3  4 \x1b[31m 5\x1b[0m ";
    assert_eq!(day_line(date, Weekday::Sunday, 11, date, false), cur_line);
    let prev_line = "\x1b[31m30\x1b[0m 31                ";
    assert_eq!(day_line(date, Weekday::Sunday, 10, date, false), prev_line);
}

#[test]
fn lib_calendar_vec() {
    colored::control::set_override(true);
    let date = ymd(2022, 11, 11);
    let cal: Vec<String> = calendar(date, Weekday::Sunday, false, date, false);
    assert_eq!(
        cal,
        [
            "    November 2022    ",
            "\x1b[31mSu\x1b[0m Mo Tu We Th Fr \x1b[31mSa\x1b[0m ",
            "       1  2  3  4 \x1b[31m 5\x1b[0m ",
            "\x1b[31m 6\x1b[0m  7  8  9 10 \x1b[7m11\x1b[0m \x1b[31m12\x1b[0m ",
            "\x1b[31m13\x1b[0m 14 15 16 17 18 \x1b[31m19\x1b[0m ",
            "\x1b[31m20\x1b[0m 21 22 23 24 25 \x1b[31m26\x1b[0m ",
            "\x1b[31m27\x1b[0m 28 29 30          ",
            "                     "
        ]
    );
}

#[test]
fn lib_draw_single_month() {
    let cal = Calendar::new((2022, 11, 1), 1, false, false, 0, Some(3), None, (1970, 1, 1)).unwrap();
    assert_eq!(
        strip_color(&cal.to_string()),
        "\
\x20   November 2022    \n\
   Su Mo Tu We Th Fr Sa \n\
   30 31  1  2  3  4  5 \n\
\x206  7  8  9 10 11 12 \n\
   13 14 15 16 17 18 19 \n\
   20 21 22 23 24 25 26 \n\
   27 28 29 30  1  2  3 \n\
\x204  5  6  7  8  9 10 "
    );
}

#[test]
fn lib_draw_two_months() {
    let cal = Calendar::new((2022, 11, 1), 2, false, false, 0, Some(3), None, (1970, 1, 1)).unwrap();
    assert_eq!(
        strip_color(&cal.to_string()),
        "\
\x20   November 2022         December 2022    \n\
   Su Mo Tu We Th Fr Sa  Su Mo Tu We Th Fr Sa \n\
\x20      1  2  3  4  5               1  2  3 \n\
\x206  7  8  9 10 11 12   4  5  6  7  8  9 10 \n\
   13 14 15 16 17 18 19  11 12 13 14 15 16 17 \n\
   20 21 22 23 24 25 26  18 19 20 21 22 23 24 \n\
   27 28 29 30           25 26 27 28 29 30 31 \n\
\x20                                          "
    );
}

#[test]
fn lib_draw_year() {
    let cal = Calendar::new((2022, 1, 1), 12, false, true, 0, Some(3), None, (1970, 1, 1)).unwrap();
    assert_eq!(
        strip_color(&cal.to_string()),
        "\
\x20                              2022                                \n\
                                                                  \n\
\x20      January               February                 March        \n\
   Su Mo Tu We Th Fr Sa   Su Mo Tu We Th Fr Sa   Su Mo Tu We Th Fr Sa \n\
\x20                  1          1  2  3  4  5          1  2  3  4  5 \n\
\x202  3  4  5  6  7  8    6  7  8  9 10 11 12    6  7  8  9 10 11 12 \n\
\x209 10 11 12 13 14 15   13 14 15 16 17 18 19   13 14 15 16 17 18 19 \n\
   16 17 18 19 20 21 22   20 21 22 23 24 25 26   20 21 22 23 24 25 26 \n\
   23 24 25 26 27 28 29   27 28                  27 28 29 30 31       \n\
   30 31                                                              \n\
\x20       April                   May                   June         \n\
   Su Mo Tu We Th Fr Sa   Su Mo Tu We Th Fr Sa   Su Mo Tu We Th Fr Sa \n\
\x20               1  2    1  2  3  4  5  6  7             1  2  3  4 \n\
\x203  4  5  6  7  8  9    8  9 10 11 12 13 14    5  6  7  8  9 10 11 \n\
   10 11 12 13 14 15 16   15 16 17 18 19 20 21   12 13 14 15 16 17 18 \n\
   17 18 19 20 21 22 23   22 23 24 25 26 27 28   19 20 21 22 23 24 25 \n\
   24 25 26 27 28 29 30   29 30 31               26 27 28 29 30       \n\
\x20                                                                  \n\
\x20       July                  August                September      \n\
   Su Mo Tu We Th Fr Sa   Su Mo Tu We Th Fr Sa   Su Mo Tu We Th Fr Sa \n\
\x20               1  2       1  2  3  4  5  6                1  2  3 \n\
\x203  4  5  6  7  8  9    7  8  9 10 11 12 13    4  5  6  7  8  9 10 \n\
   10 11 12 13 14 15 16   14 15 16 17 18 19 20   11 12 13 14 15 16 17 \n\
   17 18 19 20 21 22 23   21 22 23 24 25 26 27   18 19 20 21 22 23 24 \n\
   24 25 26 27 28 29 30   28 29 30 31            25 26 27 28 29 30    \n\
   31                                                                 \n\
\x20      October               November               December       \n\
   Su Mo Tu We Th Fr Sa   Su Mo Tu We Th Fr Sa   Su Mo Tu We Th Fr Sa \n\
\x20                  1          1  2  3  4  5                1  2  3 \n\
\x202  3  4  5  6  7  8    6  7  8  9 10 11 12    4  5  6  7  8  9 10 \n\
\x209 10 11 12 13 14 15   13 14 15 16 17 18 19   11 12 13 14 15 16 17 \n\
   16 17 18 19 20 21 22   20 21 22 23 24 25 26   18 19 20 21 22 23 24 \n\
   23 24 25 26 27 28 29   27 28 29 30            25 26 27 28 29 30 31 \n\
   30 31                                                              "
    );
}
