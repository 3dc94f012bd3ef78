use carender::{CalFormat, CalRange, MonthOfYear, Weekday};

fn moy(y: u32, m: u8) -> MonthOfYear {
    MonthOfYear::new(y, m).unwrap()
}

#[test]
fn month_header() {
    assert_eq!(moy(2022, 1).header(), "    January 2022     ");
    assert_eq!(moy(2022, 2).header(), "    February 2022    ");
    assert_eq!(moy(2022, 3).header(), "     March 2022      ");
}

#[test]
fn week_line() {
    assert_eq!(Weekday::Sunday.week_line(), "Su Mo Tu We Th Fr Sa ");
    assert_eq!(Weekday::Monday.week_line(), "Mo Tu We Th Fr Sa Su ");
    assert_eq!(Weekday::Saturday.week_line(), "Sa Su Mo Tu We Th Fr ");
}

#[test]
fn format_calendar_vec() {
    assert_eq!(
        moy(2022, 11).calendar(Weekday::Sunday),
        [
            "    November 2022    ",
            "Su Mo Tu We Th Fr Sa ",
            "       1  2  3  4  5 ",
            " 6  7  8  9 10 11 12 ",
            "13 14 15 16 17 18 19 ",
            "20 21 22 23 24 25 26 ",
            "27 28 29 30          ",
            "                     "
        ]
    );
    assert_eq!(
        moy(2022, 11).calendar(Weekday::Monday),
        [
            "    November 2022    ",
            "Mo Tu We Th Fr Sa Su ",
            "    1  2  3  4  5  6 ",
            " 7  8  9 10 11 12 13 ",
            "14 15 16 17 18 19 20 ",
            "21 22 23 24 25 26 27 ",
            "28 29 30             ",
            "                     "
        ]
    );
    assert_eq!(
        moy(2022, 11).calendar(Weekday::Wednesday),
        [
            "    November 2022    ",
            "We Th Fr Sa Su Mo Tu ",
            "                   1 ",
            " 2  3  4  5  6  7  8 ",
            " 9 10 11 12 13 14 15 ",
            "16 17 18 19 20 21 22 ",
            "23 24 25 26 27 28 29 ",
            "30                   "
        ]
    );
}

#[test]
fn format_draw_single_month() {
    let range = CalRange::new(2022, 11, 1, false).unwrap();
    let cal = CalFormat::new(range, Weekday::Sunday, 3);
    assert_eq!(
        cal.format(),
        "\
\x20   November 2022    \n\
   Su Mo Tu We Th Fr Sa \n\
\x20      1  2  3  4  5 \n\
\x206  7  8  9 10 11 12 \n\
   13 14 15 16 17 18 19 \n\
   20 21 22 23 24 25 26 \n\
   27 28 29 30          \n\
\x20                    "
    );
}

#[test]
fn format_draw_two_months() {
    let range = CalRange::new(2022, 11, 2, false).unwrap();
    let cal = CalFormat::new(range, Weekday::Sunday, 3);
    assert_eq!(
        cal.format(),
        "\
\x20   November 2022         December 2022    \n\
   Su Mo Tu We Th Fr Sa  Su Mo Tu We Th Fr Sa \n\
\x20      1  2  3  4  5               1  2  3 \n\
\x206  7  8  9 10 11 12   4  5  6  7  8  9 10 \n\
   13 14 15 16 17 18 19  11 12 13 14 15 16 17 \n\
   20 21 22 23 24 25 26  18 19 20 21 22 23 24 \n\
   27 28 29 30           25 26 27 28 29 30 31 \n\
\x20                                          "
    );
}

#[test]
fn format_draw_year() {
    let range = CalRange::new(2022, 1, 12, false).unwrap();
    let cal = CalFormat::new(range, Weekday::Sunday, 3);
    assert_eq!(
        cal.format(),
        "\
\x20   January 2022          February 2022          March 2022      \n\
   Su Mo Tu We Th Fr Sa  Su Mo Tu We Th Fr Sa  Su Mo Tu We Th Fr Sa \n\
\x20                  1         1  2  3  4  5         1  2  3  4  5 \n\
\x202  3  4  5  6  7  8   6  7  8  9 10 11 12   6  7  8  9 10 11 12 \n\
\x209 10 11 12 13 14 15  13 14 15 16 17 18 19  13 14 15 16 17 18 19 \n\
   16 17 18 19 20 21 22  20 21 22 23 24 25 26  20 21 22 23 24 25 26 \n\
   23 24 25 26 27 28 29  27 28                 27 28 29 30 31       \n\
   30 31                                                            \n\
\x20    April 2022             May 2022              June 2022      \n\
   Su Mo Tu We Th Fr Sa  Su Mo Tu We Th Fr Sa  Su Mo Tu We Th Fr Sa \n\
\x20               1  2   1  2  3  4  5  6  7            1  2  3  4 \n\
\x203  4  5  6  7  8  9   8  9 10 11 12 13 14   5  6  7  8  9 10 11 \n\
   10 11 12 13 14 15 16  15 16 17 18 19 20 21  12 13 14 15 16 17 18 \n\
   17 18 19 20 21 22 23  22 23 24 25 26 27 28  19 20 21 22 23 24 25 \n\
   24 25 26 27 28 29 30  29 30 31              26 27 28 29 30       \n\
\x20                                                                \n\
\x20     July 2022            August 2022         September 2022    \n\
   Su Mo Tu We Th Fr Sa  Su Mo Tu We Th Fr Sa  Su Mo Tu We Th Fr Sa \n\
\x20               1  2      1  2  3  4  5  6               1  2  3 \n\
\x203  4  5  6  7  8  9   7  8  9 10 11 12 13   4  5  6  7  8  9 10 \n\
   10 11 12 13 14 15 16  14 15 16 17 18 19 20  11 12 13 14 15 16 17 \n\
   17 18 19 20 21 22 23  21 22 23 24 25 26 27  18 19 20 21 22 23 24 \n\
   24 25 26 27 28 29 30  28 29 30 31           25 26 27 28 29 30    \n\
   31                                                               \n\
\x20   October 2022          November 2022         December 2022    \n\
   Su Mo Tu We Th Fr Sa  Su Mo Tu We Th Fr Sa  Su Mo Tu We Th Fr Sa \n\
\x20                  1         1  2  3  4  5               1  2  3 \n\
\x202  3  4  5  6  7  8   6  7  8  9 10 11 12   4  5  6  7  8  9 10 \n\
\x209 10 11 12 13 14 15  13 14 15 16 17 18 19  11 12 13 14 15 16 17 \n\
   16 17 18 19 20 21 22  20 21 22 23 24 25 26  18 19 20 21 22 23 24 \n\
   23 24 25 26 27 28 29  27 28 29 30           25 26 27 28 29 30 31 \n\
   30 31                                                            "
    );
}
