use carender::{Month, Weekday, Year};

#[test]
fn pred_succ_year() {
    assert_eq!(Year(2022).pred(), Year(2021));
    assert_eq!(Year(2022).succ(), Year(2023));
}

#[test]
fn leap_year() {
    assert!(Year(2000).is_leap_year());
    assert!(Year(2020).is_leap_year());
    assert!(!Year(2021).is_leap_year());
    assert!(!Year(2100).is_leap_year());
}

#[test]
fn display_year() {
    assert_eq!(Year(1).to_string(), "1");
    assert_eq!(Year(2020).to_string(), "2020");
}

#[test]
fn new_month() {
    assert_eq!(Month::try_from(1).unwrap(), Month::January);
    assert!(Month::try_from(13).is_err());
}

#[test]
fn pred_succ_month() {
    assert_eq!(Month::January.pred(), Month::December);
    assert_eq!(Month::December.pred(), Month::November);
    assert_eq!(Month::December.succ(), Month::January);
    assert_eq!(Month::January.succ(), Month::February);
}

#[test]
fn display_month() {
    assert_eq!(Month::January.to_string(), "January");
    assert_eq!(Month::February.to_string(), "February");
}

#[test]
fn new_weekday() {
    assert_eq!(Weekday::try_from(0).unwrap(), Weekday::Sunday);
    assert!(Weekday::try_from(7).is_err());
}
