use carender::{CalRange, MonthOfYear, Weekday};

fn moy(y: u32, m: u8) -> MonthOfYear {
    MonthOfYear::new(y, m).unwrap()
}

#[test]
fn new_moy() {
    assert!(MonthOfYear::new(2022, 1).is_ok());
    assert!(MonthOfYear::new(2022, 13).is_err());
}

#[test]
fn num_of_days() {
    assert_eq!(moy(2020, 1).num_of_days(), 31);
    assert_eq!(moy(2020, 2).num_of_days(), 29);
    assert_eq!(moy(2020, 4).num_of_days(), 30);
    assert_eq!(moy(2021, 2).num_of_days(), 28);
}

#[test]
fn weekday_of_first() {
    assert_eq!(moy(2022, 11).weekday_of_first(), Weekday::Tuesday);
    assert_eq!(moy(2022, 12).weekday_of_first(), Weekday::Thursday);
    assert_eq!(moy(2023, 1).weekday_of_first(), Weekday::Sunday);
    assert_eq!(moy(2023, 2).weekday_of_first(), Weekday::Wednesday);
}

#[test]
fn pred_succ() {
    assert_eq!(moy(2022, 11).pred(), moy(2022, 10));
    assert_eq!(moy(2022, 11).succ(), moy(2022, 12));
    assert_eq!(moy(2022, 1).pred(), moy(2021, 12));
    assert_eq!(moy(2022, 12).succ(), moy(2023, 1));
}

#[test]
fn calrange_iter() {
    let cal = CalRange::new(2022, 11, 3, false).unwrap();
    let mut iter = cal.iter().into_iter();
    assert_eq!(iter.next(), Some(moy(2022, 11)));
    assert_eq!(iter.next(), Some(moy(2022, 12)));
    assert_eq!(iter.next(), Some(moy(2023, 1)));
    assert_eq!(iter.next(), None);
}

#[test]
fn calrange_span_iter() {
    let cal = CalRange::new(2022, 11, 4, true).unwrap();
    let mut iter = cal.iter().into_iter();
    assert_eq!(iter.next(), Some(moy(2022, 9)));
    assert_eq!(iter.next(), Some(moy(2022, 10)));
    assert_eq!(iter.next(), Some(moy(2022, 11)));
    assert_eq!(iter.next(), Some(moy(2022, 12)));
    assert_eq!(iter.next(), None);
}
