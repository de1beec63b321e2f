use spam_detector::reg_date::RegDate;
use std::cmp::Ordering;

#[test]
fn reg_date_new_keeps_fields() {
    let date = RegDate::new(2021, 3, 14);
    assert_eq!(date.year, 2021);
    assert_eq!(date.month, 3);
    assert_eq!(date.day, 14);
    assert_eq!(date, RegDate { year: 2021, month: 3, day: 14 });
}

#[test]
fn reg_date_default_is_first_of_october_2020() {
    assert_eq!(RegDate::default(), RegDate::new(2020, 10, 1));
}

#[test]
fn reg_date_year_decides_before_month_and_day() {
    assert!(RegDate::new(2019, 12, 31) < RegDate::new(2020, 1, 1));
    assert!(RegDate::new(2021, 1, 1) > RegDate::new(2020, 12, 31));
}

#[test]
fn reg_date_month_decides_before_day() {
    assert!(RegDate::new(2020, 9, 30) < RegDate::new(2020, 10, 1));
    assert!(RegDate::new(2020, 11, 1) > RegDate::new(2020, 10, 31));
}

#[test]
fn reg_date_day_decides_last() {
    assert!(RegDate::new(2020, 10, 1) < RegDate::new(2020, 10, 2));
    assert!(RegDate::new(2020, 10, 2) >= RegDate::new(2020, 10, 2));
    assert!(RegDate::new(2020, 10, 2) <= RegDate::new(2020, 10, 2));
    assert!(!(RegDate::new(2020, 10, 2) < RegDate::new(2020, 10, 2)));
}

#[test]
fn reg_date_partial_cmp_gives_all_three_answers() {
    let date = RegDate::new(2020, 10, 1);
    assert_eq!(date.partial_cmp(&RegDate::new(2020, 10, 2)), Some(Ordering::Less));
    assert_eq!(date.partial_cmp(&RegDate::new(2020, 10, 1)), Some(Ordering::Equal));
    assert_eq!(date.partial_cmp(&RegDate::new(2020, 9, 30)), Some(Ordering::Greater));
    assert_eq!(date.partial_cmp(&RegDate::new(2019, 12, 31)), Some(Ordering::Greater));
    assert_eq!(date.partial_cmp(&RegDate::new(2021, 1, 1)), Some(Ordering::Less));
}

#[test]
fn reg_date_order_is_antisymmetric_on_samples() {
    let dates = vec![
        RegDate::new(2000, 1, 1),
        RegDate::new(2020, 10, 1),
        RegDate::new(2020, 10, 2),
        RegDate::new(2020, 11, 1),
        RegDate::new(2100, 12, 31),
    ];
    for (i, a) in dates.iter().enumerate() {
        for (j, b) in dates.iter().enumerate() {
            assert_eq!(a < b, i < j);
            assert_eq!(a == b, i == j);
            assert_eq!(a > b, i > j);
        }
    }
}
