use drone_time::{days_in_month, days_in_year, is_leap_year, DateTime, Month, Tick, TimeSpan};

#[test]
fn datetime_parts() {
    let dt = DateTime::new(1985, Month::August, 28, 1, 2, 3);
    let parts = dt.parts();

    assert_eq!(494038923, dt.0);
    assert_eq!(1985, parts.year);
    assert_eq!(Month::August, parts.month);
    assert_eq!(28, parts.day);
    assert_eq!(1, parts.hour);
    assert_eq!(2, parts.minute);
    assert_eq!(3, parts.second);
}

#[test]
fn epoch_is_zero() {
    assert_eq!(0, DateTime::epoch().0);
    let parts = DateTime::from_unixtimestamp(0).parts();
    assert_eq!(1970, parts.year);
    assert_eq!(Month::January, parts.month);
    assert_eq!(1, parts.day);
    assert_eq!((0, 0, 0), (parts.hour, parts.minute, parts.second));
}

#[test]
fn last_representable_second() {
    let parts = DateTime::from_unixtimestamp(u32::MAX).parts();
    assert_eq!(2106, parts.year);
    assert_eq!(Month::February, parts.month);
    assert_eq!(7, parts.day);
    assert_eq!((6, 28, 15), (parts.hour, parts.minute, parts.second));
    assert_eq!(
        u32::MAX,
        DateTime::new(2106, Month::February, 7, 6, 28, 15).0
    );
}

#[test]
fn leap_days() {
    let leap = DateTime::new(2000, Month::February, 29, 12, 0, 0);
    let parts = leap.parts();
    assert_eq!((2000, Month::February, 29), (parts.year, parts.month, parts.day));
    let next = DateTime::new(2000, Month::March, 1, 0, 0, 0);
    assert_eq!(12 * 3600, next.0 - leap.0);
}

#[test]
fn parts_of_new_round_trip() {
    for &(y, m, d, h, mi, s) in &[
        (1970u16, 1u8, 1u8, 0u8, 0u8, 0u8),
        (1999, 12, 31, 23, 59, 59),
        (2024, 2, 29, 0, 0, 1),
        (2100, 3, 1, 12, 30, 30),
    ] {
        let dt = DateTime::new(y, Month::from_number(m), d, h, mi, s);
        let p = dt.parts();
        assert_eq!((y, m, d, h, mi, s), (p.year, p.month.number(), p.day, p.hour, p.minute, p.second));
    }
}

#[test]
fn new_of_parts_round_trip() {
    for x in [0u32, 1, 86399, 86400, 951782400, 4107542399, u32::MAX] {
        let p = DateTime(x).parts();
        assert_eq!(x, DateTime::new(p.year, p.month, p.day, p.hour, p.minute, p.second).0);
    }
}

#[test]
fn date_drops_the_time() {
    let dt = DateTime::new(1985, Month::August, 28, 1, 2, 3);
    assert_eq!(DateTime::new(1985, Month::August, 28, 0, 0, 0), dt.date());
}

#[test]
fn leap_years() {
    assert!(is_leap_year(2000));
    assert!(is_leap_year(2024));
    assert!(!is_leap_year(1900));
    assert!(!is_leap_year(2023));
    assert_eq!(366, days_in_year(2000));
    assert_eq!(365, days_in_year(2100));
    assert_eq!(29, days_in_month(2024, Month::February));
    assert_eq!(28, days_in_month(2023, Month::February));
    assert_eq!(30, days_in_month(2023, Month::April));
    assert_eq!(31, days_in_month(2023, Month::December));
}

#[test]
fn month_numbers() {
    for n in 1..=12u8 {
        assert_eq!(n, Month::from_number(n).number());
    }
    assert_eq!(Month::January, Month::from_number(1));
    assert_eq!(12, Month::December.number());
}

struct SecTick;

impl Tick for SecTick {
    const FREQ: u32 = 1000;
}

#[test]
fn add_and_sub_whole_seconds() {
    let dt = DateTime(1000);
    assert_eq!(DateTime(1005), dt + TimeSpan::<SecTick>::from_millis(5999));
    assert_eq!(DateTime(995), dt - TimeSpan::<SecTick>::from_secs(5));
    assert_eq!(DateTime(1000), dt + TimeSpan::<SecTick>::from_ticks(999));
}

#[test]
fn debug_string_of_datetime_parts() {
    let parts = DateTime::new(1985, Month::August, 28, 1, 2, 3).parts();
    assert_eq!("1985-08-28T01:02:03", parts.debug_string());
    assert_eq!("1970-01-01T00:00:00", DateTime::epoch().parts().debug_string());
}

#[test]
fn date_of_a_day_is_its_midnight() {
    for x in [0u32, 59, 86399, 494038923, u32::MAX] {
        let dt = DateTime(x);
        let p = dt.parts();
        let q = dt.date().parts();
        assert_eq!((p.year, p.month, p.day), (q.year, q.month, q.day));
        assert_eq!((0, 0, 0), (q.hour, q.minute, q.second));
    }
}
