use drone_time::{Tick, TimeSpan, TimeSpanParts, Timeout};

struct TestTick;

impl Tick for TestTick {
    const FREQ: u32 = 32768;
}

struct SlowTick;

impl Tick for SlowTick {
    const FREQ: u32 = 10;
}

#[test]
fn timespan_parts() {
    let ts = TimeSpan::<TestTick>::from_parts(TimeSpanParts {
        days: 1,
        hours: 2,
        mins: 3,
        secs: 4,
        millis: 5,
    });
    let parts = ts.parts();

    assert_eq!(
        1 * 86400 * 32768 + 2 * 3600 * 32768 + 3 * 60 * 32768 + 4 * 32768 + (5 * 32768) / 1000,
        ts.0
    );
    assert_eq!(1, parts.days);
    assert_eq!(2, parts.hours);
    assert_eq!(3, parts.mins);
    assert_eq!(4, parts.secs);
    assert_eq!(5, parts.millis);
}

#[test]
fn abs() {
    let ts = TimeSpan::<TestTick>::from_ticks(-10);

    assert_eq!(-ts.0, ts.abs().0);
}

#[test]
fn as_secs() {
    let secs = TimeSpan::<TestTick>::from_parts(TimeSpanParts {
        days: 1,
        hours: 2,
        mins: 3,
        secs: 4,
        millis: 5,
    })
    .as_secs();
    assert_eq!(1 * 86400 + 2 * 3600 + 3 * 60 + 4, secs);
}

#[test]
fn as_millis() {
    let millis = TimeSpan::<TestTick>::from_parts(TimeSpanParts {
        days: 1,
        hours: 2,
        mins: 3,
        secs: 4,
        millis: 5,
    })
    .as_millis();
    assert_eq!(
        1 * 86400 * 1000 + 2 * 3600 * 1000 + 3 * 60 * 1000 + 4 * 1000 + 5,
        millis
    );
}

#[test]
fn as_micros() {
    let micros = [
        TimeSpan::<TestTick>::from_micros(1525).as_micros(),
        TimeSpan::<TestTick>::from_micros(1526).as_micros(),
        TimeSpan::<TestTick>::from_micros(1527).as_micros(),
        TimeSpan::<TestTick>::from_micros(1528).as_micros(),
        TimeSpan::<TestTick>::from_micros(1529).as_micros(),
        TimeSpan::<TestTick>::from_micros(1530).as_micros(),
        TimeSpan::<TestTick>::from_micros(1531).as_micros(),
        TimeSpan::<TestTick>::from_micros(1532).as_micros(),
        TimeSpan::<TestTick>::from_micros(1533).as_micros(),
        TimeSpan::<TestTick>::from_micros(1534).as_micros(),
        TimeSpan::<TestTick>::from_micros(1535).as_micros(),
        TimeSpan::<TestTick>::from_micros(1536).as_micros(),
        TimeSpan::<TestTick>::from_micros(1537).as_micros(),
        TimeSpan::<TestTick>::from_micros(1538).as_micros(),
        TimeSpan::<TestTick>::from_micros(1539).as_micros(),
        TimeSpan::<TestTick>::from_micros(1540).as_micros(),
        TimeSpan::<TestTick>::from_micros(1541).as_micros(),
        TimeSpan::<TestTick>::from_micros(1542).as_micros(),
        TimeSpan::<TestTick>::from_micros(1543).as_micros(),
        TimeSpan::<TestTick>::from_micros(1544).as_micros(),
        TimeSpan::<TestTick>::from_micros(1545).as_micros(),
        TimeSpan::<TestTick>::from_micros(1546).as_micros(),
        TimeSpan::<TestTick>::from_micros(1547).as_micros(),
        TimeSpan::<TestTick>::from_micros(1548).as_micros(),
        TimeSpan::<TestTick>::from_micros(1549).as_micros(),
        TimeSpan::<TestTick>::from_micros(1550).as_micros(),
        TimeSpan::<TestTick>::from_micros(1551).as_micros(),
        TimeSpan::<TestTick>::from_micros(1552).as_micros(),
        TimeSpan::<TestTick>::from_micros(1553).as_micros(),
        TimeSpan::<TestTick>::from_micros(1554).as_micros(),
        TimeSpan::<TestTick>::from_micros(1555).as_micros(),
        TimeSpan::<TestTick>::from_micros(1556).as_micros(),
        TimeSpan::<TestTick>::from_micros(1557).as_micros(),
    ];
    assert_eq!(
        [
            1519, 1549, 1549, 1549, 1549, 1549, 1549, 1549, 1549, 1549, 1549, 1549, 1549, 1549,
            1549, 1549, 1549, 1549, 1549, 1549, 1549, 1549, 1549, 1549, 1549, 1549, 1549, 1549,
            1549, 1549, 1549, 1549, 1580
        ],
        micros
    );
}

#[test]
fn from_millis() {
    assert_eq!(32, TimeSpan::<TestTick>::from_millis(1).0);
    assert_eq!(65, TimeSpan::<TestTick>::from_millis(2).0);
    assert_eq!(98, TimeSpan::<TestTick>::from_millis(3).0);
}

#[test]
fn from_micros() {
    assert_eq!(0, TimeSpan::<TestTick>::from_micros(30).0);
    assert_eq!(1, TimeSpan::<TestTick>::from_micros(31).0);
    assert_eq!(1, TimeSpan::<TestTick>::from_micros(61).0);
    assert_eq!(2, TimeSpan::<TestTick>::from_micros(62).0);

    assert_eq!(49, TimeSpan::<TestTick>::from_micros(1525).0);
    assert_eq!(50, TimeSpan::<TestTick>::from_micros(1526).0);
}

#[test]
fn new_time_is_hours_mins_secs() {
    let ts = TimeSpan::<TestTick>::new_time(1, 2, 3);
    assert_eq!((3600 + 120 + 3) * 32768, ts.0);
    let neg = TimeSpan::<TestTick>::new_time(-1, 0, -3);
    assert_eq!(-(3600 + 3) * 32768, neg.0);
}

#[test]
fn whole_unit_constructors() {
    assert_eq!(2 * 86400 * 32768, TimeSpan::<TestTick>::from_days(2).0);
    assert_eq!(-3 * 3600 * 32768, TimeSpan::<TestTick>::from_hours(-3).0);
    assert_eq!(7 * 60 * 32768, TimeSpan::<TestTick>::from_mins(7).0);
    assert_eq!(-9 * 32768, TimeSpan::<TestTick>::from_secs(-9).0);
    assert_eq!(
        i32::MIN as i64 * u32::MAX as i64,
        TimeSpan::<MaxTick>::from_secs(i32::MIN).0
    );
}

struct MaxTick;

impl Tick for MaxTick {
    const FREQ: u32 = u32::MAX;
}

#[test]
fn from_millis_truncates_toward_zero() {
    // 1.5 ticks of a 10 Hz clock are one tick, either way.
    assert_eq!(1, TimeSpan::<SlowTick>::from_millis(150).0);
    assert_eq!(-1, TimeSpan::<SlowTick>::from_millis(-150).0);
    assert_eq!(
        2147483647 * 10,
        TimeSpan::<SlowTick>::from_millis(2147483647000).0
    );
}

#[test]
fn negative_parts_round_toward_zero() {
    let parts = TimeSpan::<TestTick>::from_ticks(-(86400 + 3600 + 60 + 1) * 32768).parts();
    assert_eq!(-1, parts.days);
    assert_eq!(-1, parts.hours);
    assert_eq!(-1, parts.mins);
    assert_eq!(-1, parts.secs);
    assert_eq!(0, parts.millis);
}

#[test]
fn parts_round_millis_to_nearest() {
    // 5 ticks of a 10 Hz clock are 500 ms; 32767 ticks of 32768 Hz round up to 1000 ms.
    assert_eq!(500, TimeSpan::<SlowTick>::from_ticks(5).parts().millis);
    assert_eq!(1000, TimeSpan::<TestTick>::from_ticks(32767).parts().millis);
}

#[test]
fn millis_round_trip_and_its_limit() {
    for m in [0i64, 1, 999, 1000, 123456] {
        assert_eq!(m, TimeSpan::<TestTick>::from_millis(m).as_millis());
    }
    // Negative milliseconds do not come back: they round toward zero.
    assert_eq!(0, TimeSpan::<TestTick>::from_millis(-1).as_millis());
}

#[test]
fn secs_round_trip() {
    for s in [i32::MIN, -5, 0, 7, i32::MAX] {
        assert_eq!(s, TimeSpan::<TestTick>::from_secs(s).as_secs());
    }
}

#[test]
fn abs_of_positive_and_extremes() {
    assert_eq!(10, TimeSpan::<TestTick>::from_ticks(10).abs().0);
    assert_eq!(i64::MAX, TimeSpan::<TestTick>::from_ticks(-i64::MAX).abs().0);
}

#[test]
fn operators() {
    let a = TimeSpan::<TestTick>::from_ticks(5);
    let b = TimeSpan::<TestTick>::from_ticks(7);
    assert_eq!(12, (a + b).0);
    assert_eq!(-2, (a - b).0);
    let mut c = a;
    c += b;
    assert_eq!(12, c.0);
    c -= a;
    assert_eq!(7, c.0);
    assert!(a < b);
    assert!(b > a);
    assert!(a == TimeSpan::from_ticks(5));
    assert!(a != b);
    assert_eq!(0, TimeSpan::<TestTick>::default().0);
    assert_eq!(0, TimeSpan::<TestTick>::zero().0);
    assert_eq!(i64::MAX, TimeSpan::<TestTick>::max_value().0);
    assert_eq!(i64::MIN, TimeSpan::<TestTick>::min_value().0);
}

#[test]
fn infinite_timeout() {
    let inf = Timeout::<TestTick>::infinite();
    assert_eq!(-1, inf.0);
    assert!(Timeout::is_infinite(&inf));
    assert!(!Timeout::is_infinite(&TimeSpan::<TestTick>::from_ticks(1)));
}

#[test]
fn debug_string_of_parts() {
    let ts = TimeSpan::<TestTick>::from_parts(TimeSpanParts {
        days: 1,
        hours: 2,
        mins: 3,
        secs: 4,
        millis: 5,
    });
    assert_eq!("1d02:03:04.005", ts.debug_string());
    let neg = TimeSpan::<TestTick>::from_ticks(-(3600 + 1) * 32768);
    assert_eq!("0d-1:00:-1.000", neg.debug_string());
    assert_eq!("-12d00:00:00.000", TimeSpan::<TestTick>::from_days(-12).debug_string());
}

#[test]
fn parts_round_trip_of_one_sign() {
    let p = TimeSpan::<TestTick>::from_parts(TimeSpanParts {
        days: -3,
        hours: -4,
        mins: 0,
        secs: -59,
        millis: 0,
    })
    .parts();
    assert_eq!((-3, -4, 0, -59, 0), (p.days, p.hours, p.mins, p.secs, p.millis));
    // Negative milliseconds round toward zero and do not come back.
    let q = TimeSpan::<TestTick>::from_parts(TimeSpanParts {
        days: 0,
        hours: 0,
        mins: 0,
        secs: 0,
        millis: -5,
    })
    .parts();
    assert_eq!(-4, q.millis);
}

#[test]
fn parts_share_the_sign_and_rebuild_the_duration() {
    let day = 86400 * 32768i64;
    let t = -(day + 2 * 3600 * 32768 + 3 * 60 * 32768 + 4 * 32768 + 16384);
    let p = TimeSpan::<TestTick>::from_ticks(t).parts();
    assert_eq!((-1, -2, -3, -4, -499), (p.days, p.hours, p.mins, p.secs, p.millis));
    let p = TimeSpan::<TestTick>::from_ticks(-t).parts();
    assert_eq!((1, 2, 3, 4, 500), (p.days, p.hours, p.mins, p.secs, p.millis));
    // Just under a second rounds up to a full thousand milliseconds.
    let p = TimeSpan::<TestTick>::from_ticks(32767).parts();
    assert_eq!((0, 0, 0, 0, 1000), (p.days, p.hours, p.mins, p.secs, p.millis));
}
