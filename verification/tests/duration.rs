use mcc_frontend_core::duration::HourMinuteSecond;

#[test]
fn test_from_secs() {
    let hms = HourMinuteSecond::from_secs(3661);
    assert_eq!(hms.hours, 1);
    assert_eq!(hms.minutes, 1);
    assert_eq!(hms.seconds, 1);

    let hms = HourMinuteSecond::from_secs(15600);
    assert_eq!(hms.hours, 4);
    assert_eq!(hms.minutes, 20);
    assert_eq!(hms.seconds, 0);

    let hms = HourMinuteSecond::from_secs(7200);
    assert_eq!(hms.hours, 2);
    assert_eq!(hms.minutes, 0);
    assert_eq!(hms.seconds, 0);

    let hms = HourMinuteSecond::from_secs(4200);
    assert_eq!(hms.hours, 1);
    assert_eq!(hms.minutes, 10);
    assert_eq!(hms.seconds, 0);
}

#[test]
fn test_as_secs() {
    let hms = HourMinuteSecond::new(1, 1, 1);
    assert_eq!(hms.as_secs(), 3661);

    let hms = HourMinuteSecond::new(4, 20, 0);
    assert_eq!(hms.as_secs(), 15600);

    let hms = HourMinuteSecond::new(2, 0, 0);
    assert_eq!(hms.as_secs(), 7200);

    let hms = HourMinuteSecond::new(1, 10, 0);
    assert_eq!(hms.as_secs(), 4200);
}

#[test]
fn test_simplify() {
    let hms = HourMinuteSecond::new(0, 70, 0).simplify();
    assert_eq!(hms.hours, 1);
    assert_eq!(hms.minutes, 10);
    assert_eq!(hms.seconds, 0);

    let hms = HourMinuteSecond::new(0, 0, 3661).simplify();
    assert_eq!(hms.hours, 1);
    assert_eq!(hms.minutes, 1);
    assert_eq!(hms.seconds, 1);

    let hms = HourMinuteSecond::new(4, 20, 0).simplify();
    assert_eq!(hms.hours, 4);
    assert_eq!(hms.minutes, 20);
    assert_eq!(hms.seconds, 0);
}

#[test]
fn test_total_seconds_equality() {
    // equal totals are equal even without simplifying
    assert_eq!(HourMinuteSecond::new(1, 70, 0), HourMinuteSecond::new(2, 10, 0));
    assert_eq!(HourMinuteSecond::new(0, 0, 3661), HourMinuteSecond::new(1, 1, 1));
    assert_ne!(HourMinuteSecond::new(1, 0, 0), HourMinuteSecond::new(0, 59, 59));
}

#[test]
fn test_simplify_is_idempotent() {
    let once = HourMinuteSecond::new(3, 119, 61).simplify();
    let twice = once.simplify();
    assert_eq!(once.hours, twice.hours);
    assert_eq!(once.minutes, twice.minutes);
    assert_eq!(once.seconds, twice.seconds);
}

#[test]
fn test_as_hms() {
    assert_eq!(HourMinuteSecond::new(4, 20, 0).as_hms(), "4h 20m 0s");
    assert_eq!(HourMinuteSecond::new(0, 0, 0).as_hms(), "0h 0m 0s");
    assert_eq!(HourMinuteSecond::new(12, 34, 56).as_hms(), "12h 34m 56s");
}
