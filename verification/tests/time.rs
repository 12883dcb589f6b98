use openh264::Timestamp;
use std::time::Duration;

#[test]
fn timestamps_work() {
    let a = Timestamp::from_millis(0);
    let b = Timestamp::from_millis(100);
    let c = b + Duration::from_millis(100);

    assert_eq!((b - a).as_millis(), 100);
    assert_eq!(c.as_millis(), 200);
}

#[test]
fn adding_then_subtracting_gives_the_duration_back() {
    let t = Timestamp::from_millis(1234);
    let d = Duration::from_millis(4321);
    assert_eq!(((t + d) - t).as_millis(), 4321);
}

#[test]
fn native_timestamp_is_the_milliseconds() {
    assert_eq!(Timestamp::from_millis(42).as_native(), 42);
    assert_eq!(Timestamp::from_millis(i64::MAX as u64).as_native(), i64::MAX);
}

#[test]
fn subtracting_then_adding_lands_on_the_later_timestamp() {
    let t = Timestamp::from_millis(500);
    let u = Timestamp::from_millis(1250);
    assert_eq!((t + (u - t)).as_millis(), 1250);
    assert_eq!((u - u).as_millis(), 0);
}

#[test]
fn timestamps_order_as_their_milliseconds() {
    let a = Timestamp::from_millis(3);
    let b = Timestamp::from_millis(5);
    assert!(a < b);
    assert!(a <= b);
    assert!(!(a >= b));
    assert!(b > a);
    assert!(a <= Timestamp::from_millis(3));
    assert_eq!(a.partial_cmp(&b), Some(std::cmp::Ordering::Less));
    assert_eq!(a.partial_cmp(&a), Some(std::cmp::Ordering::Equal));
    assert_eq!(a.cmp(&b), std::cmp::Ordering::Less);
    assert_eq!(Timestamp::from_millis(u64::MAX).as_millis(), u64::MAX);
}
