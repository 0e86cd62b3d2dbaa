use zssp::clock::after;
use zssp::context::{draw, drawn};
use zssp::driver::{delivers, message_length, ErrorWatch, KeyWatch, Meter, Pace};
use zssp::error::Error;

#[test]
fn link_lets_through_by_the_low_bits_of_the_draw() {
    assert!(delivers(0, 0));
    assert!(!delivers(1, 0));
    assert!(delivers(0x1_0000_0000, 0));
    assert!(delivers(5, 5));
    assert!(!delivers(6, 5));
    assert!(delivers(0xffff_ffff_0000_0005, 5));
    assert!(delivers(u64::MAX, u32::MAX));
    assert!(!delivers(u64::MAX, u32::MAX - 1));
}

#[test]
fn message_length_stays_within_bounds() {
    assert_eq!(message_length(0, 1400, 15000), 1400);
    assert_eq!(message_length(13599, 1400, 15000), 14999);
    assert_eq!(message_length(13600, 1400, 15000), 1400);
    assert_eq!(message_length(13601, 1400, 15000), 1401);
    assert_eq!(message_length(u64::MAX, 0, 1), 0);
    assert_eq!(message_length(7, 3, 5), 4);
}

#[test]
fn clock_addition_saturates() {
    assert_eq!(after(10, 5), 15);
    assert_eq!(after(10, -15), -5);
    assert_eq!(after(i64::MAX, 1), i64::MAX);
    assert_eq!(after(i64::MAX - 1, 1), i64::MAX);
    assert_eq!(after(i64::MIN, -1), i64::MIN);
    assert_eq!(after(i64::MIN, i64::MAX), -1);
    assert_eq!(after(-1, i64::MIN), i64::MIN);
}

#[test]
fn pace_follows_the_sweeps() {
    let mut pace = Pace::starting(100, 500);
    assert_eq!(pace.next_service, 600);
    assert!(!pace.due(599));
    assert!(pace.due(600));
    pace.swept(650, 300);
    assert_eq!(pace.next_service, 950);
    assert!(!pace.due(949));
    assert!(pace.due(1000));
    pace.swept(i64::MAX, 1);
    assert_eq!(pace.next_service, i64::MAX);
}

#[test]
fn key_watch_reports_each_generation_once() {
    let mut watch = KeyWatch::new();
    assert!(!watch.observe(0));
    assert!(watch.observe(1));
    assert!(!watch.observe(1));
    assert!(watch.observe(3));
    assert!(!watch.observe(2));
    assert_eq!(watch.last, 3);
}

#[test]
fn error_watch_reports_changes_only() {
    let mut watch = ErrorWatch::new(Error::UnknownProtocolVersion);
    assert!(!watch.observe(Error::UnknownProtocolVersion));
    assert!(watch.observe(Error::ReplayDetected));
    assert!(!watch.observe(Error::ReplayDetected));
    assert!(watch.observe(Error::UnknownProtocolVersion));
    assert_eq!(watch.last, Error::UnknownProtocolVersion);
}

#[test]
fn meter_reports_once_a_second() {
    let mut meter = Meter::starting(1000);
    assert_eq!(meter.read(1999), None);
    assert_eq!(meter.read(2000), None);
    assert_eq!(meter.since, 2000);
    meter.echoed(1500);
    meter.echoed(500);
    assert_eq!(meter.transferred, 4000);
    assert_eq!(meter.read(2999), None);
    assert_eq!(meter.transferred, 4000);
    assert_eq!(meter.read(3250), Some((4000, 1250)));
    assert_eq!((meter.transferred, meter.since), (0, 3250));
    meter.transferred = u64::MAX - 5;
    meter.echoed(3);
    assert_eq!(meter.transferred, u64::MAX);
}

#[test]
fn drawn_bytes_are_read_big_endian() {
    assert_eq!(drawn(None), None);
    assert_eq!(drawn(Some(vec![])), None);
    assert_eq!(drawn(Some(vec![1; 7])), None);
    assert_eq!(drawn(Some(vec![1, 2, 3, 4, 5, 6, 7, 8])), Some(0x0102030405060708));
    assert_eq!(drawn(Some(vec![0, 0, 0, 0, 0, 0, 1, 0, 9, 9])), Some(256));
    assert_eq!(drawn(Some(vec![0xff; 8])), Some(u64::MAX));
    let a = draw().unwrap();
    let b = draw().unwrap();
    let c = draw().unwrap();
    assert!(a != b || b != c);
}
