use citoer::media_adapters::slack::{parse_slack_ts, ts_of};
use citoer::time::{UtcDateTime, EARLIEST_SECOND, LATEST_SECOND};

#[test]
fn slack_ts_reads_seconds_and_micros() {
    let t = parse_slack_ts("1512085950.000216").unwrap();
    assert_eq!(t.timestamp(), 1512085950);
    assert_eq!(t.subsec_nanos(), 216_000);
    assert_eq!(t.subsec_micros(), 216);
}

#[test]
fn slack_ts_rejects_malformed() {
    assert!(parse_slack_ts("1512085950").is_none());
    assert!(parse_slack_ts("abc.def").is_none());
    assert!(parse_slack_ts("1.2.3").is_none());
    assert!(parse_slack_ts(".5").is_none());
    assert!(parse_slack_ts("").is_none());
}

#[test]
fn slack_ts_negative_micros_borrow_a_second() {
    let t = parse_slack_ts("10.-1").unwrap();
    assert_eq!(t.timestamp(), 9);
    assert_eq!(t.subsec_nanos(), 999_999_000);
}

#[test]
fn slack_ts_range_edges() {
    assert!(parse_slack_ts(&format!("{}.999999", LATEST_SECOND)).is_some());
    assert!(parse_slack_ts(&format!("{}.0", LATEST_SECOND + 1)).is_none());
    assert!(parse_slack_ts(&format!("{}.0", EARLIEST_SECOND)).is_some());
    assert!(parse_slack_ts(&format!("{}.999999", EARLIEST_SECOND - 1)).is_none());
    assert!(parse_slack_ts("9223372036854775807.0").is_none());
}

#[test]
fn ts_round_trip() {
    let t = parse_slack_ts("1512085950.000216").unwrap();
    assert_eq!(ts_of(&t), "1512085950.000216");
    let t = UtcDateTime::from_parts(-5, 123_456_789).unwrap();
    let s = ts_of(&t);
    assert_eq!(s, "-5.123456");
    let back = parse_slack_ts(&s).unwrap();
    assert_eq!(back.timestamp(), -5);
    assert_eq!(back.subsec_nanos(), 123_456_000);
}

#[test]
fn from_parts_range() {
    assert!(UtcDateTime::from_parts(LATEST_SECOND, 999_999_999).is_some());
    assert!(UtcDateTime::from_parts(LATEST_SECOND + 1, 0).is_none());
    assert!(UtcDateTime::from_parts(EARLIEST_SECOND, 0).is_some());
    assert!(UtcDateTime::from_parts(EARLIEST_SECOND - 1, 0).is_none());
    assert!(UtcDateTime::from_parts(59, 1_500_000_000).is_some());
    assert!(UtcDateTime::from_parts(58, 1_500_000_000).is_none());
    assert!(UtcDateTime::from_parts(0, 2_000_000_000).is_none());
}

#[test]
fn display_and_parse() {
    let t = UtcDateTime::from_parts(1431648000, 0).unwrap();
    assert_eq!(t.to_display_string(), "2015-05-15 00:00:00 UTC");
    let p = UtcDateTime::parse("2015-05-15 00:00:00 UTC").unwrap();
    assert_eq!(p.timestamp(), 1431648000);
    let p = UtcDateTime::parse("2012-12-12T12:12:12Z").unwrap();
    assert_eq!(p.timestamp(), 1355314332);
    assert!(UtcDateTime::parse("yesterday").is_none());
    let t = UtcDateTime::from_parts(1512085950, 216_000).unwrap();
    let back = UtcDateTime::parse(&t.to_display_string()).unwrap();
    assert_eq!((back.timestamp(), back.subsec_nanos()), (1512085950, 216_000));
}

#[test]
fn order_of_instants() {
    let a = UtcDateTime::from_parts(10, 5).unwrap();
    let b = UtcDateTime::from_parts(10, 6).unwrap();
    let c = UtcDateTime::from_parts(11, 0).unwrap();
    assert!(b.later_than(&a));
    assert!(!a.later_than(&b));
    assert!(c.later_than(&b));
    assert!(!a.later_than(&a));
}
