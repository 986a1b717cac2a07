use yaks::IdOrder;
use yaks::Range;
use yaks::RangeParseError;

#[test]
fn parse_both_bounds() {
    let r = Range::from_str("3~10").unwrap();
    assert_eq!(r.start, 3);
    assert_eq!(r.end, 10);
}

#[test]
fn parse_open_start() {
    let r = Range::from_str("~10").unwrap();
    assert_eq!(r.start, 0);
    assert_eq!(r.end, 10);
}

#[test]
fn parse_open_end() {
    let r = Range::from_str("3~").unwrap();
    assert_eq!(r.start, 3);
    assert_eq!(r.end, u64::MAX);
}

#[test]
fn parse_fully_open() {
    let r = Range::from_str("~").unwrap();
    assert_eq!(r.start, 0);
    assert_eq!(r.end, u64::MAX);
}

#[test]
fn parse_missing_separator() {
    assert_eq!(Range::from_str("37"), Err(RangeParseError::MissingSeparator));
    assert_eq!(Range::from_str(""), Err(RangeParseError::MissingSeparator));
}

#[test]
fn parse_bad_number() {
    assert_eq!(Range::from_str("a~10"), Err(RangeParseError::BadNumber));
    assert_eq!(Range::from_str("3~x"), Err(RangeParseError::BadNumber));
    assert_eq!(Range::from_str("1.5~2"), Err(RangeParseError::BadNumber));
    assert_eq!(
        Range::from_str("18446744073709551616~"),
        Err(RangeParseError::BadNumber)
    );
}

#[test]
fn parse_splits_at_first_separator() {
    assert_eq!(Range::from_str("1~2~3"), Err(RangeParseError::BadNumber));
}

#[test]
fn contains_is_inclusive() {
    let r = Range { start: 3, end: 10 };
    assert!(r.contains(3));
    assert!(r.contains(10));
    assert!(r.contains(7));
    assert!(!r.contains(2));
    assert!(!r.contains(11));
}

#[test]
fn default_is_unbounded() {
    let r = Range::default();
    assert!(r.contains(0));
    assert!(r.contains(u64::MAX));
}

#[test]
fn cmp_id_orders_against_interval() {
    let r = Range { start: 3, end: 10 };
    assert_eq!(r.cmp_id(2), IdOrder::Below);
    assert_eq!(r.cmp_id(3), IdOrder::Inside);
    assert_eq!(r.cmp_id(10), IdOrder::Inside);
    assert_eq!(r.cmp_id(11), IdOrder::Above);
}

#[test]
fn literal_round_trip() {
    assert_eq!(Range { start: 3, end: 10 }.to_literal(), "3~10");
    assert_eq!(Range { start: 0, end: 10 }.to_literal(), "~10");
    assert_eq!(Range { start: 3, end: u64::MAX }.to_literal(), "3~");
    assert_eq!(Range::default().to_literal(), "~");
    let r = Range { start: 12, end: 345 };
    assert_eq!(Range::from_str(&r.to_literal()).unwrap(), r);
}

#[test]
fn number_parsing() {
    assert_eq!(yaks::parse_u64("123"), Some(123));
    assert_eq!(yaks::parse_u64("0"), Some(0));
    assert_eq!(yaks::parse_u64("18446744073709551615"), Some(u64::MAX));
    assert_eq!(yaks::parse_u64("18446744073709551616"), None);
    assert_eq!(yaks::parse_u64(""), None);
    assert_eq!(yaks::parse_u64("12a"), None);
    assert_eq!(yaks::parse_u64("-1"), None);
}

#[test]
fn number_rendering() {
    assert_eq!(yaks::u64_to_string(0), "0");
    assert_eq!(yaks::u64_to_string(7), "7");
    assert_eq!(yaks::u64_to_string(1234), "1234");
    assert_eq!(yaks::u64_to_string(u64::MAX), "18446744073709551615");
}
