use lfest::currency::{Decimal, QuoteCurrency};
use lfest::trades::{trade_from_parts, trade_from_record, Trade};
use lfest::types::{Side, TimestampNs};

#[test]
fn trade_from_record_parses_the_fields() {
    let t: Trade<2> = trade_from_record("1000", "100.5", "-2").unwrap();
    assert_eq!(t.price, QuoteCurrency::new(1005, 1));
    assert_eq!(t.quantity, QuoteCurrency::new(-2, 0));
    assert_eq!(t.side, Side::Sell);
    assert_eq!(t.timestamp_exchange_ns, TimestampNs(1_000_000_000));

    let t: Trade<2> = trade_from_record("+7", "3", "0.25").unwrap();
    assert_eq!(t.side, Side::Buy);
    assert_eq!(t.quantity, QuoteCurrency::new(25, 2));
    assert_eq!(t.timestamp_exchange_ns, TimestampNs(7_000_000));
}

#[test]
fn trade_from_record_rejects_bad_fields() {
    assert!(trade_from_record::<2>("abc", "100", "1").is_none());
    assert!(trade_from_record::<2>("", "100", "1").is_none());
    assert!(trade_from_record::<2>("-", "100", "1").is_none());
    assert!(trade_from_record::<2>("10000000000000", "100", "1").is_none());
    assert!(trade_from_record::<2>("1", "100.555", "1").is_none());
    assert!(trade_from_record::<2>("1", "100", "").is_none());
}

#[test]
fn trade_from_parts_takes_the_side_from_the_sign() {
    let t = trade_from_parts::<1>(-3, Decimal::new(5, 0), Decimal::new(0, 0));
    assert_eq!(t.side, Side::Buy);
    assert_eq!(t.timestamp_exchange_ns, TimestampNs(-3_000_000));
    assert_eq!(t.price, QuoteCurrency::new(5, 0));
}

#[test]
fn trade_from_record_reads_decimals_as_const_decimal_does() {
    let t: Trade<2> = trade_from_record("1", "3", "-0.5").unwrap();
    assert_eq!(t.quantity, QuoteCurrency::new(-50, 2));
    let t: Trade<2> = trade_from_record("1", "3.1", "2").unwrap();
    assert_eq!(t.price, QuoteCurrency::new(310, 2));
    // the sign set aside negates what the rest reads, a signed integer part included
    let t: Trade<2> = trade_from_record("1", "3", "--5.0").unwrap();
    assert_eq!(t.quantity, QuoteCurrency::new(5, 0));
    assert!(trade_from_record::<2>("1", ".5", "1").is_none());
}
