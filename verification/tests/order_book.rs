use seqlock::order_book::{OrderSide, Timestamp};

#[test]
fn timestamp_round_trip() {
    let t = Timestamp::new(1_700_000_000_123_456_789);
    assert_eq!(t.nanos(), 1_700_000_000_123_456_789);
    assert_eq!(t, Timestamp::new(1_700_000_000_123_456_789));
    assert_ne!(t, Timestamp::new(0));
}

#[test]
fn order_sides_are_distinct() {
    assert_ne!(OrderSide::Buy, OrderSide::Sell);
    assert_eq!(OrderSide::Buy, OrderSide::Buy);
    assert!(OrderSide::Buy < OrderSide::Sell);
}
