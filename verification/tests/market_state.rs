use lfest::currency::QuoteCurrency;
use lfest::market_state::{MarketState, MarketUpdate};
use lfest::trades::Trade;
use lfest::types::Side;
use lfest::types::TimestampNs;

#[test]
fn market_state_mid_price() {
    let state = MarketState::<2>::from_components(
        QuoteCurrency::new(100, 0),
        QuoteCurrency::new(101, 0),
        QuoteCurrency::new(100, 0),
        TimestampNs(5),
        1,
    );
    assert_eq!(state.mid_price(), QuoteCurrency::new(10050, 2));
    let state = MarketState::<2>::from_components(
        QuoteCurrency::new(1, 2),
        QuoteCurrency::new(2, 2),
        QuoteCurrency::new(1, 2),
        TimestampNs(5),
        1,
    );
    assert_eq!(state.mid_price(), QuoteCurrency::new(1, 2));
}

#[test]
fn market_state_accessors() {
    let mut state = MarketState::<1>::default();
    assert_eq!(state.bid(), QuoteCurrency::new(0, 0));
    assert_eq!(state.current_timestamp_ns(), TimestampNs(0));
    assert_eq!(state.step(), 0);
    state.set_bid(QuoteCurrency::new(99, 0));
    state.set_ask(QuoteCurrency::new(101, 0));
    state.set_last_trade_price(QuoteCurrency::new(100, 0));
    assert_eq!(state.bid(), QuoteCurrency::new(99, 0));
    assert_eq!(state.ask(), QuoteCurrency::new(101, 0));
    assert_eq!(state.last_trade_price(), QuoteCurrency::new(100, 0));
    assert_eq!(state.mid_price(), QuoteCurrency::new(100, 0));
}

#[test]
fn market_state_display() {
    let state = MarketState::<1>::from_components(
        QuoteCurrency::new(100, 0),
        QuoteCurrency::new(101, 0),
        QuoteCurrency::new(100, 0),
        TimestampNs(-42),
        7,
    );
    assert_eq!(
        state.to_string(),
        "bid: 100.0 Quote, ask: 101.0 Quote, ts_ns: -42, step: 7"
    );
}

#[test]
fn market_state_update_state_takes_a_trade() {
    let mut state = MarketState::<1>::default();
    let trade = Trade {
        price: QuoteCurrency::new(105, 0),
        quantity: QuoteCurrency::new(-2, 0),
        side: Side::Sell,
        timestamp_exchange_ns: TimestampNs(77),
    };
    assert_eq!(trade.timestamp_exchange_ns(), TimestampNs(77));
    assert!(state.update_state(&trade).is_ok());
    assert_eq!(state.last_trade_price(), QuoteCurrency::new(105, 0));
    assert_eq!(state.bid(), QuoteCurrency::new(0, 0));
    assert_eq!(state.current_timestamp_ns(), TimestampNs(77));
    assert_eq!(state.step(), 1);
}
