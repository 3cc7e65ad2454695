use lfest::errors::OrderError;
use lfest::exchange_decimal::{
    max, min, ArithmeticError, ConfigDecimal, DecimalValue, ExchangeDecimal, OrderDecimal, OrderType,
};
use lfest::types::Side;
use rust_decimal::Decimal;

fn dv(d: Decimal) -> DecimalValue {
    DecimalValue::new(d.mantissa(), d.scale())
}

fn rd(v: DecimalValue) -> Decimal {
    Decimal::from_i128_with_scale(v.mantissa, v.scale)
}

/// A trade at `price` sets the ask (a buy) or the bid (a sell) and refreshes the statistics.
fn trade(exchange: &mut ExchangeDecimal, price: i64, buy: bool, first: bool) {
    let p = dv(Decimal::new(price, 0));
    if first {
        exchange.bid = p;
        exchange.ask = p;
    }
    if buy {
        exchange.ask = p;
    } else {
        exchange.bid = p;
    }
    exchange.update_position_stats().unwrap();
}

/// A market order that passes validation and is executed at once.
fn market(exchange: &mut ExchangeDecimal, side: Side, size: Decimal) {
    let price = if side == Side::Buy { exchange.ask } else { exchange.bid };
    let o = OrderDecimal { order_type: OrderType::Market, side, size: dv(size), price, id: 0, timestamp: 0 };
    assert_eq!(exchange.validate_market_order(&o), Ok(None));
    assert!(exchange.execute_market(side, dv(size)).is_ok());
}

fn d(m: i64, s: u32) -> Decimal {
    Decimal::new(m, s)
}

#[test]
fn long_market_win_full() {
    let config = ConfigDecimal::bitmex_perpetuals();
    let fee_taker = rd(config.fee_taker);
    let mut exchange = ExchangeDecimal::new(config);
    trade(&mut exchange, 1000, true, true);

    let value = rd(exchange.margin.available_balance) * Decimal::new(8, 1);
    let size = rd(exchange.ask) * value;
    let o = OrderDecimal { order_type: OrderType::Market, side: Side::Buy, size: dv(size), price: exchange.ask, id: 0, timestamp: 0 };
    assert_eq!(exchange.validate_market_order(&o), Ok(None));
    assert_eq!(exchange.execute_market(Side::Buy, dv(size)), Ok(None));

    let fee_base = size * fee_taker;
    let fee_asset1 = fee_base / rd(exchange.bid);

    assert_eq!(rd(exchange.position.size), size);
    assert_eq!(rd(exchange.position.entry_price), Decimal::new(1000, 0));
    assert_eq!(rd(exchange.position.value), value);
    assert_eq!(rd(exchange.position.margin), value);
    assert_eq!(rd(exchange.position.unrealized_pnl), Decimal::new(0, 0));
    assert_eq!(rd(exchange.margin.wallet_balance), Decimal::new(1, 0) - fee_asset1);
    assert_eq!(rd(exchange.margin.margin_balance), Decimal::new(1, 0) - fee_asset1);
    assert_eq!(rd(exchange.margin.position_margin), Decimal::new(8, 1));
    assert_eq!(rd(exchange.order_margin().unwrap()), Decimal::new(0, 0));
    assert_eq!(rd(exchange.margin.available_balance), Decimal::new(2, 1) - fee_asset1);

    trade(&mut exchange, 2000, true, false);
    trade(&mut exchange, 2000, false, false);

    let size = Decimal::new(800, 0);
    let fee_base2 = size * fee_taker;
    let fee_asset2 = fee_base2 / Decimal::new(2000, 0);

    assert_eq!(rd(exchange.position.unrealized_pnl), Decimal::new(4, 1));

    let rpnl = exchange.execute_market(Side::Sell, dv(size)).unwrap();
    assert_eq!(rd(rpnl.unwrap()), Decimal::new(4, 1));

    assert_eq!(rd(exchange.position.size), Decimal::new(0, 0));
    assert_eq!(rd(exchange.position.value), Decimal::new(0, 0));
    assert_eq!(rd(exchange.position.margin), Decimal::new(0, 0));
    assert_eq!(rd(exchange.position.unrealized_pnl), Decimal::new(0, 0));
    assert_eq!(
        rd(exchange.margin.wallet_balance),
        Decimal::new(14, 1) - fee_asset1 - fee_asset2
    );
    assert_eq!(
        rd(exchange.margin.margin_balance),
        Decimal::new(14, 1) - fee_asset1 - fee_asset2
    );
    assert_eq!(rd(exchange.margin.position_margin), Decimal::new(0, 0));
    assert_eq!(rd(exchange.order_margin().unwrap()), Decimal::new(0, 0));
    assert_eq!(
        rd(exchange.margin.available_balance),
        Decimal::new(14, 1) - fee_asset1 - fee_asset2
    );
}

#[test]
fn exchange_decimal_validate_market_order_checks_the_balance() {
    let mut exchange = ExchangeDecimal::new(ConfigDecimal::bitmex_perpetuals());
    trade(&mut exchange, 1000, true, true);
    let ok = OrderDecimal { order_type: OrderType::Market, side: Side::Buy, size: dv(Decimal::new(400, 0)), price: exchange.ask, id: 0, timestamp: 0 };
    assert_eq!(exchange.validate_market_order(&ok), Ok(None));
    let too_big = OrderDecimal { order_type: OrderType::Market, side: Side::Buy, size: dv(Decimal::new(1050, 0)), price: exchange.ask, id: 0, timestamp: 0 };
    assert_eq!(
        exchange.validate_market_order(&too_big),
        Ok(Some(OrderError::NotEnoughAvailableBalance))
    );
    let sell = OrderDecimal { order_type: OrderType::Market, side: Side::Sell, size: dv(Decimal::new(1050, 0)), price: exchange.bid, id: 0, timestamp: 0 };
    assert_eq!(
        exchange.validate_market_order(&sell),
        Ok(Some(OrderError::NotEnoughAvailableBalance))
    );
}

#[test]
fn exchange_decimal_division_by_zero_changes_nothing() {
    let mut exchange = ExchangeDecimal::new(ConfigDecimal::deribit_futures());
    let before = exchange.clone();
    assert_eq!(
        exchange.execute_market(Side::Buy, dv(Decimal::new(100, 0))),
        Err(ArithmeticError)
    );
    assert_eq!(exchange.position, before.position);
    assert_eq!(exchange.margin, before.margin);
}

#[test]
fn exchange_decimal_limit_fill_turns_a_short_around() {
    let mut exchange = ExchangeDecimal::new(ConfigDecimal::deribit_futures());
    trade(&mut exchange, 1000, false, true);
    assert_eq!(exchange.execute_market(Side::Sell, dv(Decimal::new(500, 0))), Ok(None));
    assert_eq!(rd(exchange.position.size), Decimal::new(-500, 0));
    assert_eq!(rd(exchange.position.liq_price), Decimal::new(2000, 0));
    let rpnl = exchange
        .execute_limit(Side::Buy, dv(Decimal::new(500, 0)), dv(Decimal::new(700, 0)))
        .unwrap()
        .unwrap();
    assert_eq!(rd(rpnl), Decimal::new(5, 1));
    assert_eq!(rd(exchange.position.size), Decimal::new(200, 0));
    assert_eq!(rd(exchange.position.entry_price), Decimal::new(500, 0));
    assert_eq!(rd(exchange.position.margin), Decimal::new(4, 1));
}

#[test]
fn long_market_loss_full() {
    let config = ConfigDecimal::bitmex_perpetuals();
    let fee_taker = rd(config.fee_taker);
    let mut exchange = ExchangeDecimal::new(config);
    trade(&mut exchange, 1000, true, true);
    market(&mut exchange, Side::Buy, d(800, 0));
    assert_eq!(rd(exchange.position.size), d(800, 0));
    trade(&mut exchange, 800, true, false);
    trade(&mut exchange, 800, false, false);
    assert_eq!(rd(exchange.unrealized_pnl().unwrap()), d(-2, 1));
    market(&mut exchange, Side::Sell, d(800, 0));
    let fee_asset0 = fee_taker * d(800, 0) / d(1000, 0);
    let fee_asset1 = fee_taker * d(800, 0) / d(800, 0);
    let fee_combined = fee_asset0 + fee_asset1;
    assert_eq!(rd(exchange.position.size), d(0, 0));
    assert_eq!(rd(exchange.position.value), d(0, 0));
    assert_eq!(rd(exchange.position.margin), d(0, 0));
    assert_eq!(rd(exchange.position.unrealized_pnl), d(0, 0));
    assert_eq!(rd(exchange.margin.wallet_balance), d(8, 1) - fee_combined);
    assert_eq!(rd(exchange.margin.margin_balance), d(8, 1) - fee_combined);
    assert_eq!(rd(exchange.margin.position_margin), d(0, 0));
    assert_eq!(rd(exchange.order_margin().unwrap()), d(0, 0));
    assert_eq!(rd(exchange.margin.available_balance), d(8, 1) - fee_combined);
}

#[test]
fn short_market_win_full() {
    let config = ConfigDecimal::bitmex_perpetuals();
    let fee_taker = rd(config.fee_taker);
    let mut exchange = ExchangeDecimal::new(config);
    trade(&mut exchange, 1000, true, true);
    market(&mut exchange, Side::Sell, d(800, 0));
    assert_eq!(rd(exchange.position.size), d(-800, 0));
    trade(&mut exchange, 800, true, false);
    trade(&mut exchange, 800, false, false);
    assert_eq!(rd(exchange.unrealized_pnl().unwrap()), d(2, 1));
    market(&mut exchange, Side::Buy, d(800, 0));
    let fee_asset0 = fee_taker * d(800, 0) / d(1000, 0);
    let fee_asset1 = fee_taker * d(800, 0) / d(800, 0);
    let fee_combined = fee_asset0 + fee_asset1;
    assert_eq!(rd(exchange.position.size), d(0, 0));
    assert_eq!(rd(exchange.position.value), d(0, 0));
    assert_eq!(rd(exchange.position.margin), d(0, 0));
    assert_eq!(rd(exchange.position.unrealized_pnl), d(0, 0));
    assert_eq!(rd(exchange.margin.wallet_balance), d(12, 1) - fee_combined);
    assert_eq!(rd(exchange.margin.margin_balance), d(12, 1) - fee_combined);
    assert_eq!(rd(exchange.margin.position_margin), d(0, 0));
    assert_eq!(rd(exchange.order_margin().unwrap()), d(0, 0));
    assert_eq!(rd(exchange.margin.available_balance), d(12, 1) - fee_combined);
}

#[test]
fn short_market_loss_full() {
    let config = ConfigDecimal::bitmex_perpetuals();
    let fee_taker = rd(config.fee_taker);
    let mut exchange = ExchangeDecimal::new(config);
    trade(&mut exchange, 1000, true, true);
    let value = rd(exchange.margin.available_balance) * d(4, 1);
    let size = rd(exchange.ask) * value;
    market(&mut exchange, Side::Sell, size);
    let fee_asset1 = size * fee_taker / rd(exchange.bid);
    assert_eq!(rd(exchange.position.size), -size);
    assert_eq!(rd(exchange.position.entry_price), d(1000, 0));
    assert_eq!(rd(exchange.position.value), value);
    assert_eq!(rd(exchange.position.margin), value);
    assert_eq!(rd(exchange.position.unrealized_pnl), d(0, 0));
    assert_eq!(rd(exchange.margin.wallet_balance), d(1, 0) - fee_asset1);
    assert_eq!(rd(exchange.margin.margin_balance), d(1, 0) - fee_asset1);
    assert_eq!(rd(exchange.margin.position_margin), d(4, 1));
    assert_eq!(rd(exchange.order_margin().unwrap()), d(0, 0));
    assert_eq!(rd(exchange.margin.available_balance), d(6, 1) - fee_asset1);
    trade(&mut exchange, 2000, true, false);
    trade(&mut exchange, 2000, false, false);
    let size = d(400, 0);
    let fee_asset2 = size * fee_taker / d(2000, 0);
    assert_eq!(rd(exchange.position.unrealized_pnl), d(-2, 1));
    market(&mut exchange, Side::Buy, size);
    assert_eq!(rd(exchange.position.size), d(0, 0));
    assert_eq!(rd(exchange.position.value), d(0, 0));
    assert_eq!(rd(exchange.position.margin), d(0, 0));
    assert_eq!(rd(exchange.position.unrealized_pnl), d(0, 0));
    assert_eq!(rd(exchange.margin.wallet_balance), d(8, 1) - fee_asset1 - fee_asset2);
    assert_eq!(rd(exchange.margin.margin_balance), d(8, 1) - fee_asset1 - fee_asset2);
    assert_eq!(rd(exchange.margin.position_margin), d(0, 0));
    assert_eq!(rd(exchange.order_margin().unwrap()), d(0, 0));
    assert_eq!(rd(exchange.margin.available_balance), d(8, 1) - fee_asset1 - fee_asset2);
}

#[test]
fn long_market_win_partial() {
    let config = ConfigDecimal::bitmex_perpetuals();
    let fee_taker = rd(config.fee_taker);
    let mut exchange = ExchangeDecimal::new(config);
    trade(&mut exchange, 1000, true, true);
    let value = rd(exchange.margin.available_balance) * d(8, 1);
    let size = rd(exchange.ask) * value;
    market(&mut exchange, Side::Buy, size);
    let fee_asset1 = size * fee_taker / rd(exchange.bid);
    assert_eq!(rd(exchange.position.size), size);
    assert_eq!(rd(exchange.position.entry_price), d(1000, 0));
    assert_eq!(rd(exchange.position.value), value);
    assert_eq!(rd(exchange.position.margin), value);
    assert_eq!(rd(exchange.position.unrealized_pnl), d(0, 0));
    assert_eq!(rd(exchange.margin.wallet_balance), d(1, 0) - fee_asset1);
    assert_eq!(rd(exchange.margin.margin_balance), d(1, 0) - fee_asset1);
    assert_eq!(rd(exchange.margin.position_margin), d(8, 1));
    assert_eq!(rd(exchange.order_margin().unwrap()), d(0, 0));
    assert_eq!(rd(exchange.margin.available_balance), d(2, 1) - fee_asset1);
    trade(&mut exchange, 2000, true, false);
    trade(&mut exchange, 2000, false, false);
    let size = d(400, 0);
    let fee_asset2 = size * fee_taker / d(2000, 0);
    assert_eq!(rd(exchange.position.unrealized_pnl), d(4, 1));
    market(&mut exchange, Side::Sell, size);
    assert_eq!(rd(exchange.position.size), d(400, 0));
    assert_eq!(rd(exchange.position.value), d(2, 1));
    assert_eq!(rd(exchange.position.margin), d(4, 1));
    assert_eq!(rd(exchange.position.unrealized_pnl), d(2, 1));
    assert_eq!(rd(exchange.margin.wallet_balance), d(12, 1) - fee_asset1 - fee_asset2);
    assert_eq!(rd(exchange.margin.margin_balance), d(14, 1) - fee_asset1 - fee_asset2);
    assert_eq!(rd(exchange.margin.position_margin), d(4, 1));
    assert_eq!(rd(exchange.order_margin().unwrap()), d(0, 0));
    assert_eq!(rd(exchange.margin.available_balance), d(8, 1) - fee_asset1 - fee_asset2);
}

#[test]
fn long_market_loss_partial() {
    let config = ConfigDecimal::bitmex_perpetuals();
    let fee_taker = rd(config.fee_taker);
    let mut exchange = ExchangeDecimal::new(config);
    trade(&mut exchange, 1000, true, true);
    market(&mut exchange, Side::Buy, d(800, 0));
    assert_eq!(rd(exchange.position.size), d(800, 0));
    trade(&mut exchange, 800, true, false);
    trade(&mut exchange, 800, false, false);
    assert_eq!(rd(exchange.unrealized_pnl().unwrap()), d(-2, 1));
    market(&mut exchange, Side::Sell, d(400, 0));
    let fee_asset0 = fee_taker * d(800, 0) / d(1000, 0);
    let fee_asset1 = fee_taker * d(400, 0) / d(800, 0);
    let fee_combined = fee_asset0 + fee_asset1;
    assert_eq!(rd(exchange.position.size), d(400, 0));
    assert_eq!(rd(exchange.position.value), d(5, 1));
    assert_eq!(rd(exchange.position.margin), d(4, 1));
    assert_eq!(rd(exchange.position.unrealized_pnl), d(-1, 1));
    assert_eq!(rd(exchange.margin.wallet_balance), d(9, 1) - fee_combined);
    assert_eq!(rd(exchange.margin.margin_balance), d(8, 1) - fee_combined);
    assert_eq!(rd(exchange.margin.position_margin), d(4, 1));
    assert_eq!(rd(exchange.order_margin().unwrap()), d(0, 0));
    assert_eq!(rd(exchange.margin.available_balance), d(5, 1) - fee_combined);
}

#[test]
fn short_market_win_partial() {
    let config = ConfigDecimal::bitmex_perpetuals();
    let fee_taker = rd(config.fee_taker);
    let mut exchange = ExchangeDecimal::new(config);
    trade(&mut exchange, 1000, true, true);
    market(&mut exchange, Side::Sell, d(800, 0));
    assert_eq!(rd(exchange.position.size), d(-800, 0));
    trade(&mut exchange, 800, true, false);
    trade(&mut exchange, 800, false, false);
    assert_eq!(rd(exchange.unrealized_pnl().unwrap()), d(2, 1));
    market(&mut exchange, Side::Buy, d(400, 0));
    let fee_asset0 = fee_taker * d(800, 0) / d(1000, 0);
    let fee_asset1 = fee_taker * d(400, 0) / d(800, 0);
    let fee_combined = fee_asset0 + fee_asset1;
    assert_eq!(rd(exchange.position.size), d(-400, 0));
    assert_eq!(rd(exchange.position.value), d(5, 1));
    assert_eq!(rd(exchange.position.margin), d(4, 1));
    assert_eq!(rd(exchange.position.unrealized_pnl), d(1, 1));
    assert_eq!(rd(exchange.margin.wallet_balance), d(11, 1) - fee_combined);
    assert_eq!(rd(exchange.margin.margin_balance), d(12, 1) - fee_combined);
    assert_eq!(rd(exchange.margin.position_margin), d(6, 1));
    assert_eq!(rd(exchange.order_margin().unwrap()), d(0, 0));
    assert_eq!(rd(exchange.margin.available_balance), d(5, 1) - fee_combined);
}

#[test]
fn short_market_loss_partial() {
    let config = ConfigDecimal::bitmex_perpetuals();
    let fee_taker = rd(config.fee_taker);
    let mut exchange = ExchangeDecimal::new(config);
    trade(&mut exchange, 1000, true, true);
    let value = rd(exchange.margin.available_balance) * d(8, 1);
    let size = rd(exchange.ask) * value;
    market(&mut exchange, Side::Sell, size);
    let fee_asset1 = size * fee_taker / rd(exchange.bid);
    assert_eq!(rd(exchange.position.size), -size);
    assert_eq!(rd(exchange.position.entry_price), d(1000, 0));
    assert_eq!(rd(exchange.position.value), value);
    assert_eq!(rd(exchange.position.margin), value);
    assert_eq!(rd(exchange.position.unrealized_pnl), d(0, 0));
    assert_eq!(rd(exchange.margin.wallet_balance), d(1, 0) - fee_asset1);
    assert_eq!(rd(exchange.margin.margin_balance), d(1, 0) - fee_asset1);
    assert_eq!(rd(exchange.margin.position_margin), d(8, 1));
    assert_eq!(rd(exchange.order_margin().unwrap()), d(0, 0));
    assert_eq!(rd(exchange.margin.available_balance), d(2, 1) - fee_asset1);
    trade(&mut exchange, 2000, true, false);
    trade(&mut exchange, 2000, false, false);
    let size = d(400, 0);
    let fee_asset2 = size * fee_taker / d(2000, 0);
    assert_eq!(rd(exchange.position.unrealized_pnl), d(-4, 1));
    market(&mut exchange, Side::Buy, size);
    assert_eq!(rd(exchange.position.size), d(-400, 0));
    assert_eq!(rd(exchange.position.value), d(2, 1));
    assert_eq!(rd(exchange.position.margin), d(4, 1));
    assert_eq!(rd(exchange.position.unrealized_pnl), d(-2, 1));
    assert_eq!(rd(exchange.margin.wallet_balance), d(8, 1) - fee_asset1 - fee_asset2);
    assert_eq!(rd(exchange.margin.margin_balance), d(6, 1) - fee_asset1 - fee_asset2);
    assert_eq!(rd(exchange.margin.position_margin), d(0, 1));
    assert_eq!(rd(exchange.order_margin().unwrap()), d(0, 0));
    assert_eq!(rd(exchange.margin.available_balance), d(8, 1) - fee_asset1 - fee_asset2);
}

#[test]
fn test_market_roundtrip() {
    let config = ConfigDecimal::bitmex_perpetuals();
    let fee_taker = rd(config.fee_taker);
    let mut exchange = ExchangeDecimal::new(config);
    trade(&mut exchange, 1000, true, true);
    let value = rd(exchange.margin.available_balance) * d(9, 1);
    let size = rd(exchange.ask) * value;
    market(&mut exchange, Side::Buy, size);
    market(&mut exchange, Side::Sell, size);
    let fee_asset = size * fee_taker / rd(exchange.ask);
    assert_eq!(rd(exchange.position.size), d(0, 0));
    assert_eq!(rd(exchange.position.entry_price), d(1000, 0));
    assert_eq!(rd(exchange.position.value), d(0, 0));
    assert_eq!(rd(exchange.position.margin), d(0, 0));
    assert_eq!(rd(exchange.position.unrealized_pnl), d(0, 0));
    assert_eq!(rd(exchange.margin.wallet_balance), d(1, 0) - d(2, 0) * fee_asset);
    assert_eq!(rd(exchange.margin.margin_balance), d(1, 0) - d(2, 0) * fee_asset);
    assert_eq!(rd(exchange.margin.position_margin), d(0, 0));
    assert_eq!(rd(exchange.order_margin().unwrap()), d(0, 0));
    assert_eq!(rd(exchange.margin.available_balance), d(1, 0) - d(2, 0) * fee_asset);

    market(&mut exchange, Side::Buy, d(900, 0));
    market(&mut exchange, Side::Sell, d(950, 0));
    assert_eq!(rd(exchange.position.size), d(-50, 0));
    assert_eq!(rd(exchange.position.entry_price), d(1000, 0));
    assert_eq!(rd(exchange.position.value), d(5, 2));
    assert_eq!(rd(exchange.position.margin), d(5, 2));
    assert_eq!(rd(exchange.position.unrealized_pnl), d(0, 0));
    assert!(rd(exchange.margin.wallet_balance) < d(1, 0));
    assert!(rd(exchange.margin.margin_balance) < d(1, 0));
    assert_eq!(rd(exchange.margin.position_margin), d(5, 2));
    assert_eq!(rd(exchange.order_margin().unwrap()), d(0, 0));
    assert!(rd(exchange.margin.available_balance) < d(1, 0));
}

#[test]
fn roe() {
    let config = ConfigDecimal::bitmex_perpetuals();
    let mut exchange = ExchangeDecimal::new(config);
    trade(&mut exchange, 1000, true, true);
    market(&mut exchange, Side::Buy, d(100, 0));
    assert_eq!(rd(exchange.position.size), d(100, 0));
    trade(&mut exchange, 1100, true, false);
    trade(&mut exchange, 1100, false, false);
    assert_eq!(rd(exchange.roe().unwrap()), d(1, 1));
}

#[test]
fn exchange_decimal_check_liquidation_refreshes_the_unrealized_pnl() {
    let config = ConfigDecimal::bitmex_perpetuals();
    let mut exchange = ExchangeDecimal::new(config);
    trade(&mut exchange, 1000, true, true);
    market(&mut exchange, Side::Buy, d(100, 0));
    exchange.bid = dv(d(2000, 0));
    exchange.ask = dv(d(2000, 0));
    assert_eq!(exchange.check_liquidation(), Ok(false));
    // 100 / 1000 - 100 / 2000
    assert_eq!(rd(exchange.position.unrealized_pnl), d(5, 2));
    assert_eq!(rd(exchange.position.size), d(100, 0));
}

#[test]
fn exchange_decimal_check_liquidation_closes_a_crossed_position() {
    let config = ConfigDecimal::bitmex_perpetuals();
    let mut exchange = ExchangeDecimal::new(config);
    trade(&mut exchange, 1000, false, true);
    market(&mut exchange, Side::Sell, d(100, 0));
    assert_eq!(rd(exchange.position.size), d(-100, 0));
    // a short at 1000 with leverage 1 is liquidated above 2000
    assert_eq!(rd(exchange.position.liq_price), d(2000, 0));
    exchange.bid = dv(d(3000, 0));
    exchange.ask = dv(d(3000, 0));
    assert_eq!(exchange.check_liquidation(), Ok(true));
}

#[test]
fn exchange_decimal_without_a_position_nothing_is_liquidated() {
    let mut exchange = ExchangeDecimal::new(ConfigDecimal::bitmex_perpetuals());
    trade(&mut exchange, 1000, true, true);
    assert_eq!(exchange.check_liquidation(), Ok(false));
    assert_eq!(rd(exchange.position.size), d(0, 0));
}

fn order(side: Side, price: Decimal, size: Decimal) -> OrderDecimal {
    OrderDecimal { order_type: OrderType::Limit, side, size: dv(size), price: dv(price), id: 0, timestamp: 0 }
}

#[test]
fn validate_market_order() {
    let config = ConfigDecimal::bitmex_perpetuals();
    let mut exchange = ExchangeDecimal::new(config);
    trade(&mut exchange, 1000, true, true);

    // valid orders
    let size = rd(exchange.ask) * rd(exchange.margin.available_balance) * d(4, 1);
    assert_eq!(exchange.validate_market_order(&order(Side::Buy, rd(exchange.ask), size)), Ok(None));
    assert_eq!(exchange.validate_market_order(&order(Side::Sell, rd(exchange.bid), size)), Ok(None));

    // invalid orders
    let size = rd(exchange.ask) * rd(exchange.margin.available_balance) * d(105, 2);
    assert!(matches!(exchange.validate_market_order(&order(Side::Buy, rd(exchange.ask), size)), Ok(Some(_))));
    assert!(matches!(exchange.validate_market_order(&order(Side::Sell, rd(exchange.bid), size)), Ok(Some(_))));

    market(&mut exchange, Side::Buy, d(800, 0));
    assert_eq!(rd(exchange.position.size), d(800, 0));

    assert_eq!(exchange.validate_market_order(&order(Side::Buy, rd(exchange.ask), d(190, 0))), Ok(None));
    assert!(matches!(exchange.validate_market_order(&order(Side::Buy, rd(exchange.ask), d(210, 0))), Ok(Some(_))));
    assert_eq!(exchange.validate_market_order(&order(Side::Sell, rd(exchange.bid), d(800, 0))), Ok(None));
    assert!(matches!(exchange.validate_market_order(&order(Side::Sell, rd(exchange.bid), d(2100, 0))), Ok(Some(_))));
    assert_eq!(exchange.validate_market_order(&order(Side::Sell, rd(exchange.bid), d(1600, 0))), Ok(None));
}

#[test]
fn test_validate_limit_order() {
    let config = ConfigDecimal::bitmex_perpetuals();
    let mut exchange = ExchangeDecimal::new(config);
    trade(&mut exchange, 1000, true, true);
    let wallet = rd(exchange.margin.wallet_balance);

    let size = wallet * d(8, 1) * d(990, 0);
    assert_eq!(exchange.validate_limit_order(&order(Side::Buy, d(990, 0), size)), Ok(None));

    let size = wallet * d(8, 1) * d(1010, 0);
    assert!(matches!(exchange.validate_limit_order(&order(Side::Buy, d(1010, 0), size)), Ok(Some(_))));

    let size = wallet * d(8, 1) * d(1010, 0);
    assert_eq!(exchange.validate_limit_order(&order(Side::Sell, d(1010, 0), size)), Ok(None));

    let size = wallet * d(8, 1) * d(990, 0);
    assert!(matches!(exchange.validate_limit_order(&order(Side::Sell, d(990, 0), size)), Ok(Some(_))));

    let size = wallet * d(11, 1) * d(990, 0);
    assert!(matches!(exchange.validate_limit_order(&order(Side::Buy, d(990, 0), size)), Ok(Some(_))));

    let size = wallet * d(11, 1) * d(1010, 0);
    assert!(matches!(exchange.validate_limit_order(&order(Side::Sell, d(1010, 0), size)), Ok(Some(_))));
}

#[test]
fn test_validate_stop_market_order() {
    let config = ConfigDecimal::bitmex_perpetuals();
    let mut exchange = ExchangeDecimal::new(config);
    trade(&mut exchange, 1000, true, true);

    assert!(exchange.validate_stop_market_order(&order(Side::Buy, d(1010, 0), d(10, 0))).is_none());
    assert!(exchange.validate_stop_market_order(&order(Side::Sell, d(1010, 0), d(10, 0))).is_some());
    assert!(exchange.validate_stop_market_order(&order(Side::Buy, d(980, 0), d(10, 0))).is_some());
    assert!(exchange.validate_stop_market_order(&order(Side::Sell, d(980, 0), d(10, 0))).is_none());
    assert!(exchange.validate_stop_market_order(&order(Side::Buy, d(1000, 0), d(10, 0))).is_some());
    assert!(exchange.validate_stop_market_order(&order(Side::Buy, d(1000, 0), d(10, 0))).is_some());
}

#[test]
fn test_liquidate() {
    let mut exchange = ExchangeDecimal::new(ConfigDecimal::bitmex_perpetuals());
    trade(&mut exchange, 1000, true, true);
    market(&mut exchange, Side::Buy, d(100, 0));
    assert_eq!(rd(exchange.position.size), d(100, 0));
    assert_eq!(exchange.liquidate(), Ok(()));
    assert_eq!(rd(exchange.position.size), d(0, 0));
}

fn consume(exchange: &mut ExchangeDecimal, price: i64, buy: bool) {
    assert_eq!(exchange.consume_trade(dv(d(price, 0)), buy), Ok(false));
}

#[test]
fn execute_limit() {
    let mut exchange = ExchangeDecimal::new(ConfigDecimal::bitmex_perpetuals());
    consume(&mut exchange, 1000, true);

    let o = order(Side::Buy, d(900, 0), d(450, 0));
    assert!(matches!(exchange.submit_order(o), Ok(Ok(_))));
    assert_eq!(exchange.orders_active.len(), 1);
    assert_eq!(rd(exchange.margin.available_balance), d(5, 1));

    consume(&mut exchange, 750, true);
    consume(&mut exchange, 750, false);

    assert_eq!(rd(exchange.bid), d(750, 0));
    assert_eq!(rd(exchange.ask), d(750, 0));
    assert_eq!(exchange.orders_active.len(), 0);
    assert_eq!(rd(exchange.position.size), d(450, 0));
    assert_eq!(rd(exchange.position.value), d(6, 1));
    assert_eq!(rd(exchange.position.margin), d(5, 1));
    assert_eq!(rd(exchange.position.entry_price), d(900, 0));
    assert_eq!(rd(exchange.margin.wallet_balance), d(1000125, 6));
    assert_eq!(rd(exchange.order_margin().unwrap()), d(0, 0));

    let o = order(Side::Sell, d(1000, 0), d(450, 0));
    assert!(matches!(exchange.submit_order(o), Ok(Ok(_))));
    assert_eq!(exchange.orders_active.len(), 1);
    assert_eq!(rd(exchange.order_margin().unwrap()), d(0, 0));

    consume(&mut exchange, 1200, false);
    consume(&mut exchange, 1200, true);

    assert_eq!(exchange.orders_active.len(), 0);
    assert_eq!(rd(exchange.position.size), d(0, 0));
    assert_eq!(rd(exchange.position.value), d(0, 0));
    assert_eq!(rd(exchange.position.margin), d(0, 0));
    assert_eq!(rd(exchange.order_margin().unwrap()), d(0, 0));
    assert_eq!(rd(exchange.margin.position_margin), d(0, 0));
}

#[test]
fn exchange_decimal_submit_order_answers_refused_orders_with_their_error() {
    let mut exchange = ExchangeDecimal::new(ConfigDecimal::bitmex_perpetuals());
    consume(&mut exchange, 1000, true);
    assert_eq!(
        exchange.submit_order(order(Side::Buy, d(900, 0), d(0, 0))),
        Ok(Err(OrderError::InvalidOrderSize))
    );
    assert_eq!(
        exchange.submit_order(order(Side::Buy, d(1100, 0), d(10, 0))),
        Ok(Err(OrderError::InvalidLimitPrice))
    );
    assert_eq!(
        exchange.submit_order(order(Side::Buy, d(900, 0), d(1000, 0))),
        Ok(Err(OrderError::NotEnoughAvailableBalance))
    );
    assert_eq!(exchange.orders_active.len(), 0);
    assert_eq!(rd(exchange.margin.available_balance), d(1, 0));
}

#[test]
fn exchange_decimal_check_orders_executes_only_the_crossed_orders() {
    let mut exchange = ExchangeDecimal::new(ConfigDecimal::bitmex_perpetuals());
    consume(&mut exchange, 1000, true);
    exchange.orders_active.push(order(Side::Buy, d(900, 0), d(100, 0)));
    exchange.orders_active.push(order(Side::Sell, d(1100, 0), d(100, 0)));
    exchange.orders_active.push(order(Side::Buy, d(800, 0), d(100, 0)));
    exchange.ask = dv(d(850, 0));
    assert_eq!(exchange.check_orders(), Ok(()));
    assert_eq!(exchange.orders_active.len(), 2);
    assert_eq!(exchange.orders_active[0].side, Side::Sell);
    assert_eq!(rd(exchange.orders_active[1].price), d(800, 0));
    assert_eq!(rd(exchange.position.size), d(100, 0));
    assert_eq!(rd(exchange.position.entry_price), d(900, 0));
}

#[test]
fn cancel_order() {
    let mut exchange = ExchangeDecimal::new(ConfigDecimal::bitmex_perpetuals());
    consume(&mut exchange, 1000, true);

    let o = order(Side::Buy, d(900, 0), d(450, 0));
    assert!(matches!(exchange.submit_order(o), Ok(Ok(_))));

    assert_eq!(exchange.orders_active.len(), 1);
    assert_eq!(rd(exchange.order_margin().unwrap()), d(5, 1));

    assert!(matches!(exchange.cancel_order(0), Ok(Some(_))));
    assert_eq!(exchange.orders_active.len(), 0);
    assert_eq!(rd(exchange.margin.wallet_balance), d(1, 0));
    assert_eq!(rd(exchange.margin.margin_balance), d(1, 0));
    assert_eq!(rd(exchange.margin.available_balance), d(1, 0));
    assert_eq!(rd(exchange.order_margin().unwrap()), d(0, 0));
}

#[test]
fn exchange_decimal_orders_take_increasing_ids_and_the_current_time() {
    let mut exchange = ExchangeDecimal::new(ConfigDecimal::bitmex_perpetuals());
    consume(&mut exchange, 1000, true);
    exchange.set_timestamp(42);
    let first = exchange.submit_order(order(Side::Buy, d(900, 0), d(10, 0))).unwrap().unwrap();
    let second = exchange.submit_order(order(Side::Sell, d(1100, 0), d(10, 0))).unwrap().unwrap();
    assert_eq!(first.id, 0);
    assert_eq!(second.id, 1);
    assert_eq!(first.timestamp, 42);
    assert_eq!(exchange.query_active_orders(1).map(|o| o.side), Some(Side::Sell));
    assert_eq!(exchange.query_active_orders(7), None);
    assert_eq!(exchange.cancel_order(7), Ok(None));
    assert!(matches!(exchange.cancel_order(0), Ok(Some(o)) if o.id == 0));
    assert_eq!(exchange.orders_active.len(), 1);
    assert_eq!(exchange.orders_active[0].id, 1);
}

fn market_order(side: Side, size: Decimal) -> OrderDecimal {
    OrderDecimal { order_type: OrderType::Market, side, size: dv(size), price: dv(d(0, 0)), id: 0, timestamp: 0 }
}

fn stop_market(side: Side, price: Decimal, size: Decimal) -> OrderDecimal {
    OrderDecimal { order_type: OrderType::StopMarket, side, size: dv(size), price: dv(price), id: 0, timestamp: 0 }
}

#[test]
fn submit_order_limit() {
    let mut exchange = ExchangeDecimal::new(ConfigDecimal::bitmex_perpetuals());
    consume(&mut exchange, 1000, true);

    assert!(matches!(exchange.submit_order(order(Side::Buy, d(900, 0), d(450, 0))), Ok(Ok(_))));
    assert_eq!(exchange.orders_active.len(), 1);
    assert_eq!(rd(exchange.order_margin().unwrap()), d(5, 1));
    assert_eq!(rd(exchange.margin.available_balance), d(1, 0) - d(5, 1));

    // submit working market order
    assert!(matches!(exchange.submit_order(market_order(Side::Buy, d(450, 0))), Ok(Ok(_))));

    // submit opposite limit order acting as target order
    assert!(matches!(exchange.submit_order(order(Side::Sell, d(1200, 0), d(450, 0))), Ok(Ok(_))));
    assert_eq!(exchange.orders_active.len(), 2);
}

#[test]
fn handle_stop_market_order() {
    let mut exchange = ExchangeDecimal::new(ConfigDecimal::bitmex_perpetuals());
    consume(&mut exchange, 1000, true);

    assert!(matches!(exchange.submit_order(stop_market(Side::Buy, d(1010, 0), d(100, 0))), Ok(Ok(_))));
    assert_eq!(exchange.check_orders(), Ok(()));
    assert_eq!(exchange.orders_active.len(), 1);

    consume(&mut exchange, 1010, true);
    assert_eq!(exchange.check_orders(), Ok(()));

    assert_eq!(rd(exchange.position.size), d(100, 0));
    assert_eq!(rd(exchange.position.entry_price), d(1010, 0));
}

#[test]
fn test_handle_limit_order() {
    let mut exchange = ExchangeDecimal::new(ConfigDecimal::bitmex_perpetuals());
    consume(&mut exchange, 1000, true);
    assert!(matches!(exchange.submit_order(order(Side::Buy, d(900, 0), d(100, 0))), Ok(Ok(_))));
    // the ask reaching the limit price does not fill a buy; falling below it does
    consume(&mut exchange, 900, true);
    assert_eq!(exchange.orders_active.len(), 1);
    consume(&mut exchange, 899, true);
    assert_eq!(exchange.orders_active.len(), 0);
    assert_eq!(rd(exchange.position.size), d(100, 0));
    assert_eq!(rd(exchange.position.entry_price), d(900, 0));
}

#[test]
fn order_margin() {
    let mut exchange = ExchangeDecimal::new(ConfigDecimal::bitmex_perpetuals());
    consume(&mut exchange, 1000, true);

    assert!(matches!(exchange.submit_order(order(Side::Buy, d(900, 0), d(450, 0))), Ok(Ok(_))));
    assert_eq!(rd(exchange.order_margin().unwrap()), d(5, 1));
    assert_eq!(exchange.orders_active.len(), 1);

    assert!(matches!(exchange.submit_order(order(Side::Sell, d(1200, 0), d(450, 0))), Ok(Ok(_))));
    assert_eq!(rd(exchange.order_margin().unwrap()), d(5, 1));
    assert_eq!(exchange.orders_active.len(), 2);

    assert!(matches!(exchange.submit_order(market_order(Side::Buy, d(450, 0))), Ok(Ok(_))));
    assert_eq!(rd(exchange.position.size), d(450, 0));
    assert_eq!(rd(exchange.order_margin().unwrap()), d(5, 1));

    assert!(matches!(exchange.submit_order(order(Side::Sell, d(1200, 0), d(450, 0))), Ok(Ok(_))));
    assert_eq!(rd(exchange.order_margin().unwrap()), d(5, 1));
    assert_eq!(exchange.orders_active.len(), 3);

    assert!(matches!(exchange.submit_order(market_order(Side::Sell, d(450, 0))), Ok(Ok(_))));
    assert_eq!(rd(exchange.order_margin().unwrap()), d(75, 2));

    assert!(matches!(exchange.submit_order(market_order(Side::Buy, d(240, 0))), Ok(Ok(_))));
    assert_eq!(rd(exchange.position.size), d(240, 0));
    assert_eq!(rd(exchange.order_margin().unwrap()), d(51, 2));
}

#[test]
fn unrealized_pnl() {
    let mut exchange = ExchangeDecimal::new(ConfigDecimal::bitmex_perpetuals());
    consume(&mut exchange, 1000, true);

    assert!(matches!(exchange.submit_order(market_order(Side::Buy, d(100, 0))), Ok(Ok(_))));
    assert_eq!(exchange.check_orders(), Ok(()));

    assert_eq!(rd(exchange.position.size), d(100, 0));
    assert_eq!(rd(exchange.unrealized_pnl().unwrap()), d(0, 0));

    consume(&mut exchange, 1100, true);
    consume(&mut exchange, 1100, false);

    assert!(rd(exchange.unrealized_pnl().unwrap()) > d(0, 0));
}

#[test]
fn liq_price() {
    let mut exchange = ExchangeDecimal::new(ConfigDecimal::bitmex_perpetuals());
    consume(&mut exchange, 1000, true);

    assert!(matches!(exchange.submit_order(market_order(Side::Buy, d(100, 0))), Ok(Ok(_))));
    assert_eq!(exchange.check_orders(), Ok(()));

    assert_eq!(rd(exchange.position.liq_price), d(0, 0));
}

#[test]
fn exchange_decimal_consume_candle_sets_both_prices_and_fills_crossed_orders() {
    let mut exchange = ExchangeDecimal::new(ConfigDecimal::bitmex_perpetuals());
    assert_eq!(exchange.consume_candle(dv(d(1000, 0))), Ok(false));
    assert_eq!(rd(exchange.bid), d(1000, 0));
    assert_eq!(rd(exchange.ask), d(1000, 0));
    assert!(matches!(exchange.submit_order(order(Side::Buy, d(900, 0), d(100, 0))), Ok(Ok(_))));
    assert_eq!(exchange.consume_candle(dv(d(850, 0))), Ok(false));
    assert_eq!(exchange.orders_active.len(), 0);
    assert_eq!(rd(exchange.position.size), d(100, 0));
    assert_eq!(rd(exchange.position.entry_price), d(900, 0));
}

#[test]
fn set_leverage() {
    let config = ConfigDecimal::bitmex_perpetuals();
    let fee_taker = rd(config.fee_taker);
    let mut exchange = ExchangeDecimal::new(config);
    consume(&mut exchange, 1000, true);

    assert_eq!(exchange.set_leverage(dv(d(5, 1))), Ok(false));

    assert_eq!(exchange.set_leverage(dv(d(5, 0))), Ok(true));
    assert_eq!(rd(exchange.position.leverage), d(5, 0));

    assert_eq!(exchange.set_leverage(dv(d(1, 0))), Ok(true));
    assert_eq!(rd(exchange.position.leverage), d(1, 0));

    assert!(matches!(exchange.submit_order(market_order(Side::Buy, d(100, 0))), Ok(Ok(_))));
    assert_eq!(exchange.check_orders(), Ok(()));

    assert_eq!(exchange.set_leverage(dv(d(10, 0))), Ok(true));

    let fee_base = d(100, 0) * fee_taker;
    let fee_asset = fee_base / rd(exchange.bid);

    // should change with different leverage
    assert_eq!(rd(exchange.position.margin), d(1, 2));
    assert_eq!(rd(exchange.margin.position_margin), d(1, 2));
    assert_eq!(rd(exchange.margin.available_balance), d(99, 2) - fee_asset);

    assert_eq!(exchange.set_leverage(dv(d(5, 0))), Ok(true));
    assert_eq!(rd(exchange.position.margin), d(2, 2));
    assert_eq!(rd(exchange.margin.position_margin), d(2, 2));
    assert_eq!(rd(exchange.margin.available_balance), d(98, 2) - fee_asset);

    assert!(matches!(exchange.submit_order(market_order(Side::Buy, d(4800, 0))), Ok(Ok(_))));

    let fee_asset2 = (fee_taker * d(4800, 0)) / rd(exchange.bid);

    assert_eq!(exchange.check_orders(), Ok(()));

    assert_eq!(rd(exchange.position.margin), d(98, 2));
    assert_eq!(rd(exchange.margin.position_margin), d(98, 2));
    assert_eq!(rd(exchange.margin.available_balance), d(2, 2) - (fee_asset + fee_asset2));
}

#[test]
fn test_order_ids() {
    let mut exchange = ExchangeDecimal::new(ConfigDecimal::bitmex_perpetuals());
    consume(&mut exchange, 100, true);
    for i in 0..100 {
        let _ = exchange.submit_order(stop_market(Side::Buy, d(101 + i, 0), d(10, 0)));
    }
    let mut last_order_id: i64 = -1;
    for o in exchange.orders_active.iter() {
        assert!(o.id as i64 > last_order_id);
        last_order_id = o.id as i64;
    }
}

fn take_profit_market(side: Side, price: Decimal, size: Decimal) -> OrderDecimal {
    OrderDecimal { order_type: OrderType::TakeProfitMarket, side, size: dv(size), price: dv(price), id: 0, timestamp: 0 }
}

#[test]
fn test_validate_take_profit_market_order() {
    let mut exchange = ExchangeDecimal::new(ConfigDecimal::bitmex_perpetuals());
    consume(&mut exchange, 1000, true);

    let o = take_profit_market(Side::Buy, d(950, 0), d(10, 0));
    assert!(exchange.validate_take_profit_market_order(&o).is_none());

    let o = take_profit_market(Side::Sell, d(950, 0), d(10, 0));
    assert!(exchange.validate_take_profit_market_order(&o).is_some());

    let o = take_profit_market(Side::Buy, d(1050, 0), d(10, 0));
    assert!(exchange.validate_take_profit_market_order(&o).is_some());

    let o = take_profit_market(Side::Sell, d(1050, 0), d(10, 0));
    assert!(exchange.validate_take_profit_market_order(&o).is_none());
}

#[test]
fn exchange_decimal_take_profit_market_order_executes_once_reached() {
    let mut exchange = ExchangeDecimal::new(ConfigDecimal::bitmex_perpetuals());
    consume(&mut exchange, 1000, true);
    let o = take_profit_market(Side::Sell, d(1050, 0), d(1, 1));
    assert!(matches!(exchange.submit_order(o), Ok(Ok(_))));
    assert_eq!(
        exchange.submit_order(take_profit_market(Side::Sell, d(950, 0), d(1, 1))),
        Ok(Err(OrderError::InvalidOrder))
    );
    consume(&mut exchange, 1040, true);
    assert_eq!(exchange.orders_active.len(), 1);
    consume(&mut exchange, 1050, true);
    assert_eq!(exchange.orders_active.len(), 0);
    // executed at the bid of 1000 for its size times that price
    assert_eq!(rd(exchange.position.size), d(-100, 0));
    let executed = exchange.executed_orders();
    assert_eq!(executed.len(), 1);
    assert_eq!(executed[0].order_type, OrderType::TakeProfitMarket);
    assert!(exchange.executed_orders().is_empty());
}

#[test]
fn exchange_decimal_check_orders_records_the_executed_orders() {
    let mut exchange = ExchangeDecimal::new(ConfigDecimal::bitmex_perpetuals());
    consume(&mut exchange, 1000, true);
    assert!(matches!(exchange.submit_order(order(Side::Buy, d(900, 0), d(100, 0))), Ok(Ok(_))));
    assert!(matches!(exchange.submit_order(order(Side::Buy, d(800, 0), d(100, 0))), Ok(Ok(_))));
    consume(&mut exchange, 850, true);
    let executed = exchange.executed_orders();
    assert_eq!(executed.len(), 1);
    assert_eq!(rd(executed[0].price), d(900, 0));
    assert_eq!(executed[0].id, 0);
    assert_eq!(exchange.orders_active.len(), 1);
}

#[test]
fn exchange_decimal_min_and_max() {
    assert_eq!(rd(min(dv(d(15, 1)), dv(d(2, 0)))), d(15, 1));
    assert_eq!(rd(max(dv(d(15, 1)), dv(d(2, 0)))), d(2, 0));
    assert_eq!(rd(min(dv(d(-3, 0)), dv(d(-30, 1)))), d(-30, 1));
}
