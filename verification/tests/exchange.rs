use lfest::config::Config;
use lfest::contract_specification::{ContractSpecification, MarkMethod};
use lfest::currency::{BaseCurrency, Decimal, QuoteCurrency};
use lfest::errors::ConfigError;
use lfest::exchange::{
    AmendLimitOrderError, Exchange, LimitOrderEvent, LimitOrderFill, LimitOrderFills, RiskError, Solvency, SubmitLimitOrderError,
    UnsettledFill,
};
use lfest::trades::Trade;
use lfest::types::{CancelBy, ExchangeOrderMeta, LimitOrder, NoUserOrderId, OrderIdNotFound, Pending, Side, TimestampNs};

type Ex = Exchange<4, BaseCurrency<4>, NoUserOrderId>;

fn contract_spec() -> ContractSpecification<4> {
    ContractSpecification::new(2, Decimal::new(5, 1), Decimal::new(2, 4), Decimal::new(6, 4)).unwrap()
}

fn exchange() -> Ex {
    let config = Config::new(QuoteCurrency::new(1000, 0), 10, contract_spec()).unwrap();
    Exchange::new(config)
}

fn pending(side: Side, price: i64, qty: i64, id: u64) -> LimitOrder<4, BaseCurrency<4>, NoUserOrderId, lfest::types::Pending<BaseCurrency<4>>> {
    LimitOrder::new(side, QuoteCurrency::new(price, 0), BaseCurrency::new(qty, 0))
        .unwrap()
        .into_pending(ExchangeOrderMeta::new(id.into(), 0.into()))
}

#[test]
fn contract_specification_new_derives_the_margin_requirements() {
    let spec = contract_spec();
    assert_eq!(spec.init_margin_req(), Decimal::new(5, 1));
    assert_eq!(spec.maintenance_margin(), Decimal::new(25, 2));
    assert_eq!(spec.fee_maker(), Decimal::new(2, 4));
    assert_eq!(spec.fee_taker(), Decimal::new(6, 4));
    assert_eq!(spec.mark_method(), MarkMethod::BidAsk);
    assert_eq!(spec.ticker().as_str(), "");
    let spec = ContractSpecification::<4>::new(3, Decimal::new(1, 0), Decimal::new(0, 0), Decimal::new(0, 0)).unwrap();
    assert_eq!(spec.init_margin_req(), Decimal::new(3333, 4));
    assert_eq!(spec.maintenance_margin(), Decimal::new(3333, 4));
}

#[test]
fn contract_specification_new_refuses_maintenance_margins_outside_of_one() {
    let zero = ContractSpecification::<4>::new(1, Decimal::new(0, 0), Decimal::new(0, 0), Decimal::new(0, 0));
    assert_eq!(zero.err(), Some(ConfigError::InvalidMaintenanceMarginFraction));
    let above = ContractSpecification::<4>::new(1, Decimal::new(11, 1), Decimal::new(0, 0), Decimal::new(0, 0));
    assert_eq!(above.err(), Some(ConfigError::InvalidMaintenanceMarginFraction));
    assert!(ContractSpecification::<4>::new(1, Decimal::new(1, 0), Decimal::new(0, 0), Decimal::new(0, 0)).is_ok());
}

#[test]
fn config_new_refuses_a_non_positive_starting_balance() {
    let config = Config::new(QuoteCurrency::<4>::new(0, 0), 10, contract_spec());
    assert_eq!(config.err(), Some(ConfigError::InvalidStartingBalance));
    let config = Config::new(QuoteCurrency::<4>::new(5, 1), 7, contract_spec()).unwrap();
    assert_eq!(config.starting_wallet_balance(), QuoteCurrency::new(5, 1));
    assert_eq!(config.max_num_open_orders(), 7);
}

#[test]
fn exchange_new_starts_neutral_with_the_starting_balance() {
    let ex = exchange();
    assert_eq!(ex.account().balances().equity(), QuoteCurrency::new(1000, 0));
    assert_eq!(ex.account().position().quantity(), BaseCurrency::new(0, 0));
    assert_eq!(ex.account().active_limit_orders().num_active(), 0);
    assert_eq!(ex.market_state().bid(), QuoteCurrency::new(0, 0));
    assert!(ex.limit_order_events().is_empty());
}

#[test]
fn exchange_set_best_bid_and_ask() {
    let mut ex = exchange();
    ex.set_best_bid_and_ask(QuoteCurrency::new(99, 0), QuoteCurrency::new(100, 0));
    assert_eq!(ex.market_state().bid(), QuoteCurrency::new(99, 0));
    assert_eq!(ex.market_state().ask(), QuoteCurrency::new(100, 0));
}

#[test]
fn exchange_fills_a_limit_order_partially_then_fully() {
    let mut ex = exchange();
    ex.append_limit_order(pending(Side::Buy, 100, 2, 0)).unwrap();
    let best = ex.account().active_limit_orders().best_bid().unwrap().clone();
    let fill = ex.fill_limit_order(best, BaseCurrency::new(1, 0), 5.into());
    match fill {
        LimitOrderFill::PartiallyFilled { filled_quantity, fee, order_after_fill } => {
            assert_eq!(filled_quantity, BaseCurrency::new(1, 0));
            assert_eq!(fee, QuoteCurrency::new(200, 4));
            assert_eq!(order_after_fill.remaining_quantity(), BaseCurrency::new(1, 0));
            assert_eq!(order_after_fill.filled_quantity(), BaseCurrency::new(1, 0));
        }
        LimitOrderFill::FullyFilled { .. } => panic!("expected a partial fill"),
    }
    assert_eq!(ex.account().position().quantity(), BaseCurrency::new(1, 0));
    assert_eq!(ex.account().position().entry_price(), QuoteCurrency::new(100, 0));
    assert_eq!(ex.account().balances().equity(), QuoteCurrency::new(9999800, 4));

    let best = ex.account().active_limit_orders().best_bid().unwrap().clone();
    let fill = ex.fill_limit_order(best, BaseCurrency::new(1, 0), 6.into());
    match fill {
        LimitOrderFill::FullyFilled { filled_quantity, fee, order_after_fill } => {
            assert_eq!(filled_quantity, BaseCurrency::new(1, 0));
            assert_eq!(fee, QuoteCurrency::new(200, 4));
            assert_eq!(order_after_fill.filled_quantity(), BaseCurrency::new(2, 0));
            assert_eq!(order_after_fill.id(), 0.into());
        }
        LimitOrderFill::PartiallyFilled { .. } => panic!("expected a full fill"),
    }
    assert_eq!(ex.account().position().quantity(), BaseCurrency::new(2, 0));
    assert_eq!(ex.account().active_limit_orders().num_active(), 0);
    assert_eq!(ex.account().balances().equity(), QuoteCurrency::new(9999600, 4));
    assert_eq!(ex.account().balances().total_fees_paid(), QuoteCurrency::new(400, 4));
}

#[test]
fn exchange_force_liquidate_cancels_every_order_and_closes_the_position() {
    let mut ex = exchange();
    ex.append_limit_order(pending(Side::Buy, 100, 2, 0)).unwrap();
    let best = ex.account().active_limit_orders().best_bid().unwrap().clone();
    ex.fill_limit_order(best, BaseCurrency::new(2, 0), 1.into());
    ex.append_limit_order(pending(Side::Sell, 110, 1, 1)).unwrap();
    ex.append_limit_order(pending(Side::Buy, 80, 1, 2)).unwrap();
    ex.set_best_bid_and_ask(QuoteCurrency::new(90, 0), QuoteCurrency::new(91, 0));

    ex.force_liquidate();
    assert_eq!(ex.account().active_limit_orders().num_active(), 0);
    assert_eq!(ex.account().position().quantity(), BaseCurrency::new(0, 0));
    // 1000 - 0.04 maker fee - 20 loss - 0.108 taker fee
    assert_eq!(ex.account().balances().equity(), QuoteCurrency::new(9798520, 4));
    assert_eq!(ex.account().balances().total_fees_paid(), QuoteCurrency::new(1480, 4));

    assert!(ex.limit_order_events().is_empty());
    ex.drain_forced_cancels_into_events();
    let events = ex.limit_order_events();
    assert_eq!(events.len(), 2);
    let mut ids = Vec::new();
    for event in events.iter() {
        match event {
            LimitOrderEvent::ForcedCancel(order) => ids.push(order.id()),
            LimitOrderEvent::Fill(_) => panic!("expected forced cancellations"),
        }
    }
    assert_eq!(ids, vec![2.into(), 1.into()]);
}

#[test]
fn exchange_force_liquidate_buys_back_a_short_at_the_ask() {
    let mut ex = exchange();
    ex.append_limit_order(pending(Side::Sell, 100, 1, 0)).unwrap();
    let best = ex.account().active_limit_orders().best_ask().unwrap().clone();
    ex.fill_limit_order(best, BaseCurrency::new(1, 0), 1.into());
    assert_eq!(ex.account().position().quantity(), BaseCurrency::new(-1, 0));
    ex.set_best_bid_and_ask(QuoteCurrency::new(104, 0), QuoteCurrency::new(105, 0));
    ex.force_liquidate();
    assert_eq!(ex.account().position().quantity(), BaseCurrency::new(0, 0));
    // 1000 - 0.02 maker fee - 5 loss - 0.063 taker fee
    assert_eq!(ex.account().balances().equity(), QuoteCurrency::new(9949170, 4));
}

#[test]
fn exchange_cancel_limit_order() {
    let mut ex = exchange();
    ex.append_limit_order(pending(Side::Sell, 110, 1, 3)).unwrap();
    assert_eq!(
        ex.cancel_limit_order(CancelBy::OrderId(4.into())).err(),
        Some(OrderIdNotFound::OrderId(4.into()))
    );
    assert_eq!(ex.cancel_limit_order(CancelBy::OrderId(3.into())).unwrap().id(), 3.into());
    assert_eq!(ex.account().active_limit_orders().num_active(), 0);
}

fn exchange_with_balance(balance: i64) -> Ex {
    let config = Config::new(QuoteCurrency::new(balance, 0), 10, contract_spec()).unwrap();
    Exchange::new(config)
}

#[test]
fn account_largest_collateral_contributor_frees_the_most_collateral() {
    let mut ex = exchange();
    assert_eq!(ex.account().largest_collateral_contributor(), None);
    ex.append_limit_order(pending(Side::Buy, 100, 2, 0)).unwrap();
    ex.append_limit_order(pending(Side::Buy, 90, 1, 1)).unwrap();
    ex.append_limit_order(pending(Side::Sell, 120, 1, 2)).unwrap();
    // without order 0 the order margin falls from 145 to 60
    assert_eq!(ex.account().largest_collateral_contributor(), Some(0.into()));
    assert_eq!(
        ex.account().required_collateral_for(QuoteCurrency::new(90, 0), QuoteCurrency::new(120, 0)),
        QuoteCurrency::new(600420, 4)
    );
}

#[test]
fn exchange_reconcile_margin_cancels_until_the_collateral_is_covered() {
    let mut ex = exchange();
    ex.append_limit_order(pending(Side::Buy, 100, 25, 0)).unwrap();
    ex.append_limit_order(pending(Side::Buy, 90, 1, 1)).unwrap();
    assert_eq!(ex.account().margin_excess(), QuoteCurrency::new(-2955180, 4));
    let solvency = ex.reconcile_margin(QuoteCurrency::new(0, 0));
    assert_eq!(solvency, Solvency::Solvent);
    assert_eq!(ex.account().active_limit_orders().num_active(), 1);
    assert_eq!(ex.account().margin_excess(), QuoteCurrency::new(9549820, 4));
    ex.drain_forced_cancels_into_events();
    assert_eq!(ex.limit_order_events().len(), 1);
    match &ex.limit_order_events()[0] {
        LimitOrderEvent::ForcedCancel(order) => assert_eq!(order.id(), 0.into()),
        LimitOrderEvent::Fill(_) => panic!("expected a forced cancellation"),
    }
}

#[test]
fn exchange_reconcile_margin_reports_a_deficit_without_orders_to_cancel() {
    let mut ex = exchange_with_balance(60);
    ex.append_limit_order(pending(Side::Buy, 100, 2, 0)).unwrap();
    let best = ex.account().active_limit_orders().best_bid().unwrap().clone();
    ex.fill_limit_order(best, BaseCurrency::new(2, 0), 1.into());
    ex.set_best_bid_and_ask(QuoteCurrency::new(99, 0), QuoteCurrency::new(100, 0));
    // equity 59.96 covers the maintenance margin of 50 but not the position margin of 100
    let solvency = ex.reconcile_margin(QuoteCurrency::new(0, 0));
    assert_eq!(solvency, Solvency::InitialMarginDeficit);
    assert_eq!(ex.account().position().quantity(), BaseCurrency::new(2, 0));
}

#[test]
fn exchange_reconcile_margin_liquidates_below_the_maintenance_margin() {
    let mut ex = exchange_with_balance(40);
    ex.append_limit_order(pending(Side::Buy, 100, 2, 0)).unwrap();
    let best = ex.account().active_limit_orders().best_bid().unwrap().clone();
    ex.fill_limit_order(best, BaseCurrency::new(2, 0), 1.into());
    ex.append_limit_order(pending(Side::Sell, 120, 1, 1)).unwrap();
    ex.set_best_bid_and_ask(QuoteCurrency::new(95, 0), QuoteCurrency::new(96, 0));
    let solvency = ex.reconcile_margin(QuoteCurrency::new(0, 0));
    assert_eq!(solvency, Solvency::Liquidated);
    assert_eq!(ex.account().position().quantity(), BaseCurrency::new(0, 0));
    assert_eq!(ex.account().active_limit_orders().num_active(), 0);
    // 39.96 - 10 loss - 0.114 taker fee
    assert_eq!(ex.account().balances().equity(), QuoteCurrency::new(298460, 4));
}

#[test]
fn exchange_reconcile_margin_reports_bankruptcy() {
    let mut ex = exchange_with_balance(5);
    ex.append_limit_order(pending(Side::Buy, 100, 2, 0)).unwrap();
    let best = ex.account().active_limit_orders().best_bid().unwrap().clone();
    ex.fill_limit_order(best, BaseCurrency::new(2, 0), 1.into());
    ex.set_best_bid_and_ask(QuoteCurrency::new(95, 0), QuoteCurrency::new(96, 0));
    let solvency = ex.reconcile_margin(QuoteCurrency::new(0, 0));
    assert_eq!(solvency, Solvency::Bankrupt);
    assert_eq!(ex.account().balances().equity(), QuoteCurrency::new(0, 0));
    // 10 loss - 4.96 equity + 0.114 taker fee
    assert_eq!(ex.account().balances().bad_debt(), QuoteCurrency::new(51540, 4));
}

type Inverse = Exchange<4, QuoteCurrency<4>, NoUserOrderId>;

fn inverse_exchange(balance: BaseCurrency<4>) -> Inverse {
    Exchange::new(Config::new(balance, 10, contract_spec()).unwrap())
}

fn inverse_bid(price: i64, qty: i64, id: u64) -> LimitOrder<4, QuoteCurrency<4>, NoUserOrderId, Pending<QuoteCurrency<4>>> {
    LimitOrder::new(Side::Buy, QuoteCurrency::new(price, 0), QuoteCurrency::new(qty, 0))
        .unwrap()
        .into_pending(ExchangeOrderMeta::new(id.into(), 0.into()))
}

fn sell_trade(price: i64, qty: i64) -> Trade<4> {
    Trade {
        price: QuoteCurrency::new(price, 0),
        quantity: QuoteCurrency::new(-qty, 0),
        side: Side::Sell,
        timestamp_exchange_ns: TimestampNs(7),
    }
}

#[test]
fn trade_fills_the_orders_it_crosses_up_to_its_size() {
    let mut trade = sell_trade(98, 250);
    let order = inverse_bid(100, 200, 0);
    let fill = <Trade<4> as LimitOrderFills<4, QuoteCurrency<4>, NoUserOrderId>>::limit_order_filled(&mut trade, &order);
    assert_eq!(fill, Some((QuoteCurrency::new(200, 0), false)));
    assert_eq!(trade.quantity, QuoteCurrency::new(-50, 0));
    let order = inverse_bid(99, 99, 1);
    let fill = <Trade<4> as LimitOrderFills<4, QuoteCurrency<4>, NoUserOrderId>>::limit_order_filled(&mut trade, &order);
    assert_eq!(fill, Some((QuoteCurrency::new(50, 0), true)));
    let order = inverse_bid(97, 97, 2);
    let fill = <Trade<4> as LimitOrderFills<4, QuoteCurrency<4>, NoUserOrderId>>::limit_order_filled(&mut sell_trade(98, 10), &order);
    assert_eq!(fill, None);
}

#[test]
fn exchange_check_active_orders_fills_the_best_bids_until_the_trade_is_exhausted() {
    let mut ex = inverse_exchange(BaseCurrency::new(10, 0));
    ex.append_limit_order(inverse_bid(100, 200, 0)).unwrap();
    ex.append_limit_order(inverse_bid(99, 99, 1)).unwrap();
    ex.append_limit_order(inverse_bid(97, 97, 2)).unwrap();
    assert_eq!(ex.check_active_orders(sell_trade(98, 250)), Ok(()));
    assert!(!ex.liquidated_during_fills());
    let events = ex.limit_order_events();
    assert_eq!(events.len(), 2);
    match &events[0] {
        LimitOrderEvent::Fill(LimitOrderFill::FullyFilled { filled_quantity, fee, order_after_fill }) => {
            assert_eq!(*filled_quantity, QuoteCurrency::new(200, 0));
            assert_eq!(*fee, BaseCurrency::new(4, 4));
            assert_eq!(order_after_fill.id(), 0.into());
        }
        _ => panic!("expected a full fill"),
    }
    match &events[1] {
        LimitOrderEvent::Fill(LimitOrderFill::PartiallyFilled { filled_quantity, order_after_fill, .. }) => {
            assert_eq!(*filled_quantity, QuoteCurrency::new(50, 0));
            assert_eq!(order_after_fill.id(), 1.into());
            assert_eq!(order_after_fill.remaining_quantity(), QuoteCurrency::new(49, 0));
        }
        _ => panic!("expected a partial fill"),
    }
    assert_eq!(ex.account().position().quantity(), QuoteCurrency::new(250, 0));
    assert_eq!(ex.account().position().entry_price(), QuoteCurrency::new(998, 1));
    // 10 - 0.0004 - 0.0001 maker fees
    assert_eq!(ex.account().balances().equity(), BaseCurrency::new(99995, 4));
    assert_eq!(ex.account().active_limit_orders().num_active(), 2);
}

#[test]
fn exchange_check_active_orders_without_fills_leaves_the_account() {
    let mut ex = inverse_exchange(BaseCurrency::new(10, 0));
    ex.append_limit_order(inverse_bid(100, 200, 0)).unwrap();
    let mut buy = sell_trade(90, 100);
    buy.side = Side::Buy;
    assert_eq!(ex.check_active_orders(buy), Ok(()));
    assert!(ex.limit_order_events().is_empty());
    assert_eq!(ex.check_active_orders(sell_trade(101, 100)), Ok(()));
    assert!(ex.limit_order_events().is_empty());
    assert_eq!(ex.account().active_limit_orders().num_active(), 1);
    assert_eq!(ex.account().position().quantity(), QuoteCurrency::new(0, 0));
}

#[test]
fn exchange_check_active_orders_stops_on_liquidation() {
    let mut ex = inverse_exchange(BaseCurrency::new(4, 1));
    ex.append_limit_order(inverse_bid(100, 200, 0)).unwrap();
    ex.append_limit_order(inverse_bid(99, 99, 1)).unwrap();
    ex.set_best_bid_and_ask(QuoteCurrency::new(95, 0), QuoteCurrency::new(96, 0));
    assert_eq!(ex.check_active_orders(sell_trade(94, 500)), Ok(()));
    assert!(ex.liquidated_during_fills());
    assert_eq!(ex.account().position().quantity(), QuoteCurrency::new(0, 0));
    assert_eq!(ex.account().active_limit_orders().num_active(), 0);
    // 0.4 - 0.0004 maker fee - 0.1052 loss - 0.0012 taker fee
    assert_eq!(ex.account().balances().equity(), BaseCurrency::new(2932, 4));
    let events = ex.limit_order_events();
    assert_eq!(events.len(), 2);
    match &events[1] {
        LimitOrderEvent::ForcedCancel(order) => assert_eq!(order.id(), 1.into()),
        LimitOrderEvent::Fill(_) => panic!("expected a forced cancellation"),
    }
}

#[test]
fn exchange_check_active_orders_refuses_a_liquidation_without_prices() {
    let mut ex = inverse_exchange(BaseCurrency::new(4, 1));
    ex.append_limit_order(inverse_bid(100, 200, 0)).unwrap();
    assert_eq!(ex.check_active_orders(sell_trade(94, 200)), Err(UnsettledFill));
    assert_eq!(ex.account().position().quantity(), QuoteCurrency::new(200, 0));
}

#[test]
fn exchange_settle_filled_market_order_pays_the_taker_fee() {
    let mut ex = exchange();
    let (cancelled, solvency) = ex
        .settle_filled_market_order(Side::Buy, BaseCurrency::new(2, 0), QuoteCurrency::new(100, 0))
        .unwrap();
    assert!(cancelled.is_empty());
    assert_eq!(solvency, Solvency::Solvent);
    assert_eq!(ex.account().position().quantity(), BaseCurrency::new(2, 0));
    assert_eq!(ex.account().balances().equity(), QuoteCurrency::new(9998800, 4));
}

#[test]
fn exchange_settle_filled_market_order_force_cancels_to_cover_the_collateral() {
    let mut ex = exchange();
    ex.append_limit_order(pending(Side::Buy, 100, 15, 0)).unwrap();
    let (cancelled, solvency) = ex
        .settle_filled_market_order(Side::Buy, BaseCurrency::new(10, 0), QuoteCurrency::new(100, 0))
        .unwrap();
    assert_eq!(solvency, Solvency::Solvent);
    assert_eq!(cancelled.len(), 1);
    assert_eq!(cancelled[0].id(), 0.into());
    assert_eq!(ex.account().active_limit_orders().num_active(), 0);
    assert_eq!(ex.account().margin_excess(), QuoteCurrency::new(4994000, 4));
}

#[test]
fn exchange_update_state_takes_the_trade_and_fills_the_crossed_bids() {
    let mut ex = inverse_exchange(BaseCurrency::new(10, 0));
    ex.set_best_bid_and_ask(QuoteCurrency::new(98, 0), QuoteCurrency::new(99, 0));
    ex.append_limit_order(inverse_bid(100, 200, 0)).unwrap();
    ex.append_limit_order(inverse_bid(97, 97, 1)).unwrap();
    assert_eq!(ex.update_state(sell_trade(98, 250)), Ok(()));
    assert_eq!(ex.market_state().last_trade_price(), QuoteCurrency::new(98, 0));
    assert_eq!(ex.market_state().current_ts_ns(), TimestampNs(7));
    assert_eq!(ex.market_state().step(), 1);
    assert_eq!(ex.market_state().bid(), QuoteCurrency::new(98, 0));
    let events = ex.limit_order_events();
    assert_eq!(events.len(), 1);
    match &events[0] {
        LimitOrderEvent::Fill(LimitOrderFill::FullyFilled { filled_quantity, order_after_fill, .. }) => {
            assert_eq!(*filled_quantity, QuoteCurrency::new(200, 0));
            assert_eq!(order_after_fill.id(), 0.into());
        }
        _ => panic!("expected a full fill"),
    }
    assert_eq!(ex.account().position().quantity(), QuoteCurrency::new(200, 0));
    assert_eq!(ex.account().active_limit_orders().num_active(), 1);
    // a trade that crosses nothing clears the events and only advances the market
    assert_eq!(ex.update_state(sell_trade(99, 10)), Ok(()));
    assert!(ex.limit_order_events().is_empty());
    assert_eq!(ex.market_state().step(), 2);
    assert_eq!(ex.market_state().last_trade_price(), QuoteCurrency::new(99, 0));
}

#[test]
fn exchange_update_state_reports_a_liquidation_during_the_fills() {
    let mut ex = inverse_exchange(BaseCurrency::new(4, 1));
    ex.append_limit_order(inverse_bid(100, 200, 0)).unwrap();
    ex.append_limit_order(inverse_bid(99, 99, 1)).unwrap();
    ex.set_best_bid_and_ask(QuoteCurrency::new(95, 0), QuoteCurrency::new(96, 0));
    assert_eq!(ex.update_state(sell_trade(94, 500)), Err(RiskError::Liquidate));
    assert!(ex.liquidated_during_fills());
    assert_eq!(ex.account().position().quantity(), QuoteCurrency::new(0, 0));
    assert_eq!(ex.account().active_limit_orders().num_active(), 0);
    assert_eq!(ex.limit_order_events().len(), 2);
}

fn inverse_long_below_maintenance() -> Inverse {
    let mut ex = inverse_exchange(BaseCurrency::new(4, 1));
    ex.append_limit_order(inverse_bid(100, 200, 0)).unwrap();
    let best = ex.account().active_limit_orders().best_bid().unwrap().clone();
    ex.fill_limit_order(best, QuoteCurrency::new(200, 0), 1.into());
    ex.append_limit_order(inverse_bid(90, 90, 1)).unwrap();
    ex
}

#[test]
fn exchange_update_state_liquidates_a_position_below_its_maintenance_margin() {
    let mut ex = inverse_long_below_maintenance();
    // without prices the position cannot be valued
    assert_eq!(ex.liquidation_due(), None);
    ex.set_best_bid_and_ask(QuoteCurrency::new(95, 0), QuoteCurrency::new(96, 0));
    // a notional value of 2 needs 0.5 of maintenance margin; the equity is 0.3996 and the
    // position is worth 2 - 200 / 95 less at the bid
    assert_eq!(ex.liquidation_due(), Some(true));
    assert_eq!(ex.update_state(sell_trade(95, 10)), Err(RiskError::Liquidate));
    assert!(!ex.liquidated_during_fills());
    assert_eq!(ex.account().position().quantity(), QuoteCurrency::new(0, 0));
    assert_eq!(ex.account().active_limit_orders().num_active(), 0);
    assert_eq!(ex.market_state().step(), 1);
    let events = ex.limit_order_events();
    assert_eq!(events.len(), 1);
    match &events[0] {
        LimitOrderEvent::ForcedCancel(order) => assert_eq!(order.id(), 1.into()),
        LimitOrderEvent::Fill(_) => panic!("expected a forced cancellation"),
    }
}

#[test]
fn exchange_update_state_refuses_a_liquidation_without_prices() {
    let mut ex = inverse_long_below_maintenance();
    assert_eq!(ex.update_state(sell_trade(95, 10)), Err(RiskError::UnsettledFill));
    assert_eq!(ex.account().position().quantity(), QuoteCurrency::new(200, 0));
    assert_eq!(ex.account().active_limit_orders().num_active(), 1);
    assert_eq!(ex.market_state().step(), 1);
}

#[test]
fn exchange_liquidation_due_without_a_position_is_false() {
    let ex = exchange();
    assert_eq!(ex.liquidation_due(), Some(false));
}

#[test]
fn exchange_submit_market_order_fills_at_the_best_price_with_the_next_id() {
    let mut ex = exchange();
    ex.set_best_bid_and_ask(QuoteCurrency::new(99, 0), QuoteCurrency::new(100, 0));
    let settlement = ex.submit_market_order(Side::Buy, BaseCurrency::new(2, 0)).unwrap();
    assert_eq!(settlement.order_id, 0.into());
    assert_eq!(settlement.side, Side::Buy);
    assert_eq!(settlement.quantity, BaseCurrency::new(2, 0));
    assert_eq!(settlement.fill_price, QuoteCurrency::new(100, 0));
    assert_eq!(settlement.ts_ns_executed, ex.market_state().current_ts_ns());
    assert!(settlement.forced_cancels.is_empty());
    assert_eq!(settlement.solvency, Solvency::Solvent);
    assert_eq!(ex.account().position().quantity(), BaseCurrency::new(2, 0));
    // 1000 - 0.12 taker fee
    assert_eq!(ex.account().balances().equity(), QuoteCurrency::new(9998800, 4));
    let settlement = ex.submit_market_order(Side::Sell, BaseCurrency::new(1, 0)).unwrap();
    assert_eq!(settlement.order_id, 1.into());
    assert_eq!(settlement.fill_price, QuoteCurrency::new(99, 0));
    assert_eq!(ex.account().position().quantity(), BaseCurrency::new(1, 0));
}

#[test]
fn exchange_submit_limit_order_rejects_marketable_orders_and_rests_the_others() {
    let mut ex = exchange();
    ex.set_best_bid_and_ask(QuoteCurrency::new(99, 0), QuoteCurrency::new(100, 0));
    let crossing = LimitOrder::new(Side::Buy, QuoteCurrency::new(100, 0), BaseCurrency::new(1, 0)).unwrap();
    assert_eq!(
        ex.submit_limit_order(crossing).err(),
        Some(SubmitLimitOrderError::GoodTillCrossingRejectedOrder {
            limit_price: QuoteCurrency::new(100, 0),
            away_market_quotation_price: QuoteCurrency::new(100, 0),
        })
    );
    let resting = LimitOrder::new(Side::Buy, QuoteCurrency::new(98, 0), BaseCurrency::new(1, 0)).unwrap();
    let pending = ex.submit_limit_order(resting).unwrap();
    // the rejected order took the first id
    assert_eq!(pending.id(), 1.into());
    assert_eq!(pending.limit_price(), QuoteCurrency::new(98, 0));
    assert_eq!(pending.remaining_quantity(), BaseCurrency::new(1, 0));
    assert_eq!(ex.account().active_limit_orders().num_active(), 1);
    assert_eq!(ex.account().active_limit_orders().best_bid().unwrap().id(), 1.into());
    let crossing = LimitOrder::new(Side::Sell, QuoteCurrency::new(99, 0), BaseCurrency::new(1, 0)).unwrap();
    assert_eq!(
        ex.submit_limit_order(crossing).err(),
        Some(SubmitLimitOrderError::GoodTillCrossingRejectedOrder {
            limit_price: QuoteCurrency::new(99, 0),
            away_market_quotation_price: QuoteCurrency::new(99, 0),
        })
    );
    assert_eq!(ex.account().active_limit_orders().num_active(), 1);
}

fn new_order(side: Side, price: i64, qty: i64) -> LimitOrder<4, BaseCurrency<4>, NoUserOrderId, lfest::types::NewOrder> {
    LimitOrder::new(side, QuoteCurrency::new(price, 0), BaseCurrency::new(qty, 0)).unwrap()
}

#[test]
fn exchange_amend_limit_order_replaces_the_order_under_a_new_id() {
    let mut ex = exchange();
    ex.set_best_bid_and_ask(QuoteCurrency::new(99, 0), QuoteCurrency::new(100, 0));
    let first = ex.submit_limit_order(new_order(Side::Buy, 98, 2)).unwrap();
    assert_eq!(first.id(), 0.into());
    let amended = ex.amend_limit_order(0.into(), new_order(Side::Buy, 97, 3)).unwrap();
    assert_eq!(amended.id(), 1.into());
    assert_eq!(amended.limit_price(), QuoteCurrency::new(97, 0));
    assert_eq!(amended.remaining_quantity(), BaseCurrency::new(3, 0));
    assert_eq!(ex.account().active_limit_orders().num_active(), 1);
    assert_eq!(ex.account().active_limit_orders().best_bid().unwrap().id(), 1.into());
    // the replaced order is no longer active, an id not given out yet was never found
    assert_eq!(
        ex.amend_limit_order(0.into(), new_order(Side::Buy, 97, 3)).err(),
        Some(AmendLimitOrderError::OrderNoLongerActive)
    );
    assert_eq!(
        ex.amend_limit_order(5.into(), new_order(Side::Buy, 97, 3)).err(),
        Some(AmendLimitOrderError::OrderIdNotFound { order_id: 5.into() })
    );
    // the amended order rests on the buy side only
    assert_eq!(
        ex.amend_limit_order(1.into(), new_order(Side::Sell, 101, 3)).err(),
        Some(AmendLimitOrderError::OrderNoLongerActive)
    );
    assert_eq!(ex.account().active_limit_orders().num_active(), 1);
}

#[test]
fn exchange_amend_limit_order_applies_the_change_to_what_remains() {
    let mut ex = exchange();
    ex.set_best_bid_and_ask(QuoteCurrency::new(99, 0), QuoteCurrency::new(100, 0));
    ex.submit_limit_order(new_order(Side::Buy, 98, 3)).unwrap();
    let best = ex.account().active_limit_orders().best_bid().unwrap().clone();
    ex.fill_limit_order(best, BaseCurrency::new(2, 0), 1.into());
    // 2 of the order are filled: a new quantity of 5 leaves 3
    let amended = ex.amend_limit_order(0.into(), new_order(Side::Buy, 98, 5)).unwrap();
    assert_eq!(amended.remaining_quantity(), BaseCurrency::new(3, 0));
    assert_eq!(amended.id(), 1.into());
    let best = ex.account().active_limit_orders().best_bid().unwrap().clone();
    ex.fill_limit_order(best, BaseCurrency::new(1, 0), 2.into());
    // 1 of the new order is filled: a new quantity of 1 leaves nothing and cancels it
    assert_eq!(
        ex.amend_limit_order(1.into(), new_order(Side::Buy, 98, 1)).err(),
        Some(AmendLimitOrderError::AmendQtyAlreadyFilled)
    );
    assert_eq!(ex.account().active_limit_orders().num_active(), 0);
}

#[test]
fn exchange_amend_limit_order_refuses_a_marketable_replacement() {
    let mut ex = exchange();
    ex.set_best_bid_and_ask(QuoteCurrency::new(99, 0), QuoteCurrency::new(100, 0));
    ex.submit_limit_order(new_order(Side::Buy, 98, 1)).unwrap();
    assert_eq!(
        ex.amend_limit_order(0.into(), new_order(Side::Buy, 100, 1)).err(),
        Some(AmendLimitOrderError::SubmitLimitOrder(SubmitLimitOrderError::GoodTillCrossingRejectedOrder {
            limit_price: QuoteCurrency::new(100, 0),
            away_market_quotation_price: QuoteCurrency::new(100, 0),
        }))
    );
    // the amended order was cancelled before its replacement was refused
    assert_eq!(ex.account().active_limit_orders().num_active(), 0);
}

#[test]
fn exchange_update_state_liquidates_once_the_market_crosses_the_liquidation_price() {
    let mut ex = inverse_exchange(BaseCurrency::new(1, 0));
    ex.append_limit_order(inverse_bid(100, 200, 0)).unwrap();
    let best = ex.account().active_limit_orders().best_bid().unwrap().clone();
    ex.fill_limit_order(best, QuoteCurrency::new(200, 0), 1.into());
    // equity 0.9996, maintenance margin 0.5: at a bid of 95 the position loses 0.1052
    ex.set_best_bid_and_ask(QuoteCurrency::new(95, 0), QuoteCurrency::new(96, 0));
    assert_eq!(ex.liquidation_due(), Some(false));
    assert_eq!(ex.update_state(sell_trade(95, 10)), Ok(()));
    assert_eq!(ex.account().position().quantity(), QuoteCurrency::new(200, 0));
    // at a bid of 79 it loses 0.5316, which leaves 0.468
    ex.set_best_bid_and_ask(QuoteCurrency::new(79, 0), QuoteCurrency::new(80, 0));
    assert_eq!(ex.liquidation_due(), Some(true));
    assert_eq!(ex.update_state(sell_trade(79, 10)), Err(RiskError::Liquidate));
    assert_eq!(ex.account().position().quantity(), QuoteCurrency::new(0, 0));
    assert!(ex.limit_order_events().is_empty());
}

#[test]
fn exchange_reconcile_margin_keeps_orders_the_collateral_covers() {
    let mut ex = exchange();
    ex.append_limit_order(pending(Side::Buy, 100, 2, 0)).unwrap();
    ex.append_limit_order(pending(Side::Sell, 110, 1, 1)).unwrap();
    assert!(ex.account().margin_excess() >= QuoteCurrency::new(0, 0));
    let solvency = ex.reconcile_margin(QuoteCurrency::new(0, 0));
    assert_eq!(solvency, Solvency::Solvent);
    assert_eq!(ex.account().active_limit_orders().num_active(), 2);
    ex.drain_forced_cancels_into_events();
    assert!(ex.limit_order_events().is_empty());
}
