use lfest::account::account_impl::Account;
use lfest::account::balances::Balances;
use lfest::account_tracker::NoAccountTracker;
use lfest::clearing_house::ClearingHouse;
use lfest::currency::{BaseCurrency, Decimal, QuoteCurrency};
use lfest::types::{CancelBy, ExchangeOrderMeta, LimitOrder, NoUserOrderId, OrderIdNotFound, Side, TimestampNs};

type Acc = Account<4, BaseCurrency<4>, NoUserOrderId>;

fn account() -> Acc {
    Account::new(
        Balances::new(QuoteCurrency::new(1000, 0)),
        10,
        Decimal::new(5, 1),
        Decimal::new(2, 4),
    )
}

#[test]
fn account_collateral_with_resting_orders() {
    let mut acc = account();
    assert_eq!(acc.order_margin(), QuoteCurrency::new(0, 0));
    assert_eq!(acc.available_balance(), QuoteCurrency::new(1000, 0));
    let order = LimitOrder::new(Side::Buy, QuoteCurrency::new(100, 0), BaseCurrency::new(2, 0))
        .unwrap()
        .into_pending(ExchangeOrderMeta::new(0.into(), 0.into()));
    assert_eq!(acc.order_margin_with_order(&order), QuoteCurrency::new(100, 0));
    assert_eq!(acc.margin_excess_with_order(&order), QuoteCurrency::new(8999600, 4));
    acc.try_insert_order(order).unwrap();
    assert_eq!(acc.order_margin(), QuoteCurrency::new(100, 0));
    assert_eq!(acc.reserved_maker_fees(), QuoteCurrency::new(400, 4));
    assert_eq!(acc.required_collateral(), QuoteCurrency::new(1000400, 4));
    assert_eq!(acc.margin_excess(), QuoteCurrency::new(8999600, 4));
    assert_eq!(acc.available_balance(), QuoteCurrency::new(8999600, 4));

    assert_eq!(
        acc.cancel_limit_order(CancelBy::OrderId(1.into())),
        Err(OrderIdNotFound::OrderId(1.into()))
    );
    assert_eq!(acc.cancel_limit_order(CancelBy::OrderId(0.into())).unwrap().id(), 0.into());
    assert_eq!(acc.order_margin(), QuoteCurrency::new(0, 0));
    assert_eq!(acc.required_collateral(), QuoteCurrency::new(0, 0));
    assert_eq!(acc.available_balance(), QuoteCurrency::new(1000, 0));
    assert_eq!(
        acc.cancel_limit_order(CancelBy::UserOrderId(NoUserOrderId)),
        Err(OrderIdNotFound::UserOrderId(NoUserOrderId))
    );
}

#[test]
fn account_fill_best_moves_the_order_into_the_position() {
    let mut acc = account();
    let order = LimitOrder::new(Side::Buy, QuoteCurrency::new(100, 0), BaseCurrency::new(2, 0))
        .unwrap()
        .into_pending(ExchangeOrderMeta::new(0.into(), 0.into()));
    acc.try_insert_order(order).unwrap();
    let filled = acc.fill_best(
        Side::Buy,
        BaseCurrency::new(2, 0),
        QuoteCurrency::new(100, 0),
        QuoteCurrency::new(4, 2),
        TimestampNs(1),
    );
    assert_eq!(filled.unwrap().filled_quantity(), BaseCurrency::new(2, 0));
    assert!(acc.active_limit_orders().is_empty());
    assert_eq!(acc.position().quantity(), BaseCurrency::new(2, 0));
    assert_eq!(acc.position().entry_price(), QuoteCurrency::new(100, 0));
    assert_eq!(acc.balances().equity(), QuoteCurrency::new(99996, 2));
    assert_eq!(acc.position_margin(), QuoteCurrency::new(100, 0));
}

#[test]
fn clearing_house_settles_fills_into_the_account() {
    let mut acc = account();
    let mut tracker = NoAccountTracker;
    let mut ch = ClearingHouse::<4, NoAccountTracker, BaseCurrency<4>, NoUserOrderId>::new();
    let fee = Decimal::<4>::new(6, 4);
    ch.settle_filled_order(
        &mut acc,
        &mut tracker,
        BaseCurrency::new(2, 0),
        QuoteCurrency::new(100, 0),
        fee,
        TimestampNs(0),
    );
    assert_eq!(acc.position().quantity(), BaseCurrency::new(2, 0));
    assert_eq!(acc.balances().equity(), QuoteCurrency::new(99988, 2));
    assert_eq!(acc.balances().total_fees_paid(), QuoteCurrency::new(12, 2));

    ch.settle_filled_order(
        &mut acc,
        &mut tracker,
        BaseCurrency::new(-3, 0),
        QuoteCurrency::new(110, 0),
        fee,
        TimestampNs(1),
    );
    assert_eq!(acc.position().quantity(), BaseCurrency::new(-1, 0));
    assert_eq!(acc.position().entry_price(), QuoteCurrency::new(110, 0));
    assert_eq!(acc.balances().equity(), QuoteCurrency::new(1019682, 3));
    assert_eq!(acc.balances().total_fees_paid(), QuoteCurrency::new(318, 3));

    let before = acc.clone();
    ch.settle_filled_order(
        &mut acc,
        &mut tracker,
        BaseCurrency::new(0, 0),
        QuoteCurrency::new(110, 0),
        fee,
        TimestampNs(2),
    );
    assert_eq!(acc.balances(), before.balances());
    assert_eq!(acc.position(), before.position());
}

#[test]
fn inverse_futures_margin_is_held_in_base() {
    let mut acc = Account::<4, QuoteCurrency<4>, NoUserOrderId>::new(
        Balances::new(BaseCurrency::new(1, 0)),
        10,
        Decimal::new(1, 0),
        Decimal::new(0, 0),
    );
    let order = LimitOrder::new(Side::Sell, QuoteCurrency::new(400, 0), QuoteCurrency::new(100, 0))
        .unwrap()
        .into_pending(ExchangeOrderMeta::new(0.into(), 0.into()));
    acc.try_insert_order(order).unwrap();
    assert_eq!(acc.order_margin(), BaseCurrency::new(25, 2));
    acc.change_position(
        QuoteCurrency::new(100, 0),
        QuoteCurrency::new(400, 0),
        Side::Buy,
        BaseCurrency::new(0, 0),
    );
    assert_eq!(acc.position_margin(), BaseCurrency::new(25, 2));
    assert_eq!(acc.order_margin(), BaseCurrency::new(0, 0));
}
