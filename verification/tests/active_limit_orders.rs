use lfest::account::active_limit_orders::ActiveLimitOrders;
use lfest::account::position::Position;
use lfest::currency::{BaseCurrency, Decimal, QuoteCurrency};
use lfest::types::{ExchangeOrderMeta, LimitOrder, NoUserOrderId, Side};

#[test]
fn active_limit_orders_active_limit_orders_remove_by_id() {
    let mut book = ActiveLimitOrders::<5, BaseCurrency<5>, NoUserOrderId>::with_capacity(10);

    let order = LimitOrder::new(
        Side::Buy,
        QuoteCurrency::<5>::new(100, 0),
        BaseCurrency::new(5, 0),
    )
    .unwrap();
    let meta = ExchangeOrderMeta::new(0.into(), 0.into());
    let order = order.into_pending(meta);
    book.try_insert(order.clone()).unwrap();
    assert_eq!(book.get_by_id(0.into(), Side::Buy), Some(&order));
    assert_eq!(book.remove_by_id(0.into()), Some(order));
    assert_eq!(book.get_by_id(0.into(), Side::Buy), None);
    assert_eq!(book.remove_by_id(0.into()), None);

    let order = LimitOrder::new(
        Side::Sell,
        QuoteCurrency::<5>::new(100, 0),
        BaseCurrency::new(5, 0),
    )
    .unwrap();
    let meta = ExchangeOrderMeta::new(1.into(), 0.into());
    let order = order.into_pending(meta);
    book.try_insert(order.clone()).unwrap();
    assert_eq!(book.get_by_id(1.into(), Side::Sell), Some(&order));
    assert_eq!(book.remove_by_id(1.into()), Some(order));
    assert_eq!(book.get_by_id(1.into(), Side::Sell), None);
    assert_eq!(book.remove_by_id(1.into()), None);
}

#[test]
fn active_limit_orders_active_limit_orders_remove_by_user_order_id() {
    let mut book = ActiveLimitOrders::<5, BaseCurrency<5>, i32>::with_capacity(10);

    let order = LimitOrder::new_with_user_order_id(
        Side::Buy,
        QuoteCurrency::<5>::new(100, 0),
        BaseCurrency::new(5, 0),
        100,
    )
    .unwrap();
    let meta = ExchangeOrderMeta::new(0.into(), 0.into());
    let order = order.into_pending(meta);
    book.try_insert(order.clone()).unwrap();
    assert_eq!(book.remove_by_user_id(100), Some(order));
    assert_eq!(book.remove_by_user_id(100), None);

    let order = LimitOrder::new_with_user_order_id(
        Side::Sell,
        QuoteCurrency::<5>::new(100, 0),
        BaseCurrency::new(5, 0),
        200,
    )
    .unwrap();
    let meta = ExchangeOrderMeta::new(1.into(), 0.into());
    let order = order.into_pending(meta);
    book.try_insert(order.clone()).unwrap();
    assert_eq!(book.remove_by_user_id(200), Some(order));
    assert_eq!(book.remove_by_user_id(200), None);
}

#[test]
fn active_limit_orders_active_limit_orders_get_by_id() {
    let mut book = ActiveLimitOrders::<5, BaseCurrency<5>, NoUserOrderId>::with_capacity(10);
    for i in 0..10u64 {
        assert_eq!(book.get_by_id(i.into(), Side::Buy), None);
    }
    for i in 0..10u64 {
        assert_eq!(book.get_by_id(i.into(), Side::Sell), None);
    }

    let order = LimitOrder::new(
        Side::Buy,
        QuoteCurrency::<5>::new(100, 0),
        BaseCurrency::new(5, 0),
    )
    .unwrap();
    let meta = ExchangeOrderMeta::new(0.into(), 0.into());
    let order = order.into_pending(meta);
    book.try_insert(order.clone()).unwrap();
    assert_eq!(book.get_by_id(0.into(), Side::Buy).unwrap(), &order);
    for i in 1..10u64 {
        assert_eq!(book.get_by_id(i.into(), Side::Buy), None);
    }

    let order = LimitOrder::new(
        Side::Sell,
        QuoteCurrency::<5>::new(100, 0),
        BaseCurrency::new(5, 0),
    )
    .unwrap();
    let meta = ExchangeOrderMeta::new(0.into(), 0.into());
    let order = order.into_pending(meta);
    book.try_insert(order.clone()).unwrap();
    assert_eq!(book.get_by_id(0.into(), Side::Sell).unwrap(), &order);
    for i in 1..10u64 {
        assert!(book.get_by_id(i.into(), Side::Buy).is_none());
    }
}

#[test]
fn active_limit_orders_order_margin_assert_limit_order_reduces_qty() {
    let new_active_order = LimitOrder::new(
        Side::Buy,
        QuoteCurrency::<5>::new(100, 0),
        BaseCurrency::new(5, 0),
    )
    .unwrap();
    let meta = ExchangeOrderMeta::new(0.into(), 1.into());
    let active_order = new_active_order.into_pending(meta);

    let mut updated_order = active_order.clone();
    updated_order.fill(BaseCurrency::new(1, 0));

    assert!(updated_order.remaining_quantity() < active_order.remaining_quantity());
}

#[test]
fn active_limit_orders_active_limit_orders_insert() {
    let mut book = ActiveLimitOrders::<5, BaseCurrency<5>, NoUserOrderId>::with_capacity(10);
    let order = LimitOrder::new(
        Side::Buy,
        QuoteCurrency::<5>::new(100, 0),
        BaseCurrency::new(5, 0),
    )
    .unwrap();
    let meta = ExchangeOrderMeta::new(0.into(), 0.into());
    let order = order.into_pending(meta);
    book.try_insert(order.clone()).unwrap();

    assert_eq!(book.num_active(), 1);
    let removed = book.remove_by_id(0.into()).unwrap();
    assert_eq!(removed, order);
    assert!(book.is_empty());

    let order_1 = LimitOrder::new(
        Side::Buy,
        QuoteCurrency::<5>::new(200, 0),
        BaseCurrency::new(1, 0),
    )
    .unwrap();
    let meta = ExchangeOrderMeta::new(1.into(), 1.into());
    let order_1 = order_1.into_pending(meta);
    book.try_insert(order_1.clone()).unwrap();
    assert_eq!(book.num_active(), 1);
    let removed = book.remove_by_id(1.into()).unwrap();
    assert_eq!(removed, order_1);
    assert!(book.is_empty());

    let buy_prices: [i64; 5] = [317, 104, 499, 250, 100];
    for i in 2..7u64 {
        let order = LimitOrder::new(
            Side::Buy,
            QuoteCurrency::<5>::new(buy_prices[(i - 2) as usize], 0),
            BaseCurrency::new(1, 0),
        )
        .unwrap();
        let meta = ExchangeOrderMeta::new(i.into(), (i as i64).into());
        let order = order.into_pending(meta);
        book.try_insert(order.clone()).unwrap();
    }
    assert_eq!(book.num_active(), 5);

    let sell_prices: [i64; 5] = [412, 100, 233, 499, 161];
    for i in 0..5u64 {
        let order = LimitOrder::new(
            Side::Sell,
            QuoteCurrency::<5>::new(sell_prices[i as usize], 0),
            BaseCurrency::new(1, 0),
        )
        .unwrap();
        let meta = ExchangeOrderMeta::new(i.into(), (i as i64).into());
        let order = order.into_pending(meta);
        book.try_insert(order.clone()).unwrap();
    }
    assert_eq!(book.num_active(), 10);
}

#[test]
fn active_limit_orders_order_margin_no_position() {
    let position = Position::<4, BaseCurrency<4>>::default();
    let init_margin_req = Decimal::<4>::one();
    let mut book = ActiveLimitOrders::<4, BaseCurrency<4>, NoUserOrderId>::with_capacity(10);

    assert_eq!(
        book.order_margin(init_margin_req, &position),
        QuoteCurrency::new(0, 0)
    );

    let qty = BaseCurrency::<4>::new(1, 0);
    let limit_price = QuoteCurrency::new(90, 0);
    let order = LimitOrder::new(Side::Buy, limit_price, qty).unwrap();
    let meta = ExchangeOrderMeta::new(0.into(), 0.into());
    let order = order.into_pending(meta);

    book.try_insert(order).unwrap();
    assert_eq!(book.asks().len(), 0);
    assert_eq!(
        book.order_margin(init_margin_req, &position),
        QuoteCurrency::new(90, 0)
    );

    let limit_price = QuoteCurrency::new(100, 0);
    let order = LimitOrder::new(Side::Sell, limit_price, qty).unwrap();
    let meta = ExchangeOrderMeta::new(1.into(), 0.into());
    let order = order.into_pending(meta);
    book.try_insert(order).unwrap();
    assert_eq!(book.bids().len(), 1);
    assert_eq!(book.asks().len(), 1);
    let om = QuoteCurrency::new(100, 0);
    assert_eq!(book.order_margin(init_margin_req, &position), om);

    let limit_price = QuoteCurrency::new(120, 0);
    let qty = BaseCurrency::new(1, 0);
    let order = LimitOrder::new(Side::Sell, limit_price, qty).unwrap();
    let meta = ExchangeOrderMeta::new(2.into(), 0.into());
    let order = order.into_pending(meta);
    book.try_insert(order).unwrap();
    assert_eq!(book.bids().len(), 1);
    assert_eq!(book.asks().len(), 2);
    let om = QuoteCurrency::new(220, 0);
    assert_eq!(book.order_margin(init_margin_req, &position), om);
}

#[test]
fn active_limit_orders_order_margin_with_long() {
    let mut book = ActiveLimitOrders::<5, BaseCurrency<5>, NoUserOrderId>::with_capacity(10);

    let qty = BaseCurrency::<5>::new(1, 0);
    let entry_price = QuoteCurrency::new(100, 0);

    let position = Position::new(qty, entry_price).unwrap();
    let init_margin_req = Decimal::<5>::one();

    assert_eq!(
        book.order_margin(init_margin_req, &position),
        QuoteCurrency::new(0, 0)
    );

    let limit_price = QuoteCurrency::new(90, 0);
    let order = LimitOrder::new(Side::Buy, limit_price, qty).unwrap();
    let meta = ExchangeOrderMeta::new(0.into(), 0.into());
    let order = order.into_pending(meta);
    book.try_insert(order).unwrap();
    let om = QuoteCurrency::new(90, 0);
    assert_eq!(book.order_margin(init_margin_req, &position), om);

    let limit_price = QuoteCurrency::new(100, 0);
    let order = LimitOrder::new(Side::Sell, limit_price, qty).unwrap();
    let meta = ExchangeOrderMeta::new(1.into(), 0.into());
    let order = order.into_pending(meta);
    book.try_insert(order).unwrap();
    let om = QuoteCurrency::new(90, 0);
    assert_eq!(book.order_margin(init_margin_req, &position), om,);

    let limit_price = QuoteCurrency::new(120, 0);
    let order = LimitOrder::new(Side::Sell, limit_price, qty).unwrap();
    let meta = ExchangeOrderMeta::new(2.into(), 0.into());
    let order = order.into_pending(meta);
    book.try_insert(order).unwrap();
    let om = QuoteCurrency::new(120, 0);
    assert_eq!(book.order_margin(init_margin_req, &position), om);

    let limit_price = QuoteCurrency::new(95, 0);
    let order = LimitOrder::new(Side::Buy, limit_price, qty).unwrap();
    let meta = ExchangeOrderMeta::new(3.into(), 0.into());
    let order = order.into_pending(meta);
    book.try_insert(order).unwrap();
    let om = QuoteCurrency::new(185, 0);
    assert_eq!(book.order_margin(init_margin_req, &position), om);
}

#[test]
fn active_limit_orders_order_margin_with_short() {
    let mut book = ActiveLimitOrders::<5, BaseCurrency<5>, NoUserOrderId>::with_capacity(10);

    let qty = BaseCurrency::<5>::new(1, 0);
    let entry_price = QuoteCurrency::new(100, 0);

    let position = Position::new(BaseCurrency::<5>::new(-1, 0), entry_price).unwrap();
    let init_margin_req = Decimal::<5>::one();

    assert_eq!(
        book.order_margin(init_margin_req, &position),
        QuoteCurrency::new(0, 0)
    );

    let limit_price = QuoteCurrency::new(90, 0);
    let order = LimitOrder::new(Side::Buy, limit_price, qty).unwrap();
    let meta = ExchangeOrderMeta::new(0.into(), 0.into());
    let order = order.into_pending(meta);
    book.try_insert(order).unwrap();
    assert_eq!(
        book.order_margin(init_margin_req, &position),
        QuoteCurrency::new(0, 0)
    );

    let limit_price = QuoteCurrency::new(100, 0);
    let order = LimitOrder::new(Side::Sell, limit_price, qty).unwrap();
    let meta = ExchangeOrderMeta::new(1.into(), 0.into());
    let order = order.into_pending(meta);
    book.try_insert(order).unwrap();
    let om = QuoteCurrency::new(100, 0);
    assert_eq!(book.order_margin(init_margin_req, &position), om);

    let limit_price = QuoteCurrency::new(120, 0);
    let order = LimitOrder::new(Side::Sell, limit_price, qty).unwrap();
    let meta = ExchangeOrderMeta::new(2.into(), 0.into());
    let order = order.into_pending(meta);
    book.try_insert(order).unwrap();
    let om = QuoteCurrency::new(220, 0);
    assert_eq!(book.order_margin(init_margin_req, &position), om);

    let limit_price = QuoteCurrency::new(95, 0);
    let order = LimitOrder::new(Side::Buy, limit_price, qty).unwrap();
    let meta = ExchangeOrderMeta::new(3.into(), 0.into());
    let order = order.into_pending(meta);
    book.try_insert(order).unwrap();
    let om = QuoteCurrency::new(220, 0);
    assert_eq!(book.order_margin(init_margin_req, &position), om);
}
