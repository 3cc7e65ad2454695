use lfest::account::bids_asks::{Asks, Bids};
use lfest::account::sorted_orders::SortedOrders;
use lfest::currency::{BaseCurrency, QuoteCurrency};
use lfest::types::{ExchangeOrderMeta, LimitOrder, NoUserOrderId, Side};

#[test]
fn sorted_orders_clone() {
    let mut bids = SortedOrders::<6, BaseCurrency<6>, NoUserOrderId, Bids>::with_capacity(3);
    let order_0 = LimitOrder::new(
        Side::Buy,
        QuoteCurrency::new(100, 0),
        BaseCurrency::new(1, 0),
    )
    .unwrap();
    let meta = ExchangeOrderMeta::new(0.into(), 0.into());
    let pending_0 = order_0.into_pending(meta);
    bids.try_insert(pending_0.clone()).unwrap();

    let bids_clone = bids.clone();
    assert_eq!(bids.orders(), bids_clone.orders());
    assert_eq!(bids.notional_sum(), bids_clone.notional_sum());
    assert_eq!(bids.orders().capacity(), bids_clone.orders().capacity());
}

#[test]
fn sorted_orders_remove() {
    let cap = 10;
    let mut bids = SortedOrders::<6, BaseCurrency<6>, NoUserOrderId, Bids>::with_capacity(cap);
    for i in 0..cap {
        let order_0 = LimitOrder::new(
            Side::Buy,
            QuoteCurrency::new(100, 0),
            BaseCurrency::new(1, 0),
        )
        .unwrap();
        let meta = ExchangeOrderMeta::new((i as u64).into(), (i as i64).into());
        let pending_0 = order_0.into_pending(meta);
        bids.try_insert(pending_0.clone()).unwrap();
        assert_eq!(
            bids.notional_sum(),
            QuoteCurrency::new(100 * (i as i64 + 1), 0)
        );
    }
    assert_eq!(bids.notional_sum(), QuoteCurrency::new(100 * cap as i64, 0));

    for i in 0..cap {
        let i = i as u64;
        assert_eq!(bids.remove_by_id(i.into()).unwrap().id(), i.into());
        assert!(bids.remove_by_id(i.into()).is_none());
        assert_eq!(
            bids.notional_sum(),
            QuoteCurrency::new((100 * cap as i64) - 100 * (i as i64 + 1), 0)
        );
    }
    assert!(bids.is_empty());
}

#[test]
fn sorted_orders_bids() {
    let mut bids = SortedOrders::<6, BaseCurrency<6>, NoUserOrderId, Bids>::with_capacity(3);
    assert_eq!(bids.notional_sum(), QuoteCurrency::new(0, 0));
    assert_eq!(bids.orders().len(), 0);
    assert_eq!(bids.len(), 0);
    assert!(bids.is_empty());
    assert_eq!(bids.best(), None);

    let order_0 = LimitOrder::new(
        Side::Buy,
        QuoteCurrency::new(100, 0),
        BaseCurrency::new(1, 0),
    )
    .unwrap();
    let meta = ExchangeOrderMeta::new(0.into(), 0.into());
    let pending_0 = order_0.into_pending(meta);
    bids.try_insert(pending_0.clone()).unwrap();
    assert_eq!(bids.notional_sum(), QuoteCurrency::new(100, 0));
    assert_eq!(bids.orders().len(), 1);
    assert_eq!(bids.len(), 1);
    assert!(!bids.is_empty());
    assert_eq!(bids.best(), Some(&pending_0));

    let order_1 = LimitOrder::new(
        Side::Buy,
        QuoteCurrency::new(99, 0),
        BaseCurrency::new(1, 0),
    )
    .unwrap();
    let meta = ExchangeOrderMeta::new(1.into(), 1.into());
    let pending_1 = order_1.into_pending(meta);
    bids.try_insert(pending_1.clone()).unwrap();
    assert_eq!(bids.notional_sum(), QuoteCurrency::new(199, 0));
    assert_eq!(bids.orders().len(), 2);
    assert_eq!(bids.len(), 2);
    assert!(!bids.is_empty());
    assert_eq!(bids.best(), Some(&pending_0));

    let order_2 = LimitOrder::new(
        Side::Buy,
        QuoteCurrency::new(101, 0),
        BaseCurrency::new(1, 0),
    )
    .unwrap();
    let meta = ExchangeOrderMeta::new(2.into(), 2.into());
    let pending_2 = order_2.into_pending(meta);
    bids.try_insert(pending_2.clone()).unwrap();
    assert_eq!(bids.notional_sum(), QuoteCurrency::new(300, 0));
    assert_eq!(bids.orders().len(), 3);
    assert_eq!(bids.len(), 3);
    assert!(!bids.is_empty());
    assert_eq!(bids.best(), Some(&pending_2));

    assert_eq!(
        bids.fill_best(BaseCurrency::new(1, 0), 3.into())
            .unwrap()
            .id(),
        2.into()
    );
    assert_eq!(bids.notional_sum(), QuoteCurrency::new(199, 0));
    assert_eq!(bids.orders().len(), 2);
    assert_eq!(bids.len(), 2);

    let order_3 = LimitOrder::new(
        Side::Buy,
        QuoteCurrency::new(100, 0),
        BaseCurrency::new(1, 0),
    )
    .unwrap();
    let meta = ExchangeOrderMeta::new(3.into(), 3.into());
    let pending_3 = order_3.into_pending(meta);
    bids.try_insert(pending_3.clone()).unwrap();
    assert_eq!(bids.notional_sum(), QuoteCurrency::new(299, 0));
    assert_eq!(bids.orders().len(), 3);
    assert_eq!(bids.len(), 3);
    assert!(!bids.is_empty());
    assert_eq!(
        bids.best(),
        Some(&pending_0),
        "order_2 has the same price, but an earlier timestamp."
    );

    assert!(bids.try_insert(pending_3).is_err());
}

#[test]
fn sorted_orders_asks() {
    let mut asks = SortedOrders::<6, BaseCurrency<6>, NoUserOrderId, Asks>::with_capacity(3);
    assert_eq!(asks.notional_sum(), QuoteCurrency::new(0, 0));
    assert_eq!(asks.orders().len(), 0);
    assert_eq!(asks.len(), 0);
    assert!(asks.is_empty());
    assert_eq!(asks.best(), None);

    let order_0 = LimitOrder::new(
        Side::Sell,
        QuoteCurrency::new(100, 0),
        BaseCurrency::new(1, 0),
    )
    .unwrap();
    let meta = ExchangeOrderMeta::new(0.into(), 0.into());
    let pending_0 = order_0.into_pending(meta);
    asks.try_insert(pending_0.clone()).unwrap();
    assert_eq!(asks.notional_sum(), QuoteCurrency::new(100, 0));
    assert_eq!(asks.orders().len(), 1);
    assert_eq!(asks.len(), 1);
    assert!(!asks.is_empty());
    assert_eq!(asks.best(), Some(&pending_0));

    let order_1 = LimitOrder::new(
        Side::Sell,
        QuoteCurrency::new(101, 0),
        BaseCurrency::new(1, 0),
    )
    .unwrap();
    let meta = ExchangeOrderMeta::new(1.into(), 1.into());
    let pending_1 = order_1.into_pending(meta);
    asks.try_insert(pending_1.clone()).unwrap();
    assert_eq!(asks.notional_sum(), QuoteCurrency::new(201, 0));
    assert_eq!(asks.orders().len(), 2);
    assert_eq!(asks.len(), 2);
    assert!(!asks.is_empty());
    assert_eq!(asks.best(), Some(&pending_0));

    let order_2 = LimitOrder::new(
        Side::Sell,
        QuoteCurrency::new(99, 0),
        BaseCurrency::new(1, 0),
    )
    .unwrap();
    let meta = ExchangeOrderMeta::new(2.into(), 2.into());
    let pending_2 = order_2.into_pending(meta);
    asks.try_insert(pending_2.clone()).unwrap();
    assert_eq!(asks.notional_sum(), QuoteCurrency::new(300, 0));
    assert_eq!(asks.orders().len(), 3);
    assert_eq!(asks.len(), 3);
    assert!(!asks.is_empty());
    assert_eq!(asks.best(), Some(&pending_2));

    assert_eq!(
        asks.fill_best(BaseCurrency::new(1, 0), 3.into())
            .unwrap()
            .id(),
        2.into()
    );
    assert_eq!(asks.notional_sum(), QuoteCurrency::new(201, 0));
    assert_eq!(asks.orders().len(), 2);
    assert_eq!(asks.len(), 2);

    let order_3 = LimitOrder::new(
        Side::Sell,
        QuoteCurrency::new(100, 0),
        BaseCurrency::new(1, 0),
    )
    .unwrap();
    let meta = ExchangeOrderMeta::new(3.into(), 3.into());
    let pending_3 = order_3.into_pending(meta);
    asks.try_insert(pending_3.clone()).unwrap();
    assert_eq!(asks.notional_sum(), QuoteCurrency::new(301, 0));
    assert_eq!(asks.orders().len(), 3);
    assert_eq!(asks.len(), 3);
    assert!(!asks.is_empty());
    assert_eq!(asks.best(), Some(&pending_0));
}
