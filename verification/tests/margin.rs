use lfest::currency::QuoteCurrency;
use lfest::errors::Error;
use lfest::margin::Margin;

fn quote(v: i64) -> QuoteCurrency<2> {
    QuoteCurrency::new(v, 0)
}

#[test]
fn margin_new_checks_the_margins_against_the_wallet() {
    assert_eq!(
        Margin::new(quote(100), quote(101), quote(0)).err(),
        Some(Error::InvalidPositionMargin)
    );
    assert_eq!(
        Margin::new(quote(100), quote(10), quote(101)).err(),
        Some(Error::InvalidOrderMargin)
    );
    let m = Margin::new(quote(100), quote(10), quote(20)).unwrap();
    assert_eq!(m.wallet_balance(), quote(100));
    assert_eq!(m.position_margin(), quote(10));
    assert_eq!(m.order_margin(), quote(20));
    assert_eq!(m.available_balance(), quote(70));
}

#[test]
fn margin_lock_and_unlock_order_collateral() {
    let mut m = Margin::new_init(quote(100));
    assert_eq!(m.available_balance(), quote(100));
    assert_eq!(m.lock_as_order_collateral(quote(101)), Err(Error::NotEnoughAvailableBalance));
    assert_eq!(m.order_margin(), quote(0));
    assert_eq!(m.lock_as_order_collateral(quote(40)), Ok(()));
    assert_eq!(m.order_margin(), quote(40));
    assert_eq!(m.available_balance(), quote(60));
    assert_eq!(m.unlock_order_margin(quote(41)), Err(Error::NotEnoughOrderMargin));
    assert_eq!(m.unlock_order_margin(quote(40)), Ok(()));
    assert_eq!(m.order_margin(), quote(0));
    assert_eq!(m.available_balance(), quote(100));
}

#[test]
fn margin_lock_and_free_position_collateral() {
    let mut m = Margin::new_init(quote(100));
    assert_eq!(m.lock_as_order_collateral(quote(30)), Ok(()));
    assert_eq!(
        m.lock_as_position_collateral(quote(71)),
        Err(Error::NotEnoughAvailableBalance)
    );
    assert_eq!(m.lock_as_position_collateral(quote(70)), Ok(()));
    assert_eq!(m.available_balance(), quote(0));
    assert_eq!(m.free_position_margin(quote(71)), Err(Error::NotEnoughOrderMargin));
    assert_eq!(m.free_position_margin(quote(70)), Ok(()));
    assert_eq!(m.position_margin(), quote(0));
    m.clear_order_margin();
    assert_eq!(m.order_margin(), quote(0));
    assert_eq!(m.lock_as_position_collateral(quote(5)), Ok(()));
    m.clear_position_margin();
    assert_eq!(m.position_margin(), quote(0));
    assert_eq!(m.available_balance(), quote(100));
}
