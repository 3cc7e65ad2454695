use lfest::account::balances::Balances;
use lfest::account::position::Position;
use lfest::currency::{BaseCurrency, QuoteCurrency};
use lfest::types::Side;

#[test]
fn size_of_balances() {
    assert_eq!(std::mem::size_of::<Balances<5, BaseCurrency<5>>>(), 24);
}

#[test]
fn bankrupting_loss_is_recorded_as_bad_debt() {
    let mut balances = Balances::new(QuoteCurrency::<5>::new(100, 0));
    balances.apply_pnl(QuoteCurrency::new(-150, 0));
    assert_eq!(balances.equity(), QuoteCurrency::new(0, 0));
    assert_eq!(balances.bad_debt(), QuoteCurrency::new(50, 0));

    let mut balances = Balances::new(QuoteCurrency::<5>::new(100, 0));
    balances.account_for_fee(QuoteCurrency::new(101, 0));
    assert_eq!(balances.equity(), QuoteCurrency::new(0, 0));
    assert_eq!(balances.bad_debt(), QuoteCurrency::new(1, 0));
    assert_eq!(balances.total_fees_paid(), QuoteCurrency::new(101, 0));
}

#[test]
fn balances_display() {
    let balances = Balances::from_parts(
        QuoteCurrency::<5>::new(1000, 0),
        QuoteCurrency::new(5, 0),
        QuoteCurrency::new(0, 0),
    );
    assert_eq!(
        balances.to_string(),
        "equity: 1000.00000 Quote, total_fees_paid: 5.00000 Quote, bad_debt: 0.00000 Quote"
    );
}

#[test]
fn position_display() {
    let pos = Position::new(
        BaseCurrency::<5>::new(-317, 3),
        QuoteCurrency::new(958423665, 5),
    )
    .unwrap();
    assert_eq!(&pos.to_string(), "Short 0.31700 Base @ 9584.23665 Quote");
}

#[test]
fn position_change_position() {
    let qty = BaseCurrency::<5>::new(317, 3);
    let entry_price = QuoteCurrency::new(9584_23, 2);

    let mut balances = Balances::new(QuoteCurrency::new(10000, 0));

    let mut pos = Position::new(BaseCurrency::new(-317, 3), entry_price).unwrap();

    let exit_price = QuoteCurrency::new(30204_27, 2);
    pos.change(qty, exit_price, Side::Buy, &mut balances);
    assert_eq!(pos, Position::default());
    assert_eq!(
        balances,
        Balances::from_parts(
            QuoteCurrency::new(10_000_00000 - 6536_55268, 5),
            QuoteCurrency::new(0, 0),
            QuoteCurrency::new(0, 0),
        )
    );
}

#[test]
fn position_change_position_2() {
    let mut pos = Position::new(
        BaseCurrency::<5>::new(16800, 5),
        QuoteCurrency::new(5949354994, 5),
    )
    .unwrap();
    let filled_qty = BaseCurrency::new(16800, 5);
    let fill_price = QuoteCurrency::new(6001260000, 5);
    let mut balances = Balances::new(QuoteCurrency::new(1000, 0));
    pos.change(filled_qty, fill_price, Side::Sell, &mut balances);
}

#[test]
fn size_of_position() {
    assert_eq!(std::mem::size_of::<Position<5, BaseCurrency<5>>>(), 16);
}

#[test]
fn position_open_and_close_at_the_same_price_realizes_nothing() {
    let mut balances = Balances::new(QuoteCurrency::<5>::new(1000, 0));
    let mut pos = Position::<5, BaseCurrency<5>>::default();
    pos.change(BaseCurrency::new(3, 0), QuoteCurrency::new(250, 0), Side::Sell, &mut balances);
    assert_eq!(pos.quantity(), BaseCurrency::new(-3, 0));
    assert_eq!(pos.entry_price(), QuoteCurrency::new(250, 0));
    pos.change(BaseCurrency::new(3, 0), QuoteCurrency::new(250, 0), Side::Buy, &mut balances);
    assert_eq!(pos, Position::default());
    assert_eq!(balances, Balances::new(QuoteCurrency::new(1000, 0)));
}

#[test]
fn position_adding_averages_the_entry_price() {
    let mut balances = Balances::new(QuoteCurrency::<5>::new(1000, 0));
    let mut pos = Position::new(BaseCurrency::<5>::new(1, 0), QuoteCurrency::new(100, 0)).unwrap();
    pos.change(BaseCurrency::new(3, 0), QuoteCurrency::new(200, 0), Side::Buy, &mut balances);
    assert_eq!(pos.quantity(), BaseCurrency::new(4, 0));
    assert_eq!(pos.entry_price(), QuoteCurrency::new(175, 0));
    assert_eq!(pos.notional(), QuoteCurrency::new(700, 0));
    assert_eq!(pos.unrealized_pnl(QuoteCurrency::new(180, 0), QuoteCurrency::new(181, 0)), QuoteCurrency::new(20, 0));
    assert_eq!(balances.equity(), QuoteCurrency::new(1000, 0));
    pos.change(BaseCurrency::new(1, 0), QuoteCurrency::new(195, 0), Side::Sell, &mut balances);
    assert_eq!(pos.quantity(), BaseCurrency::new(3, 0));
    assert_eq!(pos.entry_price(), QuoteCurrency::new(175, 0));
    assert_eq!(balances.equity(), QuoteCurrency::new(1020, 0));
}

#[test]
fn balances_apply_to_equity_floors_the_equity_and_books_bad_debt() {
    let mut balances = Balances::<4, QuoteCurrency<4>>::new(QuoteCurrency::new(10, 0));
    balances.apply_to_equity(QuoteCurrency::new(-15, 0));
    assert_eq!(balances.equity(), QuoteCurrency::new(0, 0));
    assert_eq!(balances.bad_debt(), QuoteCurrency::new(5, 0));
    assert_eq!(balances.total_fees_paid(), QuoteCurrency::new(0, 0));
    balances.apply_to_equity(QuoteCurrency::new(3, 0));
    assert_eq!(balances.equity(), QuoteCurrency::new(3, 0));
    assert_eq!(balances.bad_debt(), QuoteCurrency::new(5, 0));
}
