use lfest::currency::{BaseCurrency, Decimal, QuoteCurrency};
use lfest::utils::margin_for_position;

#[test]
fn margin_for_position_divides_the_notional_by_the_leverage() {
    assert_eq!(
        margin_for_position(BaseCurrency::<4>::new(2, 0), QuoteCurrency::new(100, 0), Decimal::new(4, 0)),
        QuoteCurrency::new(50, 0)
    );
    assert_eq!(
        margin_for_position(BaseCurrency::<4>::new(-2, 0), QuoteCurrency::new(100, 0), Decimal::new(4, 0)),
        QuoteCurrency::new(50, 0)
    );
    assert_eq!(
        margin_for_position(QuoteCurrency::<4>::new(100, 0), QuoteCurrency::new(400, 0), Decimal::new(2, 0)),
        BaseCurrency::new(1250, 4)
    );
}
