//! Trades of the market, as they are read from the records of a trade file:
//! a timestamp in milliseconds, a price and a signed size per record.

use vstd::prelude::*;

use crate::currency::{Decimal, Monetary, QuoteCurrency};
use crate::decimal::{in_i64, scale, MAX_DECIMALS};
use crate::types::{Side, TimestampNs};

verus! {

/// A trade of the market.
#[derive(Debug, Clone, Copy, PartialEq, Eq)]
pub struct Trade<const D: u8> {
    /// The price at which the trade happened.
    pub price: QuoteCurrency<D>,
    /// The signed quantity of the trade: negative for a sell.
    pub quantity: QuoteCurrency<D>,
    /// The side of the taker of the trade.
    pub side: Side,
    /// The time of the trade at the exchange in nanoseconds.
    pub timestamp_exchange_ns: TimestampNs,
}

/// Nanoseconds per millisecond.
pub const NANOS_PER_MILLI: i64 = 1_000_000;

/// Whether every character is an ASCII digit.
pub open spec fn all_digits(s: Seq<char>) -> bool {
    forall|i: int| 0 <= i < s.len() ==> '0' <= #[trigger] s[i] <= '9'
}

/// The value of a text of ASCII decimal digits.
pub open spec fn digits_value(s: Seq<char>) -> int
    decreases s.len(),
{
    if s.len() == 0 {
        0
    } else {
        digits_value(s.drop_last()) * 10 + (s.last() as int - '0' as int)
    }
}

/// The `i64` that `str::parse::<i64>` reads from a text: an optional `+` or `-` followed by
/// at least one ASCII digit, whose value fits an `i64`; `None` for any other text.
pub open spec fn spec_parse_i64(s: Seq<char>) -> Option<i64> {
    let negative = s.len() > 0 && s[0] == '-';
    let body = if s.len() > 0 && (s[0] == '-' || s[0] == '+') {
        s.drop_first()
    } else {
        s
    };
    let value = if negative {
        -digits_value(body)
    } else {
        digits_value(body)
    };
    if body.len() == 0 || !all_digits(body) || !in_i64(value) {
        None
    } else {
        Some(value as i64)
    }
}

/// `str::parse::<i64>`: the integer of a text of an optional sign and decimal digits.
#[verifier::external_body]
fn parse_i64(s: &str) -> (r: Option<i64>)
    ensures
        r == spec_parse_i64(s@),
{
    s.parse::<i64>().ok()
}

/// The first position of `c` in `s`, if any.
pub open spec fn first_index_of(s: Seq<char>, c: char) -> Option<int>
    decreases s.len(),
{
    if s.len() == 0 {
        None
    } else if s[0] == c {
        Some(0)
    } else {
        match first_index_of(s.drop_first(), c) {
            Some(i) => Some(i + 1),
            None => None,
        }
    }
}

/// The mantissa with `d` fractional digits that `const_decimal` parses from a text: one
/// leading `-` is set aside; without a `.` the whole text is read as an integer and scaled;
/// otherwise the parts before and after the first `.` are read as integers, the fraction
/// may have at most `d` characters and is scaled up to `d` digits, and the set-aside sign
/// negates the sum (wrapping). `None` where a part does not parse or a value leaves `i64`.
pub open spec fn spec_parse_decimal(d: u8, s: Seq<char>) -> Option<i64> {
    let unsigned = if s.len() > 0 && s[0] == '-' {
        s.drop_first()
    } else {
        s
    };
    if s.len() == 0 {
        None
    } else {
        match first_index_of(unsigned, '.') {
            None => match spec_parse_i64(s) {
                Some(integer) => if in_i64(integer * scale(d)) {
                    Some((integer * scale(d)) as i64)
                } else {
                    None
                },
                None => None,
            },
            Some(p) => {
                let fractional_s = unsigned.subrange(p + 1, unsigned.len() as int);
                match (spec_parse_i64(unsigned.subrange(0, p)), spec_parse_i64(fractional_s)) {
                    (Some(integer), Some(fractional)) => {
                        let value = integer * scale(d) + fractional * scale(
                            (d - fractional_s.len()) as u8,
                        );
                        if !in_i64(integer * scale(d)) || fractional_s.len() > d || !in_i64(value) {
                            None
                        } else if unsigned.len() == s.len() {
                            Some(value as i64)
                        } else if value == i64::MIN {
                            Some(i64::MIN)
                        } else {
                            Some((-value) as i64)
                        }
                    },
                    _ => None,
                }
            },
        }
    }
}

/// `const_decimal`'s `FromStr` for decimals with `D` fractional digits: its mantissa, or
/// `None` where it reports an error.
#[verifier::external_body]
fn parse_decimal<const D: u8>(s: &str) -> (r: Option<i64>)
    requires
        D <= MAX_DECIMALS,
    ensures
        r == spec_parse_decimal(D, s@),
{
    match s.parse::<const_decimal::Decimal<i64, D>>() {
        Ok(d) => Some(d.0),
        Err(_) => None,
    }
}

/// The side of the taker of a trade of the signed `quantity`.
pub open spec fn side_of_size(quantity: int) -> Side {
    if quantity < 0 {
        Side::Sell
    } else {
        Side::Buy
    }
}

/// Whether `t` is the trade at `ts_ms` milliseconds of the signed `quantity` at `price`
/// (mantissas).
pub open spec fn is_trade_of<const D: u8>(t: Trade<D>, ts_ms: int, price: int, quantity: int) -> bool {
    &&& t.price.raw() == price
    &&& t.quantity.raw() == quantity
    &&& t.side == side_of_size(quantity)
    &&& t.timestamp_exchange_ns.0 == ts_ms * NANOS_PER_MILLI
}

/// The trade at `ts_ms` milliseconds of the signed `quantity` at `price`: a negative
/// quantity is a sell, any other a buy.
pub fn trade_from_parts<const D: u8>(ts_ms: i64, price: Decimal<D>, quantity: Decimal<D>) -> (r:
    Trade<D>)
    requires
        in_i64(ts_ms * NANOS_PER_MILLI),
    ensures
        is_trade_of(r, ts_ms as int, price.raw(), quantity.raw()),
{
    let side = if quantity.mantissa() < 0 {
        Side::Sell
    } else {
        Side::Buy
    };
    Trade {
        price: QuoteCurrency::from_mantissa(price.mantissa()),
        quantity: QuoteCurrency::from_mantissa(quantity.mantissa()),
        side,
        timestamp_exchange_ns: TimestampNs(ts_ms * NANOS_PER_MILLI),
    }
}

/// The trade of a record of texts, if the timestamp parses as milliseconds whose
/// nanoseconds fit an `i64` and the price and size parse as decimals.
pub fn trade_from_record<const D: u8>(timestamp: &str, price: &str, size: &str) -> (r: Option<
    Trade<D>,
>)
    requires
        D <= MAX_DECIMALS,
    ensures
        r is Some <==> {
            &&& spec_parse_i64(timestamp@) is Some
            &&& in_i64(spec_parse_i64(timestamp@)->0 * NANOS_PER_MILLI)
            &&& spec_parse_decimal(D, price@) is Some
            &&& spec_parse_decimal(D, size@) is Some
        },
        r is Some ==> is_trade_of(
            r->0,
            spec_parse_i64(timestamp@)->0 as int,
            spec_parse_decimal(D, price@)->0 as int,
            spec_parse_decimal(D, size@)->0 as int,
        ),
{
    let ts_ms = match parse_i64(timestamp) {
        Some(v) => v,
        None => return None,
    };
    if ts_ms < i64::MIN / NANOS_PER_MILLI || ts_ms > i64::MAX / NANOS_PER_MILLI {
        return None;
    }
    let p = match parse_decimal::<D>(price) {
        Some(v) => v,
        None => return None,
    };
    let q = match parse_decimal::<D>(size) {
        Some(v) => v,
        None => return None,
    };
    Some(trade_from_parts(ts_ms, Decimal::from_mantissa(p), Decimal::from_mantissa(q)))
}

} // verus!
