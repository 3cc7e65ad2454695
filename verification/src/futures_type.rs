//! The payout kinds of futures contracts.

use vstd::prelude::*;
use vstd::string::StringExecFns;

use crate::errors::Error;

verus! {

/// Enumeration of different futures types
#[derive(Debug, Clone, Copy, PartialEq, Eq, Structural)]
pub enum FuturesTypes {
    /// Linear futures with a linear payout
    /// profit and loss calculation: position_size * (exit_price - entry_price)
    Linear,
    /// Inverse futures allow the user to hold the collateral in BASE currency and speculating
    /// on price moves denoted in QUOTE currency.
    /// Example would be Bitmex XBTUSD inverse perpetual futures.
    /// profit and loss calculation: position_size * (1.0 / entry_price - 1.0 / exit_price)
    Inverse,
}

/// The Unicode lowercase form of a text, as `str::to_lowercase` computes it.
pub uninterp spec fn lowercase(s: Seq<char>) -> Seq<char>;

/// `str::to_lowercase`: its result is `lowercase` of the text; nothing more of it is stated here.
#[verifier::external_body]
fn to_lowercase(s: &str) -> (r: String)
    ensures
        r@ == lowercase(s@),
{
    s.to_lowercase()
}

/// The futures type named by a lowercase text: `linear` or `inverse`.
pub open spec fn futures_type_of(lower: Seq<char>) -> Result<FuturesTypes, Error> {
    if lower == "linear"@ {
        Ok(FuturesTypes::Linear)
    } else if lower == "inverse"@ {
        Ok(FuturesTypes::Inverse)
    } else {
        Err(Error::ParseError)
    }
}

impl Default for FuturesTypes {
    fn default() -> (r: Self)
        ensures
            r == FuturesTypes::Linear,
    {
        FuturesTypes::Linear
    }
}

impl FuturesTypes {
    /// Parse the FuturesType from a string, in any case.
    pub fn from_str(s: &str) -> (r: Result<Self, Error>)
        ensures
            r == futures_type_of(lowercase(s@)),
    {
        let lower = to_lowercase(s);
        Self::from_lowercase(lower.as_str())
    }

    /// The futures type named by a text that is already in lowercase.
    pub fn from_lowercase(lower: &str) -> (r: Result<Self, Error>)
        ensures
            r == futures_type_of(lower@),
    {
        let text = String::from_str(lower);
        if text == String::from_str("linear") {
            Ok(FuturesTypes::Linear)
        } else if text == String::from_str("inverse") {
            Ok(FuturesTypes::Inverse)
        } else {
            Err(Error::ParseError)
        }
    }

    /// The name of the futures type, as `Linear` or `Inverse`.
    pub fn to_string(&self) -> (r: String)
        ensures
            r@ == match self {
                FuturesTypes::Linear => "Linear"@,
                FuturesTypes::Inverse => "Inverse"@,
            },
    {
        match self {
            FuturesTypes::Linear => String::from_str("Linear"),
            FuturesTypes::Inverse => String::from_str("Inverse"),
        }
    }
}

} // verus!
