//! The kind of contract that a ticker symbol denotes.

use vstd::prelude::*;
use vstd::string::StringSliceAdditionalSpecFns;
use vstd::utf8::is_char_boundary;

verus! {

/// Whether a contract expires.
#[derive(Debug, Clone, Copy, PartialEq, Eq, Structural)]
pub enum ContractType {
    Perpetual,
    Future,
}

/// Whether `b` is the letter of a quarterly expiry month (H, M, U or Z), in either case.
pub open spec fn is_expiry_month_code(b: u8) -> bool {
    b == 0x48u8 || b == 0x4du8 || b == 0x55u8 || b == 0x5au8 || b == 0x68u8 || b == 0x6du8
        || b == 0x75u8 || b == 0x7au8
}

/// The contract type of a symbol, given as its UTF-8 bytes: a symbol ending in `USD` is a
/// perpetual, one whose third last letter is an expiry month code is a future, and any
/// other symbol is a perpetual.
pub open spec fn contract_type_of(bytes: Seq<u8>) -> ContractType {
    let n = bytes.len() as int;
    if bytes.subrange(n - 3, n) == seq![0x55u8, 0x53u8, 0x44u8] {
        ContractType::Perpetual
    } else if is_expiry_month_code(bytes[n - 3]) {
        ContractType::Future
    } else {
        ContractType::Perpetual
    }
}

impl ContractType {
    /// Returns the contract type of a given symbol: e.g: XBTUSD -> Perpetual, XBTM20 -> Future.
    ///
    /// The symbol has at least three bytes, and its last three bytes are single characters.
    pub fn parse(symbol: &str) -> (r: Self)
        requires
            symbol.spec_bytes().len() >= 3,
            is_char_boundary(symbol.spec_bytes(), symbol.spec_bytes().len() - 3),
            is_char_boundary(symbol.spec_bytes(), symbol.spec_bytes().len() - 2),
        ensures
            r == contract_type_of(symbol.spec_bytes()),
    {
        let bytes = symbol.as_bytes();
        let n = bytes.len();
        let a = bytes[n - 3];
        let b = bytes[n - 2];
        let c = bytes[n - 1];
        let ghost tail = bytes@.subrange(n - 3, n as int);
        if a == 0x55u8 && b == 0x53u8 && c == 0x44u8 {
            assert(tail =~= seq![0x55u8, 0x53u8, 0x44u8]);
            return ContractType::Perpetual;
        }
        assert(tail[0] == a && tail[1] == b && tail[2] == c);
        if a == 0x48u8 || a == 0x4du8 || a == 0x55u8 || a == 0x5au8 || a == 0x68u8 || a == 0x6du8
            || a == 0x75u8 || a == 0x7au8 {
            ContractType::Future
        } else {
            ContractType::Perpetual
        }
    }
}

} // verus!
