//! The margin information of an account: its wallet balance and the parts of it locked
//! as position and order collateral.

use vstd::prelude::*;

use crate::currency::{diff_of, sum_of, zero_of, Monetary};
use crate::decimal::in_i64;
use crate::errors::Error;

verus! {

/// The mantissas of the three balances of a `Margin`.
pub struct MarginView {
    pub wallet_balance: int,
    pub position_margin: int,
    pub order_margin: int,
}

impl MarginView {
    /// The balance that is neither position nor order collateral.
    pub open spec fn available_balance(self) -> int {
        self.wallet_balance - self.order_margin - self.position_margin
    }

    /// The margin after locking `amount` as order collateral.
    pub open spec fn lock_order(self, amount: int) -> Result<MarginView, Error> {
        if amount > self.available_balance() {
            Err(Error::NotEnoughAvailableBalance)
        } else {
            Ok(MarginView { order_margin: self.order_margin + amount, ..self })
        }
    }

    /// The margin after locking `amount` as position collateral.
    pub open spec fn lock_position(self, amount: int) -> Result<MarginView, Error> {
        if amount > self.available_balance() {
            Err(Error::NotEnoughAvailableBalance)
        } else {
            Ok(MarginView { position_margin: self.position_margin + amount, ..self })
        }
    }

    /// The margin after unlocking `amount` of order collateral.
    pub open spec fn unlock_order(self, amount: int) -> Result<MarginView, Error> {
        if amount > self.order_margin {
            Err(Error::NotEnoughOrderMargin)
        } else {
            Ok(MarginView { order_margin: self.order_margin - amount, ..self })
        }
    }

    /// The margin after freeing `amount` of position collateral.
    pub open spec fn free_position(self, amount: int) -> Result<MarginView, Error> {
        if amount > self.position_margin {
            Err(Error::NotEnoughOrderMargin)
        } else {
            Ok(MarginView { position_margin: self.position_margin - amount, ..self })
        }
    }

    /// Every balance, and the available balance, fits an `i64`.
    pub open spec fn in_range(self) -> bool {
        &&& in_i64(self.wallet_balance)
        &&& in_i64(self.position_margin)
        &&& in_i64(self.order_margin)
        &&& in_i64(self.available_balance())
    }
}

/// Describes the margin information of the account.
#[derive(Debug, Clone, Copy)]
pub struct Margin<const D: u8, M> {
    /// The wallet balance of account
    /// denoted in QUOTE currency when using linear futures
    /// denoted in BASE currency when using inverse futures
    wallet_balance: M,
    /// The position margin of account, same denotation as wallet_balance
    position_margin: M,
    /// The order margin of account, same denotation as wallet_balance
    order_margin: M,
}

impl<const D: u8, M: Monetary<D>> View for Margin<D, M> {
    type V = MarginView;

    closed spec fn view(&self) -> MarginView {
        MarginView {
            wallet_balance: self.wallet_balance.raw(),
            position_margin: self.position_margin.raw(),
            order_margin: self.order_margin.raw(),
        }
    }
}

impl<const D: u8, M: Monetary<D>> Margin<D, M> {
    /// The balances fit an `i64`.
    pub proof fn lemma_in_range(&self)
        ensures
            in_i64(self@.wallet_balance),
            in_i64(self@.position_margin),
            in_i64(self@.order_margin),
    {
        self.wallet_balance.lemma_raw_range();
        self.position_margin.lemma_raw_range();
        self.order_margin.lemma_raw_range();
    }

    /// Create a new margin account with an initial balance.
    pub fn new_init(init_balance: M) -> (r: Self)
        ensures
            r@ == (MarginView {
                wallet_balance: init_balance.raw(),
                position_margin: 0,
                order_margin: 0,
            }),
    {
        Margin {
            wallet_balance: init_balance,
            position_margin: zero_of::<D, M>(),
            order_margin: zero_of::<D, M>(),
        }
    }

    /// Create a new Margin with all custom fields; neither the position margin nor the
    /// order margin may exceed the wallet balance.
    pub fn new(wallet_balance: M, position_margin: M, order_margin: M) -> (r: Result<Self, Error>)
        ensures
            position_margin.raw() > wallet_balance.raw() ==> r == Err::<Self, Error>(
                Error::InvalidPositionMargin,
            ),
            position_margin.raw() <= wallet_balance.raw() && order_margin.raw()
                > wallet_balance.raw() ==> r == Err::<Self, Error>(Error::InvalidOrderMargin),
            position_margin.raw() <= wallet_balance.raw() && order_margin.raw()
                <= wallet_balance.raw() ==> r is Ok && r->Ok_0@ == (MarginView {
                wallet_balance: wallet_balance.raw(),
                position_margin: position_margin.raw(),
                order_margin: order_margin.raw(),
            }),
    {
        if position_margin.mantissa() > wallet_balance.mantissa() {
            return Err(Error::InvalidPositionMargin);
        }
        if order_margin.mantissa() > wallet_balance.mantissa() {
            return Err(Error::InvalidOrderMargin);
        }
        Ok(Margin { wallet_balance, position_margin, order_margin })
    }

    /// Return the wallet balance of account
    pub fn wallet_balance(&self) -> (r: M)
        ensures
            r.raw() == self@.wallet_balance,
    {
        self.wallet_balance
    }

    /// Return the position margin of account, same denotation as wallet_balance
    pub fn position_margin(&self) -> (r: M)
        ensures
            r.raw() == self@.position_margin,
    {
        self.position_margin
    }

    /// Return the used order margin of account, same denotation as wallet_balance
    pub fn order_margin(&self) -> (r: M)
        ensures
            r.raw() == self@.order_margin,
    {
        self.order_margin
    }

    /// Return the available balance of account, same denotation as wallet_balance
    pub fn available_balance(&self) -> (r: M)
        requires
            in_i64(self@.wallet_balance - self@.order_margin),
            in_i64(self@.available_balance()),
        ensures
            r.raw() == self@.available_balance(),
    {
        diff_of(diff_of(self.wallet_balance, self.order_margin), self.position_margin)
    }

    /// Locks some balance as order collateral.
    pub fn lock_as_order_collateral(&mut self, amount: M) -> (r: Result<(), Error>)
        requires
            old(self)@.in_range(),
            in_i64(old(self)@.wallet_balance - old(self)@.order_margin),
            amount.raw() <= old(self)@.available_balance() ==> in_i64(
                old(self)@.order_margin + amount.raw(),
            ),
        ensures
            match old(self)@.lock_order(amount.raw()) {
                Ok(v) => r is Ok && final(self)@ == v,
                Err(e) => r == Err::<(), Error>(e) && final(self)@ == old(self)@,
            },
    {
        let ab = self.available_balance();
        if amount.mantissa() > ab.mantissa() {
            return Err(Error::NotEnoughAvailableBalance);
        }
        self.order_margin = sum_of(self.order_margin, amount);
        Ok(())
    }

    /// Locks some balance as position collateral.
    pub fn lock_as_position_collateral(&mut self, amount: M) -> (r: Result<(), Error>)
        requires
            old(self)@.in_range(),
            in_i64(old(self)@.wallet_balance - old(self)@.order_margin),
            amount.raw() <= old(self)@.available_balance() ==> in_i64(
                old(self)@.position_margin + amount.raw(),
            ),
        ensures
            match old(self)@.lock_position(amount.raw()) {
                Ok(v) => r is Ok && final(self)@ == v,
                Err(e) => r == Err::<(), Error>(e) && final(self)@ == old(self)@,
            },
    {
        let ab = self.available_balance();
        if amount.mantissa() > ab.mantissa() {
            return Err(Error::NotEnoughAvailableBalance);
        }
        self.position_margin = sum_of(self.position_margin, amount);
        Ok(())
    }

    /// Entirely frees the order margin.
    pub fn clear_order_margin(&mut self)
        ensures
            final(self)@ == (MarginView { order_margin: 0, ..old(self)@ }),
    {
        self.order_margin = zero_of::<D, M>();
    }

    /// Entirely frees the position margin.
    pub fn clear_position_margin(&mut self)
        ensures
            final(self)@ == (MarginView { position_margin: 0, ..old(self)@ }),
    {
        self.position_margin = zero_of::<D, M>();
    }

    /// Unlocks a specific `amount` of order margin.
    pub fn unlock_order_margin(&mut self, amount: M) -> (r: Result<(), Error>)
        requires
            amount.raw() <= old(self)@.order_margin ==> in_i64(
                old(self)@.order_margin - amount.raw(),
            ),
        ensures
            match old(self)@.unlock_order(amount.raw()) {
                Ok(v) => r is Ok && final(self)@ == v,
                Err(e) => r == Err::<(), Error>(e) && final(self)@ == old(self)@,
            },
    {
        if amount.mantissa() > self.order_margin.mantissa() {
            return Err(Error::NotEnoughOrderMargin);
        }
        self.order_margin = diff_of(self.order_margin, amount);
        Ok(())
    }

    /// Unlocks a specific `amount` of position margin.
    pub fn free_position_margin(&mut self, amount: M) -> (r: Result<(), Error>)
        requires
            amount.raw() <= old(self)@.position_margin ==> in_i64(
                old(self)@.position_margin - amount.raw(),
            ),
        ensures
            match old(self)@.free_position(amount.raw()) {
                Ok(v) => r is Ok && final(self)@ == v,
                Err(e) => r == Err::<(), Error>(e) && final(self)@ == old(self)@,
            },
    {
        if amount.mantissa() > self.position_margin.mantissa() {
            return Err(Error::NotEnoughOrderMargin);
        }
        self.position_margin = diff_of(self.position_margin, amount);
        Ok(())
    }
}

/// Locking an amount as order collateral and then unlocking the same amount gives back the
/// margin as it was, where the order margin was not negative.
pub proof fn lock_then_unlock_order_restores(m: MarginView, amount: int)
    requires
        m.order_margin >= 0,
        m.lock_order(amount) is Ok,
    ensures
        m.lock_order(amount)->Ok_0.unlock_order(amount) == Ok::<MarginView, Error>(m),
{
}

/// Locking an amount as position collateral and then freeing the same amount gives back
/// the margin as it was, where the position margin was not negative.
pub proof fn lock_then_free_position_restores(m: MarginView, amount: int)
    requires
        m.position_margin >= 0,
        m.lock_position(amount) is Ok,
    ensures
        m.lock_position(amount)->Ok_0.free_position(amount) == Ok::<MarginView, Error>(m),
{
}

/// A lock succeeds exactly when the amount is covered by the available balance; the
/// wallet balance is unchanged, the available balance shrinks by the amount and stays
/// non-negative.
pub proof fn lock_keeps_available_non_negative(m: MarginView, amount: int)
    ensures
        m.lock_order(amount) is Ok <==> amount <= m.available_balance(),
        m.lock_position(amount) is Ok <==> amount <= m.available_balance(),
        m.lock_order(amount) is Ok ==> {
            let n = m.lock_order(amount)->Ok_0;
            &&& n.wallet_balance == m.wallet_balance
            &&& n.available_balance() == m.available_balance() - amount
            &&& n.available_balance() >= 0
        },
        m.lock_position(amount) is Ok ==> {
            let n = m.lock_position(amount)->Ok_0;
            &&& n.wallet_balance == m.wallet_balance
            &&& n.available_balance() == m.available_balance() - amount
            &&& n.available_balance() >= 0
        },
{
}

} // verus!
