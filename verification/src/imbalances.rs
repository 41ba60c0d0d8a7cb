//! What is owed between the balances and the total issuance.
use crate::config::Config;
use crate::currency::smaller;
use crate::pallet::Pallet;
use crate::state::State;
use crate::types::{Balance, CurrencyId};
use vstd::prelude::*;

verus! {

/// Funds that were added to an account, or taken from the total issuance, with
/// no equal and opposite accounting yet.
#[derive(PartialEq, Eq, Structural, Debug)]
pub struct PositiveImbalance {
    /// How much.
    pub amount: Balance,
}

/// Funds that were taken from an account, or added to the total issuance, with
/// no equal and opposite accounting yet.
#[derive(PartialEq, Eq, Structural, Debug)]
pub struct NegativeImbalance {
    /// How much.
    pub amount: Balance,
}

/// Either positive or negative imbalance.
#[derive(PartialEq, Eq, Structural, Debug)]
pub enum SignedImbalance {
    /// A positive imbalance.
    Positive(PositiveImbalance),
    /// A negative imbalance.
    Negative(NegativeImbalance),
}

/// How much was added without accounting for it.
pub open spec fn signed_amount(imbalance: SignedImbalance) -> int {
    match imbalance {
        SignedImbalance::Positive(p) => p.amount as int,
        SignedImbalance::Negative(n) => -n.amount,
    }
}

/// The balance closest to a number.
pub open spec fn saturated(value: int) -> Balance {
    if value < 0 {
        0
    } else {
        smaller(value, Balance::MAX as int) as Balance
    }
}

/// What is left when a negative imbalance is set against a positive one.
pub open spec fn positive_offset(
    positive: PositiveImbalance,
    negative: NegativeImbalance,
) -> Result<PositiveImbalance, NegativeImbalance> {
    if positive.amount >= negative.amount {
        Ok(PositiveImbalance { amount: (positive.amount - negative.amount) as Balance })
    } else {
        Err(NegativeImbalance { amount: (negative.amount - positive.amount) as Balance })
    }
}

/// What is left when a positive imbalance is set against a negative one.
pub open spec fn negative_offset(
    negative: NegativeImbalance,
    positive: PositiveImbalance,
) -> Result<NegativeImbalance, PositiveImbalance> {
    if negative.amount >= positive.amount {
        Ok(NegativeImbalance { amount: (negative.amount - positive.amount) as Balance })
    } else {
        Err(PositiveImbalance { amount: (positive.amount - negative.amount) as Balance })
    }
}

impl State {
    /// With an imbalance accounted for in the total issuance, as far as that
    /// goes.
    pub open spec fn settled(self, currency_id: CurrencyId, imbalance: SignedImbalance) -> State {
        self.with_issuance(
            currency_id,
            saturated(self.total_issuance(currency_id) + signed_amount(imbalance)) as int,
        )
    }
}

/// The smaller of two balances.
fn at_most(amount: Balance, limit: Balance) -> (r: Balance)
    ensures
        r == smaller(amount as int, limit as int),
{
    if amount <= limit {
        amount
    } else {
        limit
    }
}

impl PositiveImbalance {
    /// An imbalance of some amount.
    pub fn new(amount: Balance) -> (r: PositiveImbalance)
        ensures
            r.amount == amount,
    {
        PositiveImbalance { amount }
    }

    /// No imbalance.
    pub fn zero() -> (r: PositiveImbalance)
        ensures
            r.amount == 0,
    {
        PositiveImbalance { amount: 0 }
    }

    /// Gives up an imbalance of nothing, and hands back any other.
    pub fn drop_zero(self) -> (r: Result<(), PositiveImbalance>)
        ensures
            r == (if self.amount == 0 {
                Ok::<(), PositiveImbalance>(())
            } else {
                Err(self)
            }),
    {
        if self.amount == 0 {
            Ok(())
        } else {
            Err(self)
        }
    }

    /// Two imbalances that make up this one, the first of at most `amount`.
    pub fn split(self, amount: Balance) -> (r: (PositiveImbalance, PositiveImbalance))
        ensures
            r.0.amount == smaller(self.amount as int, amount as int),
            r.0.amount + r.1.amount == self.amount,
    {
        let first: Balance = at_most(self.amount, amount);
        let second: Balance = self.amount - first;
        (PositiveImbalance { amount: first }, PositiveImbalance { amount: second })
    }

    /// One imbalance of both, as far as that goes.
    pub fn merge(self, other: PositiveImbalance) -> (r: PositiveImbalance)
        ensures
            r.amount == saturated(self.amount + other.amount),
    {
        PositiveImbalance { amount: self.amount.saturating_add(other.amount) }
    }

    /// Adds another imbalance to this one, as far as that goes.
    pub fn subsume(&mut self, other: PositiveImbalance)
        ensures
            final(self).amount == saturated(old(self).amount + other.amount),
    {
        self.amount = self.amount.saturating_add(other.amount);
    }

    /// What is left of this imbalance and an opposite one.
    pub fn offset(self, other: NegativeImbalance) -> (r: Result<
        PositiveImbalance,
        NegativeImbalance,
    >)
        ensures
            r == positive_offset(self, other),
    {
        if self.amount >= other.amount {
            Ok(PositiveImbalance { amount: self.amount - other.amount })
        } else {
            Err(NegativeImbalance { amount: other.amount - self.amount })
        }
    }

    /// How much it is.
    pub fn peek(&self) -> (r: Balance)
        ensures
            r == self.amount,
    {
        self.amount
    }
}

impl NegativeImbalance {
    /// An imbalance of some amount.
    pub fn new(amount: Balance) -> (r: NegativeImbalance)
        ensures
            r.amount == amount,
    {
        NegativeImbalance { amount }
    }

    /// No imbalance.
    pub fn zero() -> (r: NegativeImbalance)
        ensures
            r.amount == 0,
    {
        NegativeImbalance { amount: 0 }
    }

    /// Gives up an imbalance of nothing, and hands back any other.
    pub fn drop_zero(self) -> (r: Result<(), NegativeImbalance>)
        ensures
            r == (if self.amount == 0 {
                Ok::<(), NegativeImbalance>(())
            } else {
                Err(self)
            }),
    {
        if self.amount == 0 {
            Ok(())
        } else {
            Err(self)
        }
    }

    /// Two imbalances that make up this one, the first of at most `amount`.
    pub fn split(self, amount: Balance) -> (r: (NegativeImbalance, NegativeImbalance))
        ensures
            r.0.amount == smaller(self.amount as int, amount as int),
            r.0.amount + r.1.amount == self.amount,
    {
        let first: Balance = at_most(self.amount, amount);
        let second: Balance = self.amount - first;
        (NegativeImbalance { amount: first }, NegativeImbalance { amount: second })
    }

    /// One imbalance of both, as far as that goes.
    pub fn merge(self, other: NegativeImbalance) -> (r: NegativeImbalance)
        ensures
            r.amount == saturated(self.amount + other.amount),
    {
        NegativeImbalance { amount: self.amount.saturating_add(other.amount) }
    }

    /// Adds another imbalance to this one, as far as that goes.
    pub fn subsume(&mut self, other: NegativeImbalance)
        ensures
            final(self).amount == saturated(old(self).amount + other.amount),
    {
        self.amount = self.amount.saturating_add(other.amount);
    }

    /// What is left of this imbalance and an opposite one.
    pub fn offset(self, other: PositiveImbalance) -> (r: Result<
        NegativeImbalance,
        PositiveImbalance,
    >)
        ensures
            r == negative_offset(self, other),
    {
        if self.amount >= other.amount {
            Ok(NegativeImbalance { amount: self.amount - other.amount })
        } else {
            Err(PositiveImbalance { amount: other.amount - self.amount })
        }
    }

    /// How much it is.
    pub fn peek(&self) -> (r: Balance)
        ensures
            r == self.amount,
    {
        self.amount
    }
}

impl<T: Config> Pallet<T> {
    /// Accounts for an imbalance that is given up: what was added to accounts
    /// counts as issued, and what was taken from them no longer does.
    pub fn settle(&mut self, currency_id: CurrencyId, imbalance: SignedImbalance)
        ensures
            final(self)@ == old(self)@.settled(currency_id, imbalance),
    {
        let issued: Balance = self.total_issuance(currency_id);
        let settled: Balance = match imbalance {
            SignedImbalance::Positive(p) => issued.saturating_add(p.amount),
            SignedImbalance::Negative(n) => issued.saturating_sub(n.amount),
        };
        self.set_issuance(currency_id, settled);
    }
}

} // verus!
