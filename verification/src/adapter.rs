//! One currency of the ledger, seen as if there were no other.
use crate::account::AccountId;
use crate::config::Config;
use crate::currency::smaller;
use crate::imbalances::{NegativeImbalance, PositiveImbalance, SignedImbalance};
use crate::lockable::{locks_extended, locks_with, locks_without};
use crate::pallet::Pallet;
use crate::state::State;
use crate::types::{
    AccountData, Balance, BalanceStatus, CurrencyId, Error, LockIdentifier,
};
use vstd::prelude::*;

verus! {

/// The currency with this identifier.
#[derive(Clone, Copy, PartialEq, Eq, Structural, Debug)]
pub struct CurrencyAdapter {
    /// The currency.
    pub currency_id: CurrencyId,
}

// The total issuance.
impl State {
    /// How much of `amount` can be burnt.
    pub open spec fn burnable(self, currency_id: CurrencyId, amount: Balance) -> int {
        smaller(amount as int, self.total_issuance(currency_id) as int)
    }

    /// With as much of `amount` burnt as can be.
    pub open spec fn issuance_burnt(self, currency_id: CurrencyId, amount: Balance) -> State {
        if amount == 0 {
            self
        } else {
            self.with_issuance(
                currency_id,
                self.total_issuance(currency_id) - self.burnable(currency_id, amount),
            )
        }
    }

    /// How much of `amount` can be issued.
    pub open spec fn issuable(self, currency_id: CurrencyId, amount: Balance) -> int {
        smaller(amount as int, Balance::MAX - self.total_issuance(currency_id))
    }

    /// With as much of `amount` issued as can be.
    pub open spec fn issuance_issued(self, currency_id: CurrencyId, amount: Balance) -> State {
        if amount == 0 {
            self
        } else {
            self.with_issuance(
                currency_id,
                self.total_issuance(currency_id) + self.issuable(currency_id, amount),
            )
        }
    }
}

// Balances, with the total issuance left as it is.
impl State {
    /// Whether `value` can be added to a free balance.
    pub open spec fn may_add_free(
        self,
        currency_id: CurrencyId,
        who: AccountId,
        value: Balance,
    ) -> bool {
        self.account(who, currency_id).free + value <= Balance::MAX
    }

    /// With `value` added to a free balance, if that can be done and is
    /// something.
    pub open spec fn free_added<T: Config>(
        self,
        currency_id: CurrencyId,
        who: AccountId,
        value: Balance,
    ) -> State {
        if value != 0 && self.may_add_free(currency_id, who, value) {
            self.set_free::<T>(currency_id, who, self.account(who, currency_id).free + value)
        } else {
            self
        }
    }

    /// Whether [`State::free_added`] stays within what was issued.
    pub open spec fn add_free_fits<T: Config>(
        self,
        currency_id: CurrencyId,
        who: AccountId,
        value: Balance,
    ) -> bool {
        value != 0 && self.may_add_free(currency_id, who, value) ==> self.set_free_fits::<T>(
            currency_id,
            who,
            self.account(who, currency_id).free + value,
        )
    }

    /// With `value` taken from a free balance, if that can be done and is
    /// something.
    pub open spec fn free_taken<T: Config>(
        self,
        currency_id: CurrencyId,
        who: AccountId,
        value: Balance,
    ) -> State {
        if value != 0 && self.withdrawal(currency_id, who, value) is Ok {
            self.set_free::<T>(currency_id, who, self.account(who, currency_id).free - value)
        } else {
            self
        }
    }

    /// Whether [`State::free_taken`] stays within what was issued.
    pub open spec fn take_free_fits<T: Config>(
        self,
        currency_id: CurrencyId,
        who: AccountId,
        value: Balance,
    ) -> bool {
        value != 0 && self.withdrawal(currency_id, who, value) is Ok ==> self.set_free_fits::<T>(
            currency_id,
            who,
            self.account(who, currency_id).free - value,
        )
    }

    /// Whether a free balance can be set: enough for an account, or for an
    /// account that is stored already.
    pub open spec fn may_make_free<T: Config>(
        self,
        currency_id: CurrencyId,
        who: AccountId,
        value: Balance,
    ) -> bool {
        ||| value + self.account(who, currency_id).reserved >= T::spec_existential_deposit(
            currency_id,
        )
        ||| self.is_stored(who, currency_id)
    }

    /// With another free balance, if that can be set.
    pub open spec fn free_made<T: Config>(
        self,
        currency_id: CurrencyId,
        who: AccountId,
        value: Balance,
    ) -> State {
        if self.may_make_free::<T>(currency_id, who, value) {
            self.set_free::<T>(currency_id, who, value as int)
        } else {
            self
        }
    }

    /// Whether [`State::free_made`] stays within what was issued.
    pub open spec fn make_free_fits<T: Config>(
        self,
        currency_id: CurrencyId,
        who: AccountId,
        value: Balance,
    ) -> bool {
        self.may_make_free::<T>(currency_id, who, value) ==> self.set_free_fits::<T>(
            currency_id,
            who,
            value as int,
        )
    }

    /// The imbalance that results when a free balance is set, none if it cannot
    /// be.
    pub open spec fn made_imbalance<T: Config>(
        self,
        currency_id: CurrencyId,
        who: AccountId,
        value: Balance,
    ) -> SignedImbalance {
        if self.may_make_free::<T>(currency_id, who, value) {
            imbalance_between(self.account(who, currency_id).free, value)
        } else {
            SignedImbalance::Positive(PositiveImbalance { amount: 0 })
        }
    }
}

/// The imbalance that results when a free balance becomes another.
pub open spec fn imbalance_between(free: Balance, value: Balance) -> SignedImbalance {
    if free <= value {
        SignedImbalance::Positive(PositiveImbalance { amount: (value - free) as Balance })
    } else {
        SignedImbalance::Negative(NegativeImbalance { amount: (free - value) as Balance })
    }
}

// Reading.
impl CurrencyAdapter {
    /// The combined balance of `who`.
    pub fn total_balance<T: Config>(&self, pallet: &Pallet<T>, who: &AccountId) -> (r: Balance)
        ensures
            r == pallet@.account(*who, self.currency_id).spec_total(),
    {
        pallet.total_balance(self.currency_id, who)
    }

    /// Whether `value` of the free balance of `who` can be slashed.
    pub fn can_slash<T: Config>(&self, pallet: &Pallet<T>, who: &AccountId, value: Balance) -> (r:
        bool)
        ensures
            r == (value <= pallet@.account(*who, self.currency_id).free),
    {
        pallet.can_slash(self.currency_id, who, value)
    }

    /// The total amount of issuance.
    pub fn total_issuance<T: Config>(&self, pallet: &Pallet<T>) -> (r: Balance)
        ensures
            r == pallet@.total_issuance(self.currency_id),
    {
        pallet.total_issuance(self.currency_id)
    }

    /// The minimum balance any single account may have.
    pub fn minimum_balance<T: Config>(&self) -> (r: Balance)
        ensures
            r == T::spec_existential_deposit(self.currency_id),
    {
        Pallet::<T>::minimum_balance(self.currency_id)
    }

    /// The free balance of `who`.
    pub fn free_balance<T: Config>(&self, pallet: &Pallet<T>, who: &AccountId) -> (r: Balance)
        ensures
            r == pallet@.account(*who, self.currency_id).free,
    {
        pallet.free_balance(self.currency_id, who)
    }

    /// Ensures that `amount` can be withdrawn from the free balance of `who`.
    pub fn ensure_can_withdraw<T: Config>(
        &self,
        pallet: &Pallet<T>,
        who: &AccountId,
        amount: Balance,
    ) -> (r: Result<(), Error>)
        ensures
            r == pallet@.withdrawal(self.currency_id, *who, amount),
    {
        pallet.ensure_can_withdraw(self.currency_id, who, amount)
    }
}

// The total issuance.
impl CurrencyAdapter {
    /// Reduce the total issuance by `amount` and return the according imbalance.
    /// The imbalance will typically be used to reduce an account by the same
    /// amount.
    ///
    /// This is infallible, but doesn't guarantee that the entire `amount` is
    /// burnt, for example in the case of underflow.
    pub fn burn<T: Config>(&self, pallet: &mut Pallet<T>, amount: Balance) -> (r: PositiveImbalance)
        ensures
            r.amount == old(pallet)@.burnable(self.currency_id, amount),
            final(pallet)@ == old(pallet)@.issuance_burnt(self.currency_id, amount),
    {
        if amount == 0 {
            return PositiveImbalance::zero();
        }
        let issued: Balance = pallet.total_issuance(self.currency_id);
        match issued.checked_sub(amount) {
            Some(left) => {
                pallet.set_issuance(self.currency_id, left);
                PositiveImbalance::new(amount)
            },
            None => {
                pallet.set_issuance(self.currency_id, 0);
                PositiveImbalance::new(issued)
            },
        }
    }

    /// Increase the total issuance by `amount` and return the according
    /// imbalance. The imbalance will typically be used to increase an account by
    /// the same amount.
    ///
    /// This is infallible, but doesn't guarantee that the entire `amount` is
    /// issued, for example in the case of overflow.
    pub fn issue<T: Config>(&self, pallet: &mut Pallet<T>, amount: Balance) -> (r: NegativeImbalance)
        ensures
            r.amount == old(pallet)@.issuable(self.currency_id, amount),
            final(pallet)@ == old(pallet)@.issuance_issued(self.currency_id, amount),
    {
        if amount == 0 {
            return NegativeImbalance::zero();
        }
        let issued: Balance = pallet.total_issuance(self.currency_id);
        match issued.checked_add(amount) {
            Some(more) => {
                pallet.set_issuance(self.currency_id, more);
                NegativeImbalance::new(amount)
            },
            None => {
                pallet.set_issuance(self.currency_id, Balance::MAX);
                NegativeImbalance::new(Balance::MAX - issued)
            },
        }
    }
}

// Balances, with the total issuance left to the imbalances.
impl CurrencyAdapter {
    /// Transfer some liquid free balance to another account.
    pub fn transfer<T: Config>(
        &self,
        pallet: &mut Pallet<T>,
        source: &AccountId,
        dest: &AccountId,
        value: Balance,
    ) -> (r: Result<(), Error>)
        requires
            old(pallet)@.transfer_fits::<T>(self.currency_id, *source, *dest, value),
        ensures
            r == old(pallet)@.transfer_outcome(self.currency_id, *source, *dest, value),
            final(pallet)@ == old(pallet)@.transferred::<T>(
                self.currency_id,
                *source,
                *dest,
                value,
            ),
    {
        pallet.currency_transfer(self.currency_id, source, dest, value)
    }

    /// Takes up to `value` from `who`, from the free balance first, and returns
    /// what it took and what it could not take.
    pub fn slash<T: Config>(&self, pallet: &mut Pallet<T>, who: &AccountId, value: Balance) -> (r: (
        NegativeImbalance,
        Balance,
    ))
        requires
            value != 0 ==> old(pallet)@.slash_account_fits::<T>(self.currency_id, *who, value),
        ensures
            r.1 == old(pallet)@.unslashed(self.currency_id, *who, value),
            r.0.amount == value - r.1,
            final(pallet)@ == (if value == 0 {
                old(pallet)@
            } else {
                old(pallet)@.slashed_account::<T>(self.currency_id, *who, value)
            }),
    {
        if value == 0 {
            return (NegativeImbalance::zero(), value);
        }
        let remaining_slash: Balance = pallet.slash_account(self.currency_id, who, value);
        (NegativeImbalance::new(value - remaining_slash), remaining_slash)
    }

    /// Mints `value` to the free balance of `who`.
    pub fn deposit_into_existing<T: Config>(
        &self,
        pallet: &mut Pallet<T>,
        who: &AccountId,
        value: Balance,
    ) -> (r: Result<PositiveImbalance, Error>)
        requires
            old(pallet)@.add_free_fits::<T>(self.currency_id, *who, value),
        ensures
            r == (if old(pallet)@.may_add_free(self.currency_id, *who, value) {
                Ok::<PositiveImbalance, Error>(PositiveImbalance { amount: value })
            } else {
                Err(Error::TotalIssuanceOverflow)
            }),
            final(pallet)@ == old(pallet)@.free_added::<T>(self.currency_id, *who, value),
    {
        if value == 0 {
            return Ok(PositiveImbalance::zero());
        }
        match pallet.free_balance(self.currency_id, who).checked_add(value) {
            Some(new_total) => {
                pallet.set_free_balance(self.currency_id, who, new_total);
                Ok(PositiveImbalance::new(value))
            },
            None => Err(Error::TotalIssuanceOverflow),
        }
    }

    /// Mints `value` to the free balance of `who`, or nothing if that is too
    /// much.
    pub fn deposit_creating<T: Config>(
        &self,
        pallet: &mut Pallet<T>,
        who: &AccountId,
        value: Balance,
    ) -> (r: PositiveImbalance)
        requires
            old(pallet)@.add_free_fits::<T>(self.currency_id, *who, value),
        ensures
            r.amount == (if old(pallet)@.may_add_free(self.currency_id, *who, value) {
                value
            } else {
                0
            }),
            final(pallet)@ == old(pallet)@.free_added::<T>(self.currency_id, *who, value),
    {
        match self.deposit_into_existing(pallet, who, value) {
            Ok(imbalance) => imbalance,
            Err(_) => PositiveImbalance::zero(),
        }
    }

    /// Takes `value` from the free balance of `who`.
    pub fn withdraw<T: Config>(
        &self,
        pallet: &mut Pallet<T>,
        who: &AccountId,
        value: Balance,
    ) -> (r: Result<NegativeImbalance, Error>)
        requires
            old(pallet)@.take_free_fits::<T>(self.currency_id, *who, value),
        ensures
            r == (match old(pallet)@.withdrawal(self.currency_id, *who, value) {
                Ok(_) => Ok::<NegativeImbalance, Error>(NegativeImbalance { amount: value }),
                Err(e) => Err(e),
            }),
            final(pallet)@ == old(pallet)@.free_taken::<T>(self.currency_id, *who, value),
    {
        if value == 0 {
            return Ok(NegativeImbalance::zero());
        }
        match pallet.ensure_can_withdraw(self.currency_id, who, value) {
            Ok(()) => {},
            Err(e) => {
                return Err(e);
            },
        }
        let free: Balance = pallet.free_balance(self.currency_id, who);
        pallet.set_free_balance(self.currency_id, who, free - value);
        Ok(NegativeImbalance::new(value))
    }

    /// Makes the free balance of `who` be `value`, unless that is too little for
    /// an account that does not exist.
    pub fn make_free_balance_be<T: Config>(
        &self,
        pallet: &mut Pallet<T>,
        who: &AccountId,
        value: Balance,
    ) -> (r: SignedImbalance)
        requires
            old(pallet)@.make_free_fits::<T>(self.currency_id, *who, value),
        ensures
            r == old(pallet)@.made_imbalance::<T>(self.currency_id, *who, value),
            final(pallet)@ == old(pallet)@.free_made::<T>(self.currency_id, *who, value),
    {
        let ed: Balance = T::existential_deposit(self.currency_id);
        let f = |account: AccountData, existed: bool| -> (out: Result<
            (AccountData, SignedImbalance),
            (),
        >)
            ensures
                out == (if value + account.reserved >= ed || existed {
                    Ok::<(AccountData, SignedImbalance), ()>(
                        (
                            (AccountData { free: value, ..account }),
                            imbalance_between(account.free, value),
                        ),
                    )
                } else {
                    Err(())
                }),
            {
                // If we're attempting to make an account of less than ED, then bypass the
                // entire operation. It's a no-op if you follow it through, but since this is
                // an instance where we might account for a negative imbalance before we
                // account for its actual equal and opposite cause (returned as an
                // imbalance), then in the instance that there's no other accounts on the
                // system at all, we might underflow the issuance and our arithmetic will be
                // off.
                if value.saturating_add(account.reserved) >= ed || existed {
                    let imbalance: SignedImbalance = if account.free <= value {
                        SignedImbalance::Positive(PositiveImbalance::new(value - account.free))
                    } else {
                        SignedImbalance::Negative(NegativeImbalance::new(account.free - value))
                    };
                    Ok((AccountData { free: value, ..account }, imbalance))
                } else {
                    Err(())
                }
            };
        match pallet.try_mutate_account(who, self.currency_id, f) {
            Ok(imbalance) => imbalance,
            Err(_) => SignedImbalance::Positive(PositiveImbalance::zero()),
        }
    }
}

// Reserves.
impl CurrencyAdapter {
    /// Whether `who` can reserve `value` from their free balance.
    pub fn can_reserve<T: Config>(&self, pallet: &Pallet<T>, who: &AccountId, value: Balance) -> (r:
        bool)
        ensures
            r == (pallet@.withdrawal(self.currency_id, *who, value) is Ok),
    {
        pallet.can_reserve(self.currency_id, who, value)
    }

    /// Slashes the reserved balance of `who`, and returns what it could not
    /// take. The total issuance is accounted for, so no imbalance is left.
    pub fn slash_reserved<T: Config>(
        &self,
        pallet: &mut Pallet<T>,
        who: &AccountId,
        value: Balance,
    ) -> (r: (NegativeImbalance, Balance))
        requires
            old(pallet)@.slash_reserved_fits::<T>(self.currency_id, *who, value),
        ensures
            r.0.amount == 0,
            r.1 == value - old(pallet)@.from_reserve(self.currency_id, *who, value),
            final(pallet)@ == old(pallet)@.reserve_slashed::<T>(self.currency_id, *who, value),
    {
        let actual: Balance = pallet.slash_reserved(self.currency_id, who, value);
        (NegativeImbalance::zero(), actual)
    }

    /// The reserved balance of `who`.
    pub fn reserved_balance<T: Config>(&self, pallet: &Pallet<T>, who: &AccountId) -> (r: Balance)
        ensures
            r == pallet@.account(*who, self.currency_id).reserved,
    {
        pallet.reserved_balance(self.currency_id, who)
    }

    /// Moves `value` from the free to the reserved balance of `who`.
    pub fn reserve<T: Config>(
        &self,
        pallet: &mut Pallet<T>,
        who: &AccountId,
        value: Balance,
    ) -> (r: Result<(), Error>)
        requires
            old(pallet)@.reserve_fits::<T>(self.currency_id, *who, value),
        ensures
            r == old(pallet)@.withdrawal(self.currency_id, *who, value),
            final(pallet)@ == old(pallet)@.reserved::<T>(self.currency_id, *who, value),
    {
        pallet.reserve(self.currency_id, who, value)
    }

    /// Moves up to `value` from the reserved to the free balance of `who`, and
    /// returns what it could not move.
    pub fn unreserve<T: Config>(
        &self,
        pallet: &mut Pallet<T>,
        who: &AccountId,
        value: Balance,
    ) -> (r: Balance)
        requires
            old(pallet)@.unreserve_fits::<T>(self.currency_id, *who, value),
        ensures
            r == value - old(pallet)@.from_reserve(self.currency_id, *who, value),
            final(pallet)@ == old(pallet)@.unreserved::<T>(self.currency_id, *who, value),
    {
        pallet.unreserve(self.currency_id, who, value)
    }

    /// Moves up to `value` of the reserved balance of `slashed` to
    /// `beneficiary`, and returns what it could not move.
    pub fn repatriate_reserved<T: Config>(
        &self,
        pallet: &mut Pallet<T>,
        slashed: &AccountId,
        beneficiary: &AccountId,
        value: Balance,
        status: BalanceStatus,
    ) -> (r: Result<Balance, Error>)
        requires
            old(pallet)@.repatriate_fits::<T>(
                self.currency_id,
                *slashed,
                *beneficiary,
                value,
                status,
            ),
        ensures
            r is Ok,
            r->Ok_0 == value - old(pallet)@.from_reserve(self.currency_id, *slashed, value),
            final(pallet)@ == old(pallet)@.repatriated::<T>(
                self.currency_id,
                *slashed,
                *beneficiary,
                value,
                status,
            ),
    {
        pallet.repatriate_reserved(self.currency_id, slashed, beneficiary, value, status)
    }
}

// Locks.
impl CurrencyAdapter {
    /// Sets a lock on the balance of `who`.
    pub fn set_lock<T: Config>(
        &self,
        pallet: &mut Pallet<T>,
        id: LockIdentifier,
        who: &AccountId,
        amount: Balance,
    )
        requires
            amount != 0 ==> old(pallet)@.update_locks_fits::<T>(
                self.currency_id,
                *who,
                locks_with(old(pallet)@.locks_of(*who, self.currency_id), id, amount),
            ),
        ensures
            final(pallet)@ == (if amount == 0 {
                old(pallet)@
            } else {
                old(pallet)@.update_locks::<T>(
                    self.currency_id,
                    *who,
                    locks_with(old(pallet)@.locks_of(*who, self.currency_id), id, amount),
                )
            }),
    {
        let _ = pallet.set_lock(id, self.currency_id, who, amount);
    }

    /// Extends a lock on the balance of `who`.
    pub fn extend_lock<T: Config>(
        &self,
        pallet: &mut Pallet<T>,
        id: LockIdentifier,
        who: &AccountId,
        amount: Balance,
    )
        requires
            amount != 0 ==> old(pallet)@.update_locks_fits::<T>(
                self.currency_id,
                *who,
                locks_extended(old(pallet)@.locks_of(*who, self.currency_id), id, amount),
            ),
        ensures
            final(pallet)@ == (if amount == 0 {
                old(pallet)@
            } else {
                old(pallet)@.update_locks::<T>(
                    self.currency_id,
                    *who,
                    locks_extended(old(pallet)@.locks_of(*who, self.currency_id), id, amount),
                )
            }),
    {
        let _ = pallet.extend_lock(id, self.currency_id, who, amount);
    }

    /// Removes a lock from the balance of `who`.
    pub fn remove_lock<T: Config>(
        &self,
        pallet: &mut Pallet<T>,
        id: LockIdentifier,
        who: &AccountId,
    )
        requires
            old(pallet)@.update_locks_fits::<T>(
                self.currency_id,
                *who,
                locks_without(old(pallet)@.locks_of(*who, self.currency_id), id),
            ),
        ensures
            final(pallet)@ == old(pallet)@.update_locks::<T>(
                self.currency_id,
                *who,
                locks_without(old(pallet)@.locks_of(*who, self.currency_id), id),
            ),
    {
        let _ = pallet.remove_lock(id, self.currency_id, who);
    }
}

} // verus!
