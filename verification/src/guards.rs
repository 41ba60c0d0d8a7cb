//! Whether there is room for an operation, for callers who cannot know.
//!
//! Each of these tries the operation out on a duplicate of the ledger as far as
//! it has to, and tells exactly whether the operation may be called.
use crate::account::AccountId;
use crate::adapter::CurrencyAdapter;
use crate::config::Config;
use crate::lockable::{locks_extended, locks_with, locks_without};
use crate::pallet::Pallet;
use crate::serp::{payment, payment_fits};
use crate::state::State;
use crate::types::{
    AccountData, Amount, Balance, BalanceStatus, BlockNumber, CurrencyId, Error, LockIdentifier,
};
use vstd::prelude::*;

verus! {

// Balances.
impl<T: Config> Pallet<T> {
    /// Whether [`Pallet::currency_transfer`] may be called.
    pub fn transfer_has_room(
        &self,
        currency_id: CurrencyId,
        from: &AccountId,
        to: &AccountId,
        amount: Balance,
    ) -> (r: bool)
        ensures
            r == self@.transfer_fits::<T>(currency_id, *from, *to, amount),
    {
        if amount == 0 || from.same(to) || self.ensure_can_withdraw(
            currency_id,
            from,
            amount,
        ).is_err() {
            return true;
        }
        let from_balance: Balance = self.free_balance(currency_id, from) - amount;
        if self.free_balance(currency_id, to).checked_add(amount).is_none() {
            return true;
        }
        if !self.set_free_has_room(currency_id, from, from_balance) {
            return false;
        }
        let mut after: Pallet<T> = self.duplicate();
        after.set_free_balance(currency_id, from, from_balance);
        match after.free_balance(currency_id, to).checked_add(amount) {
            Some(to_balance) => after.set_free_has_room(currency_id, to, to_balance),
            None => false,
        }
    }

    /// Whether [`Pallet::deposit`] may be called.
    pub fn deposit_has_room(
        &self,
        currency_id: CurrencyId,
        who: &AccountId,
        amount: Balance,
    ) -> (r: bool)
        ensures
            r == self@.deposit_fits::<T>(currency_id, *who, amount),
    {
        if amount == 0 {
            return true;
        }
        let issued: Balance = match self.total_issuance(currency_id).checked_add(amount) {
            Some(issued) => issued,
            None => {
                return true;
            },
        };
        match self.free_balance(currency_id, who).checked_add(amount) {
            Some(free) => {
                let mut after: Pallet<T> = self.duplicate();
                after.set_issuance(currency_id, issued);
                after.set_free_has_room(currency_id, who, free)
            },
            None => false,
        }
    }

    /// Whether [`Pallet::withdraw`] may be called.
    pub fn withdraw_has_room(
        &self,
        currency_id: CurrencyId,
        who: &AccountId,
        amount: Balance,
    ) -> (r: bool)
        ensures
            r == self@.withdraw_fits::<T>(currency_id, *who, amount),
    {
        if amount == 0 || self.ensure_can_withdraw(currency_id, who, amount).is_err() {
            return true;
        }
        let free: Balance = self.free_balance(currency_id, who) - amount;
        match self.total_issuance(currency_id).checked_sub(amount) {
            Some(issued) => {
                let mut after: Pallet<T> = self.duplicate();
                after.set_issuance(currency_id, issued);
                after.set_free_has_room(currency_id, who, free)
            },
            None => false,
        }
    }

    /// Whether [`Pallet::update_balance`] may be called.
    pub fn update_balance_has_room(
        &self,
        currency_id: CurrencyId,
        who: &AccountId,
        by_amount: Amount,
    ) -> (r: bool)
        ensures
            r == self@.update_balance_fits::<T>(currency_id, *who, by_amount),
    {
        if by_amount > 0 {
            self.deposit_has_room(currency_id, who, by_amount as Balance)
        } else if by_amount == Amount::MIN {
            self.withdraw_has_room(currency_id, who, Amount::MAX as Balance)
        } else {
            self.withdraw_has_room(currency_id, who, (-by_amount) as Balance)
        }
    }

    /// Whether an account can be slashed with the total issuance left as it is,
    /// and the ledger after that.
    fn try_slash_account(
        &self,
        currency_id: CurrencyId,
        who: &AccountId,
        amount: Balance,
    ) -> (r: Option<Pallet<T>>)
        ensures
            r is Some <==> self@.slash_account_fits::<T>(currency_id, *who, amount),
            r matches Some(after) ==> after@ == self@.slashed_account::<T>(
                currency_id,
                *who,
                amount,
            ),
    {
        let account: AccountData = self.accounts(who, currency_id);
        let free_part: Balance = if account.free <= amount {
            account.free
        } else {
            amount
        };
        let rest: Balance = amount - free_part;
        let reserved_part: Balance = if account.reserved <= rest {
            account.reserved
        } else {
            rest
        };
        let mut after: Pallet<T> = self.duplicate();
        if free_part != 0 {
            if !after.set_free_has_room(currency_id, who, account.free - free_part) {
                return None;
            }
            after.set_free_balance(currency_id, who, account.free - free_part);
        }
        if free_part != amount {
            if !after.set_reserved_has_room(currency_id, who, account.reserved - reserved_part) {
                return None;
            }
            after.set_reserved_balance(currency_id, who, account.reserved - reserved_part);
        }
        Some(after)
    }

    /// Whether [`Pallet::slash`] may be called.
    pub fn slash_has_room(
        &self,
        currency_id: CurrencyId,
        who: &AccountId,
        amount: Balance,
    ) -> (r: bool)
        ensures
            r == self@.slash_fits::<T>(currency_id, *who, amount),
    {
        if amount == 0 {
            return true;
        }
        match self.try_slash_account(currency_id, who, amount) {
            Some(after) => {
                let account: AccountData = self.accounts(who, currency_id);
                let taken: Balance = if account.free >= amount || account.reserved >= amount
                    - account.free {
                    amount
                } else {
                    account.free + account.reserved
                };
                taken <= after.total_issuance(currency_id)
            },
            None => false,
        }
    }
}

// Reserves.
impl<T: Config> Pallet<T> {
    /// Whether [`Pallet::slash_reserved`] may be called.
    pub fn slash_reserved_has_room(
        &self,
        currency_id: CurrencyId,
        who: &AccountId,
        value: Balance,
    ) -> (r: bool)
        ensures
            r == self@.slash_reserved_fits::<T>(currency_id, *who, value),
    {
        if value == 0 {
            return true;
        }
        let actual: Balance = self.available_reserve(currency_id, who, value);
        let left: Balance = self.reserved_balance(currency_id, who) - actual;
        if !self.set_reserved_has_room(currency_id, who, left) {
            return false;
        }
        let mut after: Pallet<T> = self.duplicate();
        after.set_reserved_balance(currency_id, who, left);
        actual <= after.total_issuance(currency_id)
    }

    /// Whether [`Pallet::reserve`] may be called.
    pub fn reserve_has_room(
        &self,
        currency_id: CurrencyId,
        who: &AccountId,
        value: Balance,
    ) -> (r: bool)
        ensures
            r == self@.reserve_fits::<T>(currency_id, *who, value),
    {
        if value == 0 || self.ensure_can_withdraw(currency_id, who, value).is_err() {
            return true;
        }
        let account: AccountData = self.accounts(who, currency_id);
        let reserved: Balance = match account.reserved.checked_add(value) {
            Some(reserved) => reserved,
            None => {
                return false;
            },
        };
        self.put_has_room(
            who,
            currency_id,
            AccountData { free: account.free - value, reserved, ..account },
        )
    }

    /// Whether [`Pallet::unreserve`] may be called.
    pub fn unreserve_has_room(
        &self,
        currency_id: CurrencyId,
        who: &AccountId,
        value: Balance,
    ) -> (r: bool)
        ensures
            r == self@.unreserve_fits::<T>(currency_id, *who, value),
    {
        if value == 0 {
            return true;
        }
        let account: AccountData = self.accounts(who, currency_id);
        let actual: Balance = self.available_reserve(currency_id, who, value);
        let free: Balance = match account.free.checked_add(actual) {
            Some(free) => free,
            None => {
                return false;
            },
        };
        self.put_has_room(
            who,
            currency_id,
            AccountData { free, reserved: account.reserved - actual, ..account },
        )
    }

    /// Whether [`Pallet::repatriate_reserved`] may be called.
    pub fn repatriate_has_room(
        &self,
        currency_id: CurrencyId,
        slashed: &AccountId,
        beneficiary: &AccountId,
        value: Balance,
        status: BalanceStatus,
    ) -> (r: bool)
        ensures
            r == self@.repatriate_fits::<T>(currency_id, *slashed, *beneficiary, value, status),
    {
        if value == 0 {
            return true;
        }
        if slashed.same(beneficiary) {
            return match status {
                BalanceStatus::Free => self.unreserve_has_room(currency_id, slashed, value),
                BalanceStatus::Reserved => true,
            };
        }
        let to_account: AccountData = self.accounts(beneficiary, currency_id);
        let actual: Balance = self.available_reserve(currency_id, slashed, value);
        let left: Balance = self.reserved_balance(currency_id, slashed) - actual;
        let mut after: Pallet<T> = self.duplicate();
        match status {
            BalanceStatus::Free => match to_account.free.checked_add(actual) {
                Some(free) => {
                    if !self.set_free_has_room(currency_id, beneficiary, free) {
                        return false;
                    }
                    after.set_free_balance(currency_id, beneficiary, free);
                },
                None => {
                    return false;
                },
            },
            BalanceStatus::Reserved => match to_account.reserved.checked_add(actual) {
                Some(reserved) => {
                    if !self.set_reserved_has_room(currency_id, beneficiary, reserved) {
                        return false;
                    }
                    after.set_reserved_balance(currency_id, beneficiary, reserved);
                },
                None => {
                    return false;
                },
            },
        }
        after.set_reserved_has_room(currency_id, slashed, left)
    }
}

// Locks.
impl<T: Config> Pallet<T> {
    /// Whether [`Pallet::set_lock`] may be called.
    pub fn set_lock_has_room(
        &self,
        lock_id: LockIdentifier,
        currency_id: CurrencyId,
        who: &AccountId,
        amount: Balance,
    ) -> (r: bool)
        ensures
            r == (amount != 0 ==> self@.update_locks_fits::<T>(
                currency_id,
                *who,
                locks_with(self@.locks_of(*who, currency_id), lock_id, amount),
            )),
    {
        amount == 0 || self.locks_have_room(
            currency_id,
            who,
            &self.locks_after_set(lock_id, currency_id, who, amount),
        )
    }

    /// Whether [`Pallet::extend_lock`] may be called.
    pub fn extend_lock_has_room(
        &self,
        lock_id: LockIdentifier,
        currency_id: CurrencyId,
        who: &AccountId,
        amount: Balance,
    ) -> (r: bool)
        ensures
            r == (amount != 0 ==> self@.update_locks_fits::<T>(
                currency_id,
                *who,
                locks_extended(self@.locks_of(*who, currency_id), lock_id, amount),
            )),
    {
        amount == 0 || self.locks_have_room(
            currency_id,
            who,
            &self.locks_after_extend(lock_id, currency_id, who, amount),
        )
    }

    /// Whether [`Pallet::remove_lock`] may be called.
    pub fn remove_lock_has_room(
        &self,
        lock_id: LockIdentifier,
        currency_id: CurrencyId,
        who: &AccountId,
    ) -> (r: bool)
        ensures
            r == self@.update_locks_fits::<T>(
                currency_id,
                *who,
                locks_without(self@.locks_of(*who, currency_id), lock_id),
            ),
    {
        self.locks_have_room(
            currency_id,
            who,
            &self.locks_after_remove(lock_id, currency_id, who),
        )
    }
}

/// The amount of the native currency that changes hands for a weight, if it can
/// be computed with balances.
fn try_payment(
    quote_price: Balance,
    percent: Balance,
    weight: Balance,
    base_unit: Balance,
    supply: Balance,
) -> (r: Option<Balance>)
    ensures
        r is Some <==> payment_fits(
            quote_price as int,
            percent as int,
            weight as int,
            base_unit as int,
            supply as int,
        ),
        r matches Some(pay) ==> pay == payment(
            quote_price as int,
            percent as int,
            weight as int,
            base_unit as int,
            supply as int,
        ),
{
    if percent == 0 || base_unit == 0 || supply == 0 {
        return None;
    }
    match (quote_price / percent).checked_mul(weight) {
        Some(by_quoted) => match by_quoted.checked_mul(base_unit) {
            Some(convex) => Some(convex / supply / base_unit),
            None => None,
        },
        None => None,
    }
}

// The elastic supply.
impl<T: Config> Pallet<T> {
    /// The ledger after the reserves of the serpers were set, if they can be.
    fn try_serpers_reserve(
        &self,
        native_currency_id: CurrencyId,
        stable_currency_id: CurrencyId,
        native_reserved: Balance,
        stable_reserved: Balance,
    ) -> (r: Option<Pallet<T>>)
        ensures
            ({
                let serpers = T::spec_serper_acc();
                let s = self@.set_reserved::<T>(
                    native_currency_id,
                    serpers,
                    native_reserved as int,
                );
                &&& r is Some <==> self@.set_reserved_fits::<T>(
                    native_currency_id,
                    serpers,
                    native_reserved as int,
                ) && s.set_reserved_fits::<T>(stable_currency_id, serpers, stable_reserved as int)
                &&& r matches Some(after) ==> after@ == s.set_reserved::<T>(
                    stable_currency_id,
                    serpers,
                    stable_reserved as int,
                )
            }),
    {
        let serpers: AccountId = T::serper_acc();
        if !self.set_reserved_has_room(native_currency_id, &serpers, native_reserved) {
            return None;
        }
        let mut after: Pallet<T> = self.duplicate();
        after.set_reserved_balance(native_currency_id, &serpers, native_reserved);
        if !after.set_reserved_has_room(stable_currency_id, &serpers, stable_reserved) {
            return None;
        }
        after.set_reserved_balance(stable_currency_id, &serpers, stable_reserved);
        Some(after)
    }

    /// Whether [`Pallet::expand_supply`] may be called.
    pub fn expand_has_room(
        &self,
        native_currency_id: CurrencyId,
        stable_currency_id: CurrencyId,
        expand_by: Balance,
        quote_price: Balance,
    ) -> (r: bool)
        ensures
            r == self@.expand_fits::<T>(
                native_currency_id,
                stable_currency_id,
                expand_by,
                quote_price,
            ),
    {
        if expand_by == 0 {
            return true;
        }
        let supply: Balance = self.total_issuance(stable_currency_id);
        let percent: Balance = T::percent();
        let quote: Balance = match (supply / expand_by).checked_mul(T::serp_quote_multiple()) {
            Some(quote) => quote,
            None => {
                return false;
            },
        };
        let weight: Balance = match percent.checked_sub(quote) {
            Some(weight) => weight,
            None => {
                return false;
            },
        };
        let pay: Balance = match try_payment(
            quote_price,
            percent,
            weight,
            T::base_unit(stable_currency_id),
            supply,
        ) {
            Some(pay) => pay,
            None => {
                return false;
            },
        };
        let serpers: AccountId = T::serper_acc();
        let native: Balance = match self.reserved_balance(
            native_currency_id,
            &serpers,
        ).checked_sub(pay) {
            Some(native) => native,
            None => {
                return false;
            },
        };
        let stable: Balance = match self.reserved_balance(
            stable_currency_id,
            &serpers,
        ).checked_add(expand_by) {
            Some(stable) => stable,
            None => {
                return false;
            },
        };
        match self.try_serpers_reserve(native_currency_id, stable_currency_id, native, stable) {
            Some(mut after) => match after.total_issuance(native_currency_id).checked_sub(pay) {
                Some(issued) => {
                    after.set_issuance(native_currency_id, issued);
                    after.total_issuance(stable_currency_id).checked_add(expand_by).is_some()
                },
                None => false,
            },
            None => false,
        }
    }

    /// Whether [`Pallet::contract_supply`] may be called.
    pub fn contract_has_room(
        &self,
        native_currency_id: CurrencyId,
        stable_currency_id: CurrencyId,
        contract_by: Balance,
        quote_price: Balance,
    ) -> (r: bool)
        ensures
            r == self@.contract_fits::<T>(
                native_currency_id,
                stable_currency_id,
                contract_by,
                quote_price,
            ),
    {
        if contract_by == 0 {
            return true;
        }
        let supply: Balance = self.total_issuance(stable_currency_id);
        let percent: Balance = T::percent();
        let quote: Balance = match (supply / contract_by).checked_mul(T::serp_quote_multiple()) {
            Some(quote) => quote,
            None => {
                return false;
            },
        };
        let sum: Balance = match percent.checked_add(quote) {
            Some(sum) => sum,
            None => {
                return false;
            },
        };
        let weight: Balance = match percent.checked_sub(quote) {
            Some(difference) => difference,
            None => sum,
        };
        let pay: Balance = match try_payment(
            quote_price,
            percent,
            weight,
            T::base_unit(stable_currency_id),
            supply,
        ) {
            Some(pay) => pay,
            None => {
                return false;
            },
        };
        let serpers: AccountId = T::serper_acc();
        let native: Balance = match self.reserved_balance(
            native_currency_id,
            &serpers,
        ).checked_add(pay) {
            Some(native) => native,
            None => {
                return false;
            },
        };
        let stable: Balance = match self.reserved_balance(
            stable_currency_id,
            &serpers,
        ).checked_sub(contract_by) {
            Some(stable) => stable,
            None => {
                return false;
            },
        };
        match self.try_serpers_reserve(native_currency_id, stable_currency_id, native, stable) {
            Some(mut after) => match after.total_issuance(stable_currency_id).checked_sub(
                contract_by,
            ) {
                Some(issued) => {
                    after.set_issuance(stable_currency_id, issued);
                    after.total_issuance(native_currency_id).checked_add(pay).is_some()
                },
                None => false,
            },
            None => false,
        }
    }

    /// Whether [`Pallet::supply_change`] may be called.
    pub fn supply_change_has_room(&self, currency_id: CurrencyId, new_price: Balance) -> (r: bool)
        ensures
            r == self@.supply_off_fits::<T>(currency_id, new_price),
    {
        Self::base_unit(currency_id) != 0 && new_price.checked_mul(
            self.total_issuance(currency_id),
        ).is_some()
    }

    /// Whether [`Pallet::serp_elast`] may be called.
    pub fn adjust_has_room(
        &self,
        stable_currency_id: CurrencyId,
        stable_currency_price: Balance,
        native_currency_id: CurrencyId,
        native_currency_price: Balance,
    ) -> (r: bool)
        ensures
            r == self@.adjust_fits::<T>(
                stable_currency_id,
                stable_currency_price,
                native_currency_id,
                native_currency_price,
            ),
    {
        let base_unit: Balance = Self::base_unit(stable_currency_id);
        if stable_currency_price == base_unit {
            return true;
        }
        if !self.supply_change_has_room(stable_currency_id, stable_currency_price) {
            return false;
        }
        let change: Balance = self.supply_change(stable_currency_id, stable_currency_price);
        if stable_currency_price > base_unit {
            self.expand_has_room(
                native_currency_id,
                stable_currency_id,
                change,
                native_currency_price,
            )
        } else {
            self.contract_has_room(
                native_currency_id,
                stable_currency_id,
                change,
                native_currency_price,
            )
        }
    }

    /// Whether [`Pallet::on_serp_block`] may be called.
    pub fn serp_block_has_room(
        &self,
        now: BlockNumber,
        stable_currency_id: CurrencyId,
        stable_currency_price: Balance,
        native_currency_id: CurrencyId,
        native_currency_price: Balance,
    ) -> (r: bool)
        ensures
            r == (now + T::spec_adjustment_frequency() <= BlockNumber::MAX && (
            T::spec_adjustment_frequency() == 0 ==> self@.adjust_fits::<T>(
                stable_currency_id,
                stable_currency_price,
                native_currency_id,
                native_currency_price,
            ))),
    {
        let frequency: BlockNumber = T::adjustment_frequency();
        now.checked_add(frequency).is_some() && (frequency != 0 || self.adjust_has_room(
            stable_currency_id,
            stable_currency_price,
            native_currency_id,
            native_currency_price,
        ))
    }
}

// One currency.
impl CurrencyAdapter {
    /// Whether [`CurrencyAdapter::slash`] may be called.
    pub fn slash_has_room<T: Config>(
        &self,
        pallet: &Pallet<T>,
        who: &AccountId,
        value: Balance,
    ) -> (r: bool)
        ensures
            r == (value != 0 ==> pallet@.slash_account_fits::<T>(self.currency_id, *who, value)),
    {
        value == 0 || pallet.try_slash_account(self.currency_id, who, value).is_some()
    }

    /// Whether [`CurrencyAdapter::deposit_into_existing`] and
    /// [`CurrencyAdapter::deposit_creating`] may be called.
    pub fn deposit_has_room<T: Config>(
        &self,
        pallet: &Pallet<T>,
        who: &AccountId,
        value: Balance,
    ) -> (r: bool)
        ensures
            r == pallet@.add_free_fits::<T>(self.currency_id, *who, value),
    {
        if value == 0 {
            return true;
        }
        match pallet.free_balance(self.currency_id, who).checked_add(value) {
            Some(free) => pallet.set_free_has_room(self.currency_id, who, free),
            None => true,
        }
    }

    /// Whether [`CurrencyAdapter::withdraw`] may be called.
    pub fn withdraw_has_room<T: Config>(
        &self,
        pallet: &Pallet<T>,
        who: &AccountId,
        value: Balance,
    ) -> (r: bool)
        ensures
            r == pallet@.take_free_fits::<T>(self.currency_id, *who, value),
    {
        if value == 0 || pallet.ensure_can_withdraw(self.currency_id, who, value).is_err() {
            return true;
        }
        let free: Balance = pallet.free_balance(self.currency_id, who);
        pallet.set_free_has_room(self.currency_id, who, free - value)
    }

    /// Whether [`CurrencyAdapter::make_free_balance_be`] may be called.
    pub fn make_free_has_room<T: Config>(
        &self,
        pallet: &Pallet<T>,
        who: &AccountId,
        value: Balance,
    ) -> (r: bool)
        ensures
            r == pallet@.make_free_fits::<T>(self.currency_id, *who, value),
    {
        let reserved: Balance = pallet.reserved_balance(self.currency_id, who);
        let enough: bool = value.saturating_add(reserved) >= T::existential_deposit(
            self.currency_id,
        );
        if !enough && pallet.stored_account(who, self.currency_id).is_none() {
            return true;
        }
        pallet.set_free_has_room(self.currency_id, who, value)
    }
}

// Merging.
impl<T: Config> Pallet<T> {
    /// Whether [`Pallet::merge_account_in_order`] may be called.
    pub fn merge_has_room(
        &self,
        source: &AccountId,
        dest: &AccountId,
        walk: &Vec<CurrencyId>,
    ) -> (r: bool)
        ensures
            r == self@.merge_fits::<T>(*source, *dest, walk@),
    {
        let ghost start = self@;
        let mut after: Pallet<T> = self.duplicate();
        let mut i: usize = 0;
        assert(walk@.take(0) =~= Seq::empty());
        while i < walk.len()
            invariant
                i <= walk@.len(),
                start == self@,
                start.merge_all::<T>(*source, *dest, walk@.take(i as int)) == Ok::<State, Error>(
                    after@,
                ),
                forall|j: int|
                    0 <= j < i ==> #[trigger] start.merge_step_fits::<T>(
                        *source,
                        *dest,
                        walk@,
                        j,
                    ),
            decreases walk@.len() - i,
        {
            let currency_id: CurrencyId = walk[i];
            let account_data: AccountData = after.accounts(source, currency_id);
            assert(walk@.take(i + 1).drop_last() =~= walk@.take(i as int));
            if account_data.reserved == 0 {
                if !after.transfer_has_room(currency_id, source, dest, account_data.free) {
                    assert(!start.merge_step_fits::<T>(*source, *dest, walk@, i as int));
                    return false;
                }
                if after.currency_transfer(
                    currency_id,
                    source,
                    dest,
                    account_data.free,
                ).is_err() {
                    proof {
                        assert(start.merge_step_fits::<T>(*source, *dest, walk@, i as int));
                        start.lemma_stopped_merge_fits::<T>(*source, *dest, walk@, i + 1);
                    }
                    return true;
                }
            } else {
                proof {
                    assert(start.merge_step_fits::<T>(*source, *dest, walk@, i as int));
                    start.lemma_stopped_merge_fits::<T>(*source, *dest, walk@, i + 1);
                }
                return true;
            }
            i = i + 1;
        }
        true
    }
}

} // verus!
