//! Reserved balances, which stay with their owner but cannot be used.
use crate::account::AccountId;
use crate::config::Config;
use crate::currency::smaller;
use crate::pallet::Pallet;
use crate::state::State;
use crate::types::{AccountData, Balance, BalanceStatus, CurrencyId, Error};
use vstd::prelude::*;

verus! {

impl State {
    /// How much of `value` the reserved balance can give.
    pub open spec fn from_reserve(
        self,
        currency_id: CurrencyId,
        who: AccountId,
        value: Balance,
    ) -> int {
        smaller(self.account(who, currency_id).reserved as int, value as int)
    }

    /// The entry with `value` moved from the free to the reserved balance, or
    /// back if that is negative.
    pub open spec fn reserve_entry(
        self,
        currency_id: CurrencyId,
        who: AccountId,
        value: int,
    ) -> AccountData {
        let account = self.account(who, currency_id);
        AccountData {
            free: (account.free - value) as Balance,
            reserved: (account.reserved + value) as Balance,
            ..account
        }
    }

    /// The ledger after the reserved balance was slashed, which is the same
    /// ledger if nothing is slashed.
    pub open spec fn reserve_slashed<T: Config>(
        self,
        currency_id: CurrencyId,
        who: AccountId,
        value: Balance,
    ) -> State {
        if value == 0 {
            self
        } else {
            let actual = self.from_reserve(currency_id, who, value);
            let s = self.set_reserved::<T>(
                currency_id,
                who,
                self.account(who, currency_id).reserved - actual,
            );
            s.with_issuance(currency_id, s.total_issuance(currency_id) - actual)
        }
    }

    /// Whether slashing the reserved balance stays within what was issued.
    pub open spec fn slash_reserved_fits<T: Config>(
        self,
        currency_id: CurrencyId,
        who: AccountId,
        value: Balance,
    ) -> bool {
        value != 0 ==> {
            let actual = self.from_reserve(currency_id, who, value);
            let left = self.account(who, currency_id).reserved - actual;
            &&& self.set_reserved_fits::<T>(currency_id, who, left)
            &&& actual <= self.set_reserved::<T>(currency_id, who, left).total_issuance(currency_id)
        }
    }

    /// The ledger after `value` was reserved, which is the same ledger if it
    /// could not be or is nothing.
    pub open spec fn reserved<T: Config>(
        self,
        currency_id: CurrencyId,
        who: AccountId,
        value: Balance,
    ) -> State {
        if value == 0 || self.withdrawal(currency_id, who, value) is Err {
            self
        } else {
            self.put_account::<T>(
                who,
                currency_id,
                self.reserve_entry(currency_id, who, value as int),
            )
        }
    }

    /// Whether reserving stays within the limits of a balance and of what was
    /// issued.
    pub open spec fn reserve_fits<T: Config>(
        self,
        currency_id: CurrencyId,
        who: AccountId,
        value: Balance,
    ) -> bool {
        value != 0 && self.withdrawal(currency_id, who, value) is Ok ==> {
            &&& self.account(who, currency_id).reserved + value <= Balance::MAX
            &&& self.put_fits::<T>(
                who,
                currency_id,
                self.reserve_entry(currency_id, who, value as int),
            )
        }
    }

    /// The ledger after up to `value` was unreserved, which is the same ledger
    /// if that is nothing.
    pub open spec fn unreserved<T: Config>(
        self,
        currency_id: CurrencyId,
        who: AccountId,
        value: Balance,
    ) -> State {
        if value == 0 {
            self
        } else {
            self.put_account::<T>(
                who,
                currency_id,
                self.reserve_entry(currency_id, who, -self.from_reserve(currency_id, who, value)),
            )
        }
    }

    /// Whether unreserving stays within the limits of a balance and of what was
    /// issued.
    pub open spec fn unreserve_fits<T: Config>(
        self,
        currency_id: CurrencyId,
        who: AccountId,
        value: Balance,
    ) -> bool {
        value != 0 ==> {
            let actual = self.from_reserve(currency_id, who, value);
            &&& self.account(who, currency_id).free + actual <= Balance::MAX
            &&& self.put_fits::<T>(
                who,
                currency_id,
                self.reserve_entry(currency_id, who, -actual),
            )
        }
    }

    /// The ledger after the beneficiary of a repatriation got its part.
    pub open spec fn beneficiary_paid<T: Config>(
        self,
        currency_id: CurrencyId,
        slashed: AccountId,
        beneficiary: AccountId,
        value: Balance,
        status: BalanceStatus,
    ) -> State {
        let to_account = self.account(beneficiary, currency_id);
        let actual = self.from_reserve(currency_id, slashed, value);
        match status {
            BalanceStatus::Free => self.set_free::<T>(
                currency_id,
                beneficiary,
                to_account.free + actual,
            ),
            BalanceStatus::Reserved => self.set_reserved::<T>(
                currency_id,
                beneficiary,
                to_account.reserved + actual,
            ),
        }
    }

    /// The ledger after up to `value` of the reserved balance of `slashed` went
    /// to `beneficiary`. It is the same ledger if the value is zero, or if the
    /// two are one account and the balance would be reserved again.
    pub open spec fn repatriated<T: Config>(
        self,
        currency_id: CurrencyId,
        slashed: AccountId,
        beneficiary: AccountId,
        value: Balance,
        status: BalanceStatus,
    ) -> State {
        if value == 0 {
            self
        } else if slashed == beneficiary {
            match status {
                BalanceStatus::Free => self.unreserved::<T>(currency_id, slashed, value),
                BalanceStatus::Reserved => self,
            }
        } else {
            self.beneficiary_paid::<T>(
                currency_id,
                slashed,
                beneficiary,
                value,
                status,
            ).set_reserved::<T>(
                currency_id,
                slashed,
                self.account(slashed, currency_id).reserved - self.from_reserve(
                    currency_id,
                    slashed,
                    value,
                ),
            )
        }
    }

    /// Whether a repatriation stays within the limits of a balance and of what
    /// was issued.
    pub open spec fn repatriate_fits<T: Config>(
        self,
        currency_id: CurrencyId,
        slashed: AccountId,
        beneficiary: AccountId,
        value: Balance,
        status: BalanceStatus,
    ) -> bool {
        if value == 0 {
            true
        } else if slashed == beneficiary {
            status is Free ==> self.unreserve_fits::<T>(currency_id, slashed, value)
        } else {
            let to_account = self.account(beneficiary, currency_id);
            let actual = self.from_reserve(currency_id, slashed, value);
            &&& match status {
                BalanceStatus::Free => self.set_free_fits::<T>(
                    currency_id,
                    beneficiary,
                    to_account.free + actual,
                ),
                BalanceStatus::Reserved => self.set_reserved_fits::<T>(
                    currency_id,
                    beneficiary,
                    to_account.reserved + actual,
                ),
            }
            &&& self.beneficiary_paid::<T>(
                currency_id,
                slashed,
                beneficiary,
                value,
                status,
            ).set_reserved_fits::<T>(
                currency_id,
                slashed,
                self.account(slashed, currency_id).reserved - actual,
            )
        }
    }
}

impl<T: Config> Pallet<T> {
    /// Check if `who` can reserve `value` from their free balance.
    ///
    /// Always `true` if value to be reserved is zero.
    pub fn can_reserve(&self, currency_id: CurrencyId, who: &AccountId, value: Balance) -> (r: bool)
        ensures
            r == (self@.withdrawal(currency_id, *who, value) is Ok),
    {
        if value == 0 {
            return true;
        }
        self.ensure_can_withdraw(currency_id, who, value).is_ok()
    }

    /// The amount of the balance of a given account that is reserved.
    pub fn reserved_balance(&self, currency_id: CurrencyId, who: &AccountId) -> (r: Balance)
        ensures
            r == self@.account(*who, currency_id).reserved,
    {
        self.accounts(who, currency_id).reserved
    }

    /// How much of `value` the reserved balance of `who` can give.
    pub(crate) fn available_reserve(&self, currency_id: CurrencyId, who: &AccountId, value: Balance) -> (r:
        Balance)
        ensures
            r == self@.from_reserve(currency_id, *who, value),
    {
        let reserved: Balance = self.reserved_balance(currency_id, who);
        if reserved <= value {
            reserved
        } else {
            value
        }
    }

    /// Set free and reserved balance of `who` to new values, both at once.
    fn set_balances(
        &mut self,
        currency_id: CurrencyId,
        who: &AccountId,
        free: Balance,
        reserved: Balance,
    )
        requires
            old(self)@.put_fits::<T>(
                *who,
                currency_id,
                (AccountData { free, reserved, ..old(self)@.account(*who, currency_id) }),
            ),
        ensures
            final(self)@ == old(self)@.put_account::<T>(
                *who,
                currency_id,
                (AccountData { free, reserved, ..old(self)@.account(*who, currency_id) }),
            ),
    {
        let f = |account: AccountData, _existed: bool| -> (out: (AccountData, ()))
            ensures
                out.0 == (AccountData { free, reserved, ..account }),
            { (AccountData { free, reserved, ..account }, ()) };
        self.mutate_account(who, currency_id, f);
    }

    /// Slash from reserved balance, returning any amount that was unable to be
    /// slashed.
    ///
    /// Is a no-op if the value to be slashed is zero.
    pub fn slash_reserved(
        &mut self,
        currency_id: CurrencyId,
        who: &AccountId,
        value: Balance,
    ) -> (r: Balance)
        requires
            old(self)@.slash_reserved_fits::<T>(currency_id, *who, value),
        ensures
            r == value - old(self)@.from_reserve(currency_id, *who, value),
            final(self)@ == old(self)@.reserve_slashed::<T>(currency_id, *who, value),
    {
        if value == 0 {
            return value;
        }
        let reserved_balance: Balance = self.reserved_balance(currency_id, who);
        let actual: Balance = self.available_reserve(currency_id, who, value);
        self.set_reserved_balance(currency_id, who, reserved_balance - actual);
        self.set_issuance(currency_id, self.total_issuance(currency_id) - actual);
        value - actual
    }

    /// Move `value` from the free balance from `who` to their reserved balance.
    ///
    /// Is a no-op if value to be reserved is zero.
    pub fn reserve(&mut self, currency_id: CurrencyId, who: &AccountId, value: Balance) -> (r:
        Result<(), Error>)
        requires
            old(self)@.reserve_fits::<T>(currency_id, *who, value),
        ensures
            r == old(self)@.withdrawal(currency_id, *who, value),
            final(self)@ == old(self)@.reserved::<T>(currency_id, *who, value),
    {
        if value == 0 {
            return Ok(());
        }
        match self.ensure_can_withdraw(currency_id, who, value) {
            Ok(()) => {},
            Err(e) => {
                return Err(e);
            },
        }
        let account: AccountData = self.accounts(who, currency_id);
        // Cannot overflow as long as total issuance is using the same balance type
        // and this doesn't increase total issuance
        self.set_balances(currency_id, who, account.free - value, account.reserved + value);
        Ok(())
    }

    /// Unreserve some funds, returning any amount that was unable to be
    /// unreserved.
    ///
    /// Is a no-op if the value to be unreserved is zero.
    pub fn unreserve(&mut self, currency_id: CurrencyId, who: &AccountId, value: Balance) -> (r:
        Balance)
        requires
            old(self)@.unreserve_fits::<T>(currency_id, *who, value),
        ensures
            r == value - old(self)@.from_reserve(currency_id, *who, value),
            final(self)@ == old(self)@.unreserved::<T>(currency_id, *who, value),
    {
        if value == 0 {
            return value;
        }
        let account: AccountData = self.accounts(who, currency_id);
        let actual: Balance = self.available_reserve(currency_id, who, value);
        self.set_balances(currency_id, who, account.free + actual, account.reserved - actual);
        value - actual
    }

    /// Move the reserved balance of one account into the balance of another,
    /// according to `status`. Returns the part of `value` that was not reserved.
    ///
    /// Is a no-op if:
    /// - the value to be moved is zero; or
    /// - the `slashed` id equal to `beneficiary` and the `status` is `Reserved`.
    pub fn repatriate_reserved(
        &mut self,
        currency_id: CurrencyId,
        slashed: &AccountId,
        beneficiary: &AccountId,
        value: Balance,
        status: BalanceStatus,
    ) -> (r: Result<Balance, Error>)
        requires
            old(self)@.repatriate_fits::<T>(currency_id, *slashed, *beneficiary, value, status),
        ensures
            r is Ok,
            r->Ok_0 == value - old(self)@.from_reserve(currency_id, *slashed, value),
            final(self)@ == old(self)@.repatriated::<T>(
                currency_id,
                *slashed,
                *beneficiary,
                value,
                status,
            ),
    {
        if value == 0 {
            return Ok(value);
        }
        if slashed.same(beneficiary) {
            return match status {
                BalanceStatus::Free => Ok(self.unreserve(currency_id, slashed, value)),
                BalanceStatus::Reserved => Ok(
                    value.saturating_sub(self.reserved_balance(currency_id, slashed)),
                ),
            };
        }
        let from_account: AccountData = self.accounts(slashed, currency_id);
        let to_account: AccountData = self.accounts(beneficiary, currency_id);
        let actual: Balance = self.available_reserve(currency_id, slashed, value);
        match status {
            BalanceStatus::Free => {
                self.set_free_balance(currency_id, beneficiary, to_account.free + actual);
            },
            BalanceStatus::Reserved => {
                self.set_reserved_balance(currency_id, beneficiary, to_account.reserved + actual);
            },
        }
        self.set_reserved_balance(currency_id, slashed, from_account.reserved - actual);
        Ok(value - actual)
    }
}

} // verus!
