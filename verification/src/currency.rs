//! Balances of many currencies: reading, moving, issuing and slashing them.
use crate::account::AccountId;
use crate::config::Config;
use crate::pallet::Pallet;
use crate::state::State;
use crate::types::{AccountData, Amount, Balance, CurrencyId, Error};
use vstd::prelude::*;

verus! {

/// The smaller of two numbers.
pub open spec fn smaller(a: int, b: int) -> int {
    if a <= b {
        a
    } else {
        b
    }
}

/// How far a change goes, up or down. The largest change down counts as the
/// largest change up.
pub open spec fn magnitude(by_amount: Amount) -> Balance {
    if by_amount == Amount::MIN {
        Amount::MAX as Balance
    } else if by_amount < 0 {
        (-by_amount) as Balance
    } else {
        by_amount as Balance
    }
}

// Transfers.
impl State {
    /// The ledger after a transfer, which is the same ledger if the transfer
    /// fails or moves nothing.
    pub open spec fn transferred<T: Config>(
        self,
        currency_id: CurrencyId,
        from: AccountId,
        to: AccountId,
        amount: Balance,
    ) -> State {
        if amount == 0 || from == to || self.transfer_outcome(currency_id, from, to, amount) is Err {
            self
        } else {
            let s = self.set_free::<T>(
                currency_id,
                from,
                self.account(from, currency_id).free - amount,
            );
            s.set_free::<T>(currency_id, to, s.account(to, currency_id).free + amount)
        }
    }

    /// Whether a transfer stays within the limits of a balance and of what was
    /// issued.
    pub open spec fn transfer_fits<T: Config>(
        self,
        currency_id: CurrencyId,
        from: AccountId,
        to: AccountId,
        amount: Balance,
    ) -> bool {
        amount != 0 && from != to && self.transfer_outcome(currency_id, from, to, amount) is Ok ==> {
            let from_free = self.account(from, currency_id).free - amount;
            let s = self.set_free::<T>(currency_id, from, from_free);
            &&& self.set_free_fits::<T>(currency_id, from, from_free)
            &&& s.set_free_fits::<T>(currency_id, to, s.account(to, currency_id).free + amount)
        }
    }
}

// Issuing and taking back.
impl State {
    /// Whether a deposit succeeds, and if not, why not.
    pub open spec fn deposit_outcome(self, currency_id: CurrencyId, amount: Balance) -> Result<
        (),
        Error,
    > {
        if self.total_issuance(currency_id) + amount > Balance::MAX {
            Err(Error::TotalIssuanceOverflow)
        } else {
            Ok(())
        }
    }

    /// The ledger after a deposit, which is the same ledger if the deposit fails
    /// or is of nothing.
    pub open spec fn deposited<T: Config>(
        self,
        currency_id: CurrencyId,
        who: AccountId,
        amount: Balance,
    ) -> State {
        if amount == 0 || self.deposit_outcome(currency_id, amount) is Err {
            self
        } else {
            self.with_issuance(
                currency_id,
                self.total_issuance(currency_id) + amount,
            ).set_free::<T>(currency_id, who, self.account(who, currency_id).free + amount)
        }
    }

    /// Whether a deposit stays within the limits of a balance and of what was
    /// issued.
    pub open spec fn deposit_fits<T: Config>(
        self,
        currency_id: CurrencyId,
        who: AccountId,
        amount: Balance,
    ) -> bool {
        amount != 0 && self.deposit_outcome(currency_id, amount) is Ok ==> self.with_issuance(
            currency_id,
            self.total_issuance(currency_id) + amount,
        ).set_free_fits::<T>(currency_id, who, self.account(who, currency_id).free + amount)
    }

    /// The ledger after a withdrawal, which is the same ledger if the withdrawal
    /// fails or is of nothing.
    pub open spec fn withdrawn<T: Config>(
        self,
        currency_id: CurrencyId,
        who: AccountId,
        amount: Balance,
    ) -> State {
        if amount == 0 || self.withdrawal(currency_id, who, amount) is Err {
            self
        } else {
            self.with_issuance(
                currency_id,
                self.total_issuance(currency_id) - amount,
            ).set_free::<T>(currency_id, who, self.account(who, currency_id).free - amount)
        }
    }

    /// Whether a withdrawal stays within what was issued.
    pub open spec fn withdraw_fits<T: Config>(
        self,
        currency_id: CurrencyId,
        who: AccountId,
        amount: Balance,
    ) -> bool {
        amount != 0 && self.withdrawal(currency_id, who, amount) is Ok ==> {
            let issued = self.total_issuance(currency_id) - amount;
            &&& issued >= 0
            &&& self.with_issuance(currency_id, issued).set_free_fits::<T>(
                currency_id,
                who,
                self.account(who, currency_id).free - amount,
            )
        }
    }
}

// Changing by a signed amount.
impl State {
    /// Whether a signed change of a balance succeeds, and if not, why not.
    pub open spec fn update_balance_outcome(
        self,
        currency_id: CurrencyId,
        who: AccountId,
        by_amount: Amount,
    ) -> Result<(), Error> {
        if by_amount == 0 {
            Ok(())
        } else if by_amount > 0 {
            self.deposit_outcome(currency_id, magnitude(by_amount))
        } else {
            self.withdrawal(currency_id, who, magnitude(by_amount))
        }
    }

    /// The ledger after a signed change of a balance: a deposit if it goes up, a
    /// withdrawal if it goes down.
    pub open spec fn balance_updated<T: Config>(
        self,
        currency_id: CurrencyId,
        who: AccountId,
        by_amount: Amount,
    ) -> State {
        if by_amount == 0 {
            self
        } else if by_amount > 0 {
            self.deposited::<T>(currency_id, who, magnitude(by_amount))
        } else {
            self.withdrawn::<T>(currency_id, who, magnitude(by_amount))
        }
    }

    /// Whether a signed change of a balance stays within the limits of a balance
    /// and of what was issued.
    pub open spec fn update_balance_fits<T: Config>(
        self,
        currency_id: CurrencyId,
        who: AccountId,
        by_amount: Amount,
    ) -> bool {
        &&& by_amount > 0 ==> self.deposit_fits::<T>(currency_id, who, magnitude(by_amount))
        &&& by_amount < 0 ==> self.withdraw_fits::<T>(currency_id, who, magnitude(by_amount))
    }
}

// Slashing.
impl State {
    /// How much of `amount` the free balance can give.
    pub open spec fn free_slash(
        self,
        currency_id: CurrencyId,
        who: AccountId,
        amount: Balance,
    ) -> int {
        smaller(self.account(who, currency_id).free as int, amount as int)
    }

    /// How much of what the free balance cannot give the reserved balance can.
    pub open spec fn reserved_slash(
        self,
        currency_id: CurrencyId,
        who: AccountId,
        amount: Balance,
    ) -> int {
        smaller(
            self.account(who, currency_id).reserved as int,
            amount - self.free_slash(currency_id, who, amount),
        )
    }

    /// How much of `amount` neither balance can give.
    pub open spec fn unslashed(
        self,
        currency_id: CurrencyId,
        who: AccountId,
        amount: Balance,
    ) -> int {
        amount - self.free_slash(currency_id, who, amount) - self.reserved_slash(
            currency_id,
            who,
            amount,
        )
    }

    /// The ledger after the free balance gave its part of a slash.
    pub open spec fn slashed_free<T: Config>(
        self,
        currency_id: CurrencyId,
        who: AccountId,
        amount: Balance,
    ) -> State {
        let part = self.free_slash(currency_id, who, amount);
        if part == 0 {
            self
        } else {
            self.set_free::<T>(currency_id, who, self.account(who, currency_id).free - part)
        }
    }

    /// The ledger after both balances gave their part of a slash, the total
    /// issuance left as it was.
    pub open spec fn slashed_account<T: Config>(
        self,
        currency_id: CurrencyId,
        who: AccountId,
        amount: Balance,
    ) -> State {
        let s = self.slashed_free::<T>(currency_id, who, amount);
        if self.free_slash(currency_id, who, amount) == amount {
            s
        } else {
            s.set_reserved::<T>(
                currency_id,
                who,
                self.account(who, currency_id).reserved - self.reserved_slash(
                    currency_id,
                    who,
                    amount,
                ),
            )
        }
    }

    /// Whether [`State::slashed_account`] stays within what was issued.
    pub open spec fn slash_account_fits<T: Config>(
        self,
        currency_id: CurrencyId,
        who: AccountId,
        amount: Balance,
    ) -> bool {
        let free_part = self.free_slash(currency_id, who, amount);
        &&& free_part != 0 ==> self.set_free_fits::<T>(
            currency_id,
            who,
            self.account(who, currency_id).free - free_part,
        )
        &&& free_part != amount ==> self.slashed_free::<T>(
            currency_id,
            who,
            amount,
        ).set_reserved_fits::<T>(
            currency_id,
            who,
            self.account(who, currency_id).reserved - self.reserved_slash(currency_id, who, amount),
        )
    }

    /// The ledger after a slash, which is the same ledger if nothing is slashed.
    pub open spec fn slashed<T: Config>(
        self,
        currency_id: CurrencyId,
        who: AccountId,
        amount: Balance,
    ) -> State {
        if amount == 0 {
            self
        } else {
            let s = self.slashed_account::<T>(currency_id, who, amount);
            s.with_issuance(
                currency_id,
                s.total_issuance(currency_id) - (amount - self.unslashed(currency_id, who, amount)),
            )
        }
    }

    /// Whether a slash stays within what was issued.
    pub open spec fn slash_fits<T: Config>(
        self,
        currency_id: CurrencyId,
        who: AccountId,
        amount: Balance,
    ) -> bool {
        amount != 0 ==> {
            &&& self.slash_account_fits::<T>(currency_id, who, amount)
            &&& amount - self.unslashed(currency_id, who, amount) <= self.slashed_account::<T>(
                currency_id,
                who,
                amount,
            ).total_issuance(currency_id)
        }
    }
}

// Reading.
impl<T: Config> Pallet<T> {
    /// The base unit of `currency_id`.
    pub fn base_unit(currency_id: CurrencyId) -> (r: Balance)
        ensures
            r == T::spec_base_unit(currency_id),
    {
        T::base_unit(currency_id)
    }

    /// Existential deposit of `currency_id`.
    pub fn minimum_balance(currency_id: CurrencyId) -> (r: Balance)
        ensures
            r == T::spec_existential_deposit(currency_id),
    {
        T::existential_deposit(currency_id)
    }

    /// The combined balance of `who` under `currency_id`.
    pub fn total_balance(&self, currency_id: CurrencyId, who: &AccountId) -> (r: Balance)
        ensures
            r == self@.account(*who, currency_id).spec_total(),
    {
        self.accounts(who, currency_id).total()
    }

    /// The free balance of `who` under `currency_id`.
    pub fn free_balance(&self, currency_id: CurrencyId, who: &AccountId) -> (r: Balance)
        ensures
            r == self@.account(*who, currency_id).free,
    {
        self.accounts(who, currency_id).free
    }

    /// Ensure that an account can withdraw from their free balance given any
    /// existing withdrawal restrictions like locks and vesting balance.
    /// Is a no-op if amount to be withdrawn is zero.
    pub fn ensure_can_withdraw(
        &self,
        currency_id: CurrencyId,
        who: &AccountId,
        amount: Balance,
    ) -> (r: Result<(), Error>)
        ensures
            r == self@.withdrawal(currency_id, *who, amount),
    {
        if amount == 0 {
            return Ok(());
        }
        match self.free_balance(currency_id, who).checked_sub(amount) {
            Some(new_balance) => {
                if new_balance >= self.accounts(who, currency_id).frozen() {
                    Ok(())
                } else {
                    Err(Error::LiquidityRestrictions)
                }
            },
            None => Err(Error::BalanceTooLow),
        }
    }

    /// Check if `value` amount of free balance can be slashed from `who`.
    pub fn can_slash(&self, currency_id: CurrencyId, who: &AccountId, value: Balance) -> (r: bool)
        ensures
            r == (value <= self@.account(*who, currency_id).free),
    {
        if value == 0 {
            return true;
        }
        self.free_balance(currency_id, who) >= value
    }
}

// Moving, issuing and slashing.
impl<T: Config> Pallet<T> {
    /// Transfer some free balance from `from` to `to`.
    /// Is a no-op if value to be transferred is zero or the `from` is the same
    /// as `to`.
    pub fn currency_transfer(
        &mut self,
        currency_id: CurrencyId,
        from: &AccountId,
        to: &AccountId,
        amount: Balance,
    ) -> (r: Result<(), Error>)
        requires
            old(self)@.transfer_fits::<T>(currency_id, *from, *to, amount),
        ensures
            r == old(self)@.transfer_outcome(currency_id, *from, *to, amount),
            final(self)@ == old(self)@.transferred::<T>(currency_id, *from, *to, amount),
    {
        if amount == 0 || from.same(to) {
            return Ok(());
        }
        match self.ensure_can_withdraw(currency_id, from, amount) {
            Ok(()) => {},
            Err(e) => {
                return Err(e);
            },
        }
        let from_balance: Balance = self.free_balance(currency_id, from);
        if self.free_balance(currency_id, to).checked_add(amount).is_none() {
            return Err(Error::BalanceOverflow);
        }
        // Cannot underflow because ensure_can_withdraw check
        self.set_free_balance(currency_id, from, from_balance - amount);
        // The balance of the recipient is read anew: dust of the sender may have gone there
        let to_balance: Balance = self.free_balance(currency_id, to);
        self.set_free_balance(currency_id, to, to_balance + amount);
        Ok(())
    }

    /// Deposit some `amount` into the free balance of account `who`.
    ///
    /// Is a no-op if the `amount` to be deposited is zero.
    pub fn deposit(&mut self, currency_id: CurrencyId, who: &AccountId, amount: Balance) -> (r:
        Result<(), Error>)
        requires
            old(self)@.deposit_fits::<T>(currency_id, *who, amount),
        ensures
            r == old(self)@.deposit_outcome(currency_id, amount),
            final(self)@ == old(self)@.deposited::<T>(currency_id, *who, amount),
    {
        if amount == 0 {
            return Ok(());
        }
        match self.total_issuance(currency_id).checked_add(amount) {
            Some(issued) => {
                self.set_issuance(currency_id, issued);
                let free: Balance = self.free_balance(currency_id, who);
                self.set_free_balance(currency_id, who, free + amount);
                Ok(())
            },
            None => Err(Error::TotalIssuanceOverflow),
        }
    }

    /// Remove `amount` from the balance of `who` under `currency_id` and reduce
    /// total issuance.
    pub fn withdraw(&mut self, currency_id: CurrencyId, who: &AccountId, amount: Balance) -> (r:
        Result<(), Error>)
        requires
            old(self)@.withdraw_fits::<T>(currency_id, *who, amount),
        ensures
            r == old(self)@.withdrawal(currency_id, *who, amount),
            final(self)@ == old(self)@.withdrawn::<T>(currency_id, *who, amount),
    {
        if amount == 0 {
            return Ok(());
        }
        match self.ensure_can_withdraw(currency_id, who, amount) {
            Ok(()) => {},
            Err(e) => {
                return Err(e);
            },
        }
        // Cannot underflow because ensure_can_withdraw check
        self.set_issuance(currency_id, self.total_issuance(currency_id) - amount);
        let free: Balance = self.free_balance(currency_id, who);
        self.set_free_balance(currency_id, who, free - amount);
        Ok(())
    }

    /// Takes up to `amount` from an account, from the free balance first, and
    /// returns what it could not take. The total issuance stays as it is.
    pub(crate) fn slash_account(
        &mut self,
        currency_id: CurrencyId,
        who: &AccountId,
        amount: Balance,
    ) -> (r: Balance)
        requires
            old(self)@.slash_account_fits::<T>(currency_id, *who, amount),
        ensures
            r == old(self)@.unslashed(currency_id, *who, amount),
            final(self)@ == old(self)@.slashed_account::<T>(currency_id, *who, amount),
    {
        let account: AccountData = self.accounts(who, currency_id);
        let free_slashed_amount: Balance = if account.free <= amount {
            account.free
        } else {
            amount
        };
        // Cannot underflow because free_slashed_amount can never be greater than amount
        let mut remaining_slash: Balance = amount - free_slashed_amount;
        // slash free balance
        if free_slashed_amount != 0 {
            // Cannot underflow because free_slashed_amount can never be greater than
            // account.free
            self.set_free_balance(currency_id, who, account.free - free_slashed_amount);
        }
        // slash reserved balance
        if remaining_slash != 0 {
            let reserved_slashed_amount: Balance = if account.reserved <= remaining_slash {
                account.reserved
            } else {
                remaining_slash
            };
            // Cannot underflow due to above line
            remaining_slash = remaining_slash - reserved_slashed_amount;
            self.set_reserved_balance(
                currency_id,
                who,
                account.reserved - reserved_slashed_amount,
            );
        }
        remaining_slash
    }

    /// Is a no-op if `amount` to be slashed is zero.
    ///
    /// NOTE: `slash()` prefers free balance, but assumes that reserve balance
    /// can be drawn from in extreme circumstances. `can_slash()` should be used
    /// prior to `slash()` to avoid having to draw from reserved funds, however
    /// we err on the side of punishment if things are inconsistent or
    /// `can_slash` wasn't used appropriately.
    pub fn slash(&mut self, currency_id: CurrencyId, who: &AccountId, amount: Balance) -> (r:
        Balance)
        requires
            old(self)@.slash_fits::<T>(currency_id, *who, amount),
        ensures
            r == old(self)@.unslashed(currency_id, *who, amount),
            final(self)@ == old(self)@.slashed::<T>(currency_id, *who, amount),
    {
        if amount == 0 {
            return amount;
        }
        let remaining_slash: Balance = self.slash_account(currency_id, who, amount);
        self.set_issuance(
            currency_id,
            self.total_issuance(currency_id) - (amount - remaining_slash),
        );
        remaining_slash
    }

    /// Add or remove abs(`by_amount`) from the balance of `who` under
    /// `currency_id`. If positive `by_amount`, do add, else do remove.
    pub fn update_balance(
        &mut self,
        currency_id: CurrencyId,
        who: &AccountId,
        by_amount: Amount,
    ) -> (r: Result<(), Error>)
        requires
            old(self)@.update_balance_fits::<T>(currency_id, *who, by_amount),
        ensures
            r == old(self)@.update_balance_outcome(currency_id, *who, by_amount),
            final(self)@ == old(self)@.balance_updated::<T>(currency_id, *who, by_amount),
    {
        if by_amount == 0 {
            return Ok(());
        }
        // Ensure this doesn't overflow.
        let by_amount_abs: Amount = if by_amount == Amount::MIN {
            Amount::MAX
        } else if by_amount < 0 {
            -by_amount
        } else {
            by_amount
        };
        let by_balance: Balance = by_amount_abs as Balance;
        if by_amount > 0 {
            self.deposit(currency_id, who, by_balance)
        } else {
            self.withdraw(currency_id, who, by_balance)
        }
    }
}

} // verus!
