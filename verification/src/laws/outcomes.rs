//! When an operation succeeds, and why it fails where it does.
use crate::account::AccountId;
use crate::config::Config;
use crate::dispatch::DispatchError;
use crate::state::State;
use crate::types::{Amount, Balance, CurrencyId, Effect, Error, Event};
use vstd::prelude::*;

verus! {

impl State {
    /// What can be withdrawn is exactly what leaves the free balance no smaller
    /// than what is frozen, and nothing at all. What is reserved makes no
    /// difference. What is more than the free balance fails for that, and only
    /// the rest for what is frozen.
    pub proof fn law_withdrawal_succeeds(
        self,
        currency_id: CurrencyId,
        who: AccountId,
        amount: Balance,
    )
        ensures
            ({
                let account = self.account(who, currency_id);
                let r = self.withdrawal(currency_id, who, amount);
                &&& r is Ok <==> amount == 0 || amount + account.frozen <= account.free
                &&& r == Err::<(), Error>(Error::BalanceTooLow) <==> amount != 0 && amount
                    > account.free
                &&& r == Err::<(), Error>(Error::LiquidityRestrictions) <==> amount != 0 && amount
                    <= account.free && amount + account.frozen > account.free
            }),
    {
    }

    /// Whether an amount can be withdrawn depends on the free and the frozen
    /// balance alone, and with an amount every smaller one can be.
    pub proof fn law_withdrawals_compare(
        self,
        other: State,
        currency_id: CurrencyId,
        other_currency_id: CurrencyId,
        who: AccountId,
        somebody: AccountId,
        amount: Balance,
        less: Balance,
    )
        requires
            less <= amount,
            self.account(who, currency_id).free <= other.account(somebody, other_currency_id).free,
            self.account(who, currency_id).frozen >= other.account(
                somebody,
                other_currency_id,
            ).frozen,
        ensures
            self.withdrawal(currency_id, who, amount) is Ok ==> other.withdrawal(
                other_currency_id,
                somebody,
                less,
            ) is Ok,
    {
    }

    /// A transfer succeeds exactly if it moves nothing, or stays with the
    /// account, or the amount can be withdrawn from the sender and added to what
    /// the recipient has free. It fails for the sender before it fails for the
    /// recipient.
    pub proof fn law_transfer_succeeds(
        self,
        currency_id: CurrencyId,
        from: AccountId,
        to: AccountId,
        amount: Balance,
    )
        ensures
            ({
                let source = self.account(from, currency_id);
                let target = self.account(to, currency_id);
                let moves = amount != 0 && from != to;
                let r = self.transfer_outcome(currency_id, from, to, amount);
                &&& r is Ok <==> !moves || (amount + source.frozen <= source.free && target.free
                    + amount <= Balance::MAX)
                &&& r == Err::<(), Error>(Error::BalanceTooLow) <==> moves && amount > source.free
                &&& r == Err::<(), Error>(Error::LiquidityRestrictions) <==> moves && amount
                    <= source.free && amount + source.frozen > source.free
                &&& r == Err::<(), Error>(Error::BalanceOverflow) <==> moves && amount
                    + source.frozen <= source.free && target.free + amount > Balance::MAX
            }),
    {
    }

    /// A call that transfers succeeds exactly if the transfer does, fails for
    /// what the transfer fails for, and announces what it moved, last of all and
    /// only if it succeeds.
    pub proof fn law_transfer_call_succeeds<T: Config>(
        self,
        currency_id: CurrencyId,
        from: AccountId,
        to: AccountId,
        amount: Balance,
    )
        ensures
            ({
                let inner = self.transfer_outcome(currency_id, from, to, amount);
                let r = self.transfer_call_outcome(from, to, currency_id, amount);
                let s = self.transferred::<T>(currency_id, from, to, amount);
                let t = self.transfer_called::<T>(from, to, currency_id, amount);
                &&& r is Ok <==> inner is Ok
                &&& inner matches Err(e) ==> r == Err::<(), DispatchError>(
                    DispatchError::Module(e),
                )
                &&& t.accounts == s.accounts
                &&& t.issuance == s.issuance
                &&& t.locks == s.locks
                &&& r is Err ==> t == self
                &&& r is Ok ==> t.effects == s.effects.push(
                    Effect::Deposit(
                        Event::Transferred(currency_id, from, to, amount),
                    ),
                )
            }),
    {
    }

    /// A deposit succeeds exactly if the total issuance can take it, and fails
    /// for nothing else.
    pub proof fn law_deposit_succeeds(self, currency_id: CurrencyId, amount: Balance)
        ensures
            ({
                let r = self.deposit_outcome(currency_id, amount);
                let fits = self.total_issuance(currency_id) + amount <= Balance::MAX;
                &&& r is Ok <==> fits
                &&& r == Err::<(), Error>(Error::TotalIssuanceOverflow) <==> !fits
            }),
    {
    }

    /// A signed change succeeds exactly if the total issuance can take what it
    /// adds, or what it takes can be withdrawn. The smallest amount takes as much
    /// as the one after it.
    pub proof fn law_update_balance_succeeds<T: Config>(
        self,
        currency_id: CurrencyId,
        who: AccountId,
        by_amount: Amount,
    )
        ensures
            ({
                let account = self.account(who, currency_id);
                let taken = if by_amount == Amount::MIN {
                    Amount::MAX as int
                } else {
                    -by_amount
                };
                let r = self.update_balance_outcome(currency_id, who, by_amount);
                &&& r is Ok <==> {
                    &&& by_amount > 0 ==> self.total_issuance(currency_id) + by_amount
                        <= Balance::MAX
                    &&& by_amount < 0 ==> taken + account.frozen <= account.free
                }
                &&& r == Err::<(), Error>(Error::TotalIssuanceOverflow) <==> by_amount > 0
                    && self.total_issuance(currency_id) + by_amount > Balance::MAX
                &&& r == Err::<(), Error>(Error::BalanceTooLow) <==> by_amount < 0 && taken
                    > account.free
                &&& r == Err::<(), Error>(Error::LiquidityRestrictions) <==> by_amount < 0 && taken
                    <= account.free && taken + account.frozen > account.free
                &&& r is Err ==> self.balance_updated::<T>(currency_id, who, by_amount) == self
                &&& self.balance_updated::<T>(currency_id, who, Amount::MIN)
                    == self.balance_updated::<T>(currency_id, who, (Amount::MIN + 1) as Amount)
                &&& self.update_balance_fits::<T>(currency_id, who, Amount::MIN)
                    == self.update_balance_fits::<T>(currency_id, who, (Amount::MIN + 1) as Amount)
            }),
    {
    }

    /// A balance can be added to a free balance exactly if the sum is one.
    pub proof fn law_adding_succeeds(self, currency_id: CurrencyId, who: AccountId, value: Balance)
        ensures
            self.may_add_free(currency_id, who, value) <==> self.account(who, currency_id).free
                + value <= Balance::MAX,
    {
    }

    /// A free balance can be set exactly if an entry is stored already, or the
    /// existential deposit is reached with what is reserved.
    pub proof fn law_setting_succeeds<T: Config>(
        self,
        currency_id: CurrencyId,
        who: AccountId,
        value: Balance,
    )
        ensures
            self.may_make_free::<T>(currency_id, who, value) <==> self.is_stored(who, currency_id)
                || value + self.account(who, currency_id).reserved >= T::spec_existential_deposit(
                currency_id,
            ),
    {
    }
}

} // verus!
