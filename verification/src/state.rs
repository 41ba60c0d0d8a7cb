//! The mathematical model of a ledger, and the steps that operations are made
//! of.
use crate::account::AccountId;
use crate::config::Config;
use crate::dust::DustHandler;
use crate::lockable::{larger, largest_lock};
use crate::storage::{key, AccountKey};
use crate::types::{AccountData, Balance, BalanceLock, CurrencyId, Effect, Error, Event};
use vstd::prelude::*;

verus! {

/// What a ledger holds.
#[verifier::ext_equal]
pub struct State {
    /// The entries of the accounts that are stored.
    pub accounts: Map<AccountKey, AccountData>,
    /// The total issuance of the currencies for which one was written.
    pub issuance: Map<CurrencyId, Balance>,
    /// The locks of the balances that have any.
    pub locks: Map<AccountKey, Seq<BalanceLock>>,
    /// The work handed to the system so far.
    pub effects: Seq<Effect>,
}

// What is read.
impl State {
    /// A ledger in which nothing was ever written.
    pub open spec fn empty() -> State {
        State {
            accounts: Map::empty(),
            issuance: Map::empty(),
            locks: Map::empty(),
            effects: Seq::empty(),
        }
    }

    /// Whether an entry is stored for the account.
    pub open spec fn is_stored(self, who: AccountId, currency_id: CurrencyId) -> bool {
        self.accounts.contains_key(key(who, currency_id))
    }

    /// The entry of the account, empty if none is stored.
    pub open spec fn account(self, who: AccountId, currency_id: CurrencyId) -> AccountData {
        if self.is_stored(who, currency_id) {
            self.accounts[key(who, currency_id)]
        } else {
            AccountData::empty()
        }
    }

    /// The total issuance of a currency.
    pub open spec fn total_issuance(self, currency_id: CurrencyId) -> Balance {
        if self.issuance.contains_key(currency_id) {
            self.issuance[currency_id]
        } else {
            0
        }
    }

    /// The locks on a balance.
    pub open spec fn locks_of(self, who: AccountId, currency_id: CurrencyId) -> Seq<BalanceLock> {
        if self.locks.contains_key(key(who, currency_id)) {
            self.locks[key(who, currency_id)]
        } else {
            Seq::empty()
        }
    }

    /// Whether a sequence goes through the currencies under which an entry is
    /// stored for the account, each once, in whatever order.
    pub open spec fn walks(self, who: AccountId, walk: Seq<CurrencyId>) -> bool {
        &&& walk.no_duplicates()
        &&& forall|c: CurrencyId| #[trigger] walk.contains(c) <==> self.is_stored(who, c)
    }

    /// Whether `amount` can be withdrawn from the free balance, and if not, why
    /// not. Nothing can always be withdrawn.
    pub open spec fn withdrawal(
        self,
        currency_id: CurrencyId,
        who: AccountId,
        amount: Balance,
    ) -> Result<(), Error> {
        let account = self.account(who, currency_id);
        if amount == 0 {
            Ok(())
        } else if account.free < amount {
            Err(Error::BalanceTooLow)
        } else if account.free - amount < account.frozen {
            Err(Error::LiquidityRestrictions)
        } else {
            Ok(())
        }
    }

    /// Whether a transfer succeeds, and if not, why not. A transfer of nothing,
    /// or from an account to itself, always does.
    pub open spec fn transfer_outcome(
        self,
        currency_id: CurrencyId,
        from: AccountId,
        to: AccountId,
        amount: Balance,
    ) -> Result<(), Error> {
        if amount == 0 || from == to {
            Ok(())
        } else if self.withdrawal(currency_id, from, amount) is Err {
            self.withdrawal(currency_id, from, amount)
        } else if self.account(to, currency_id).free + amount > Balance::MAX {
            Err(Error::BalanceOverflow)
        } else {
            Ok(())
        }
    }
}

// What is written, one thing at a time.
impl State {
    /// With one more piece of work for the system.
    pub open spec fn with_effect(self, effect: Effect) -> State {
        State { effects: self.effects.push(effect), ..self }
    }

    /// With one more event.
    pub open spec fn with_event(self, event: Event) -> State {
        self.with_effect(Effect::Deposit(event))
    }

    /// With another total issuance of a currency.
    pub open spec fn with_issuance(self, currency_id: CurrencyId, amount: int) -> State {
        State { issuance: self.issuance.insert(currency_id, amount as Balance), ..self }
    }

    /// An entry as it is stored. One that was not stored before is frozen up to
    /// the largest of the locks on its balance, if it is not frozen further.
    pub open spec fn bound(
        self,
        who: AccountId,
        currency_id: CurrencyId,
        account: AccountData,
    ) -> AccountData {
        if self.is_stored(who, currency_id) {
            account
        } else {
            AccountData {
                frozen: larger(account.frozen, largest_lock(self.locks_of(who, currency_id))),
                ..account
            }
        }
    }

    /// With another entry for an account. An entry is stored exactly if its
    /// total is not zero, and the system counts the entries that are stored.
    pub open spec fn write_account(
        self,
        who: AccountId,
        currency_id: CurrencyId,
        account: AccountData,
    ) -> State {
        let k = key(who, currency_id);
        if account.spec_total() == 0 {
            let s = State { accounts: self.accounts.remove(k), ..self };
            if self.is_stored(who, currency_id) {
                s.with_effect(Effect::DecProviders(who))
            } else {
                s
            }
        } else {
            let s = State {
                accounts: self.accounts.insert(k, self.bound(who, currency_id, account)),
                ..self
            };
            if self.is_stored(who, currency_id) {
                s
            } else {
                s.with_effect(Effect::IncProviders(who))
            }
        }
    }
}

// The locks.
impl State {
    /// With other locks on a balance. The system counts the balances that have
    /// any.
    pub open spec fn write_locks(
        self,
        who: AccountId,
        currency_id: CurrencyId,
        locks: Seq<BalanceLock>,
    ) -> State {
        let k = key(who, currency_id);
        let existed = self.locks.contains_key(k);
        if locks.len() == 0 {
            let s = State { locks: self.locks.remove(k), ..self };
            if existed {
                s.with_effect(Effect::DecConsumers(who))
            } else {
                s
            }
        } else {
            let s = State { locks: self.locks.insert(k, locks), ..self };
            if existed {
                s
            } else {
                s.with_effect(Effect::IncConsumers(who))
            }
        }
    }
}

/// Whether an entry is dust: more than nothing, less than the existential
/// deposit, and not that of a module.
pub open spec fn is_dust<T: Config>(
    who: AccountId,
    currency_id: CurrencyId,
    account: AccountData,
) -> bool {
    0 < account.spec_total() < T::spec_existential_deposit(currency_id) && !who.is_module()
}

// What becomes of dust.
impl State {
    /// With another entry for an account, and an event if that is dust. The dust
    /// stays.
    pub open spec fn record_account<T: Config>(
        self,
        who: AccountId,
        currency_id: CurrencyId,
        account: AccountData,
    ) -> State {
        let s = self.write_account(who, currency_id, account);
        if is_dust::<T>(who, currency_id, account) {
            s.with_event(Event::DustLost(who, currency_id, account.spec_total()))
        } else {
            s
        }
    }

    /// With `amount` moved from the free balance of `who` to that of
    /// `receiver`, if that can be done.
    pub open spec fn sweep_to<T: Config>(
        self,
        currency_id: CurrencyId,
        who: AccountId,
        receiver: AccountId,
        amount: Balance,
    ) -> State {
        if amount == 0 || who == receiver || self.transfer_outcome(
            currency_id,
            who,
            receiver,
            amount,
        ) is Err {
            self
        } else {
            let from = self.account(who, currency_id);
            let to_free = self.account(receiver, currency_id).free + amount;
            let s = self.record_account::<T>(
                who,
                currency_id,
                AccountData { free: (from.free - amount) as Balance, ..from },
            );
            s.record_account::<T>(
                receiver,
                currency_id,
                AccountData { free: to_free as Balance, ..s.account(receiver, currency_id) },
            )
        }
    }

    /// With `amount` taken from the free balance of `who` and from the total
    /// issuance, if that can be done.
    pub open spec fn sweep_away<T: Config>(
        self,
        currency_id: CurrencyId,
        who: AccountId,
        amount: Balance,
    ) -> State {
        if amount == 0 || self.withdrawal(currency_id, who, amount) is Err {
            self
        } else {
            let from = self.account(who, currency_id);
            self.with_issuance(currency_id, self.total_issuance(currency_id) - amount).record_account::<
                T,
            >(who, currency_id, AccountData { free: (from.free - amount) as Balance, ..from })
        }
    }

    /// With the dust of `who` handled. If it cannot be handled it stays, and
    /// could still be recycled.
    pub open spec fn handle_dust<T: Config>(
        self,
        who: AccountId,
        currency_id: CurrencyId,
        amount: Balance,
    ) -> State {
        match T::spec_on_dust() {
            DustHandler::Ignore => self,
            DustHandler::Transfer(h) => self.sweep_to::<T>(currency_id, who, h.receiver, amount),
            DustHandler::Burn(_) => self.sweep_away::<T>(currency_id, who, amount),
            DustHandler::Report => self.with_effect(Effect::HandleDust(who, currency_id, amount)),
        }
    }

    /// Whether the dust of `who` can be handled without taking more out of
    /// circulation than was ever issued.
    pub open spec fn dust_fits<T: Config>(
        self,
        who: AccountId,
        currency_id: CurrencyId,
        amount: Balance,
    ) -> bool {
        T::spec_on_dust() is Burn && amount != 0 && self.withdrawal(currency_id, who, amount) is Ok
            ==> amount <= self.total_issuance(currency_id)
    }

    /// With another entry for an account, and its dust handled if it is dust.
    pub open spec fn put_account<T: Config>(
        self,
        who: AccountId,
        currency_id: CurrencyId,
        account: AccountData,
    ) -> State {
        let s = self.write_account(who, currency_id, account);
        if is_dust::<T>(who, currency_id, account) {
            s.handle_dust::<T>(who, currency_id, account.spec_total()).with_event(
                Event::DustLost(who, currency_id, account.spec_total()),
            )
        } else {
            s
        }
    }

    /// Whether [`State::put_account`] stays within what was issued.
    pub open spec fn put_fits<T: Config>(
        self,
        who: AccountId,
        currency_id: CurrencyId,
        account: AccountData,
    ) -> bool {
        is_dust::<T>(who, currency_id, account) ==> self.write_account(
            who,
            currency_id,
            account,
        ).dust_fits::<T>(who, currency_id, account.spec_total())
    }

    /// The entry of an account with another free balance.
    pub open spec fn free_entry(
        self,
        currency_id: CurrencyId,
        who: AccountId,
        amount: int,
    ) -> AccountData {
        AccountData { free: amount as Balance, ..self.account(who, currency_id) }
    }

    /// The entry of an account with another reserved balance.
    pub open spec fn reserved_entry(
        self,
        currency_id: CurrencyId,
        who: AccountId,
        amount: int,
    ) -> AccountData {
        AccountData { reserved: amount as Balance, ..self.account(who, currency_id) }
    }

    /// With another free balance of an account.
    pub open spec fn set_free<T: Config>(
        self,
        currency_id: CurrencyId,
        who: AccountId,
        amount: int,
    ) -> State {
        self.put_account::<T>(who, currency_id, self.free_entry(currency_id, who, amount))
    }

    /// Whether [`State::set_free`] stays within the limits of the types and of
    /// what was issued.
    pub open spec fn set_free_fits<T: Config>(
        self,
        currency_id: CurrencyId,
        who: AccountId,
        amount: int,
    ) -> bool {
        &&& 0 <= amount <= Balance::MAX
        &&& self.put_fits::<T>(who, currency_id, self.free_entry(currency_id, who, amount))
    }

    /// With another reserved balance of an account.
    pub open spec fn set_reserved<T: Config>(
        self,
        currency_id: CurrencyId,
        who: AccountId,
        amount: int,
    ) -> State {
        self.put_account::<T>(who, currency_id, self.reserved_entry(currency_id, who, amount))
    }

    /// Whether [`State::set_reserved`] stays within the limits of the types and
    /// of what was issued.
    pub open spec fn set_reserved_fits<T: Config>(
        self,
        currency_id: CurrencyId,
        who: AccountId,
        amount: int,
    ) -> bool {
        &&& 0 <= amount <= Balance::MAX
        &&& self.put_fits::<T>(who, currency_id, self.reserved_entry(currency_id, who, amount))
    }
}

} // verus!
