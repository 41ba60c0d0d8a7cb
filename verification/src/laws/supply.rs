//! No operation that settles the total issuance issues or destroys anything but
//! what it says, but for a change of supply that is paid for with the currency
//! itself.
use crate::account::AccountId;
use crate::config::Config;
use crate::currency::magnitude;
use crate::genesis::{endowed_once, endowed_total};
use crate::laws::backing::under;
use crate::state::State;
use crate::storage::key;
use crate::types::{AccountData, Amount, Balance, BalanceLock, BalanceStatus, CurrencyId};
use vstd::prelude::*;

verus! {

// Transfers.
impl State {
    /// A transfer changes what is held of no currency.
    pub proof fn law_transfer_keeps_backing<T: Config>(
        self,
        currency_id: CurrencyId,
        from: AccountId,
        to: AccountId,
        amount: Balance,
    )
        requires
            self.accounts.dom().finite(),
            self.transfer_fits::<T>(currency_id, from, to, amount),
        ensures
            ({
                let t = self.transferred::<T>(currency_id, from, to, amount);
                &&& t.accounts.dom().finite()
                &&& forall|c: CurrencyId| #[trigger] t.excess(c) == self.excess(c)
                &&& self.is_backed() ==> t.is_backed()
            }),
    {
        if amount != 0 && from != to && self.transfer_outcome(currency_id, from, to, amount) is Ok {
            let account = self.account(from, currency_id);
            let left = AccountData { free: (account.free - amount) as Balance, ..account };
            let s = self.put_account::<T>(from, currency_id, left);
            self.lemma_put_backing::<T>(from, currency_id, left);
            let target = s.account(to, currency_id);
            let more = AccountData { free: (target.free + amount) as Balance, ..target };
            s.lemma_put_backing::<T>(to, currency_id, more);
        }
    }

    /// A call that transfers changes what is held of no currency.
    pub proof fn law_transfer_call_keeps_backing<T: Config>(
        self,
        from: AccountId,
        to: AccountId,
        currency_id: CurrencyId,
        amount: Balance,
    )
        requires
            self.accounts.dom().finite(),
            self.transfer_fits::<T>(currency_id, from, to, amount),
        ensures
            ({
                let t = self.transfer_called::<T>(from, to, currency_id, amount);
                &&& t.accounts.dom().finite()
                &&& forall|c: CurrencyId| #[trigger] t.excess(c) == self.excess(c)
                &&& self.is_backed() ==> t.is_backed()
            }),
    {
        let s = self.transferred::<T>(currency_id, from, to, amount);
        let t = self.transfer_called::<T>(from, to, currency_id, amount);
        self.law_transfer_keeps_backing::<T>(currency_id, from, to, amount);
        assert forall|c: CurrencyId| #[trigger] t.excess(c) == self.excess(c) by {
            assert(s.excess(c) == self.excess(c));
        }
    }
}

// Issuing and taking back.
impl State {
    /// A deposit issues what it adds to the account.
    pub proof fn law_deposit_keeps_backing<T: Config>(
        self,
        currency_id: CurrencyId,
        who: AccountId,
        amount: Balance,
    )
        requires
            self.accounts.dom().finite(),
            self.deposit_fits::<T>(currency_id, who, amount),
        ensures
            ({
                let t = self.deposited::<T>(currency_id, who, amount);
                &&& t.accounts.dom().finite()
                &&& forall|c: CurrencyId| #[trigger] t.excess(c) == self.excess(c)
                &&& self.is_backed() ==> t.is_backed()
            }),
    {
        if amount != 0 && self.deposit_outcome(currency_id, amount) is Ok {
            let issued = self.total_issuance(currency_id) + amount;
            let s = self.with_issuance(currency_id, issued);
            self.lemma_issuance_backing(currency_id, issued);
            let account = self.account(who, currency_id);
            assert(s.account(who, currency_id) == account);
            s.lemma_put_backing::<T>(
                who,
                currency_id,
                AccountData { free: (account.free + amount) as Balance, ..account },
            );
        }
    }

    /// A withdrawal takes out of circulation what it takes from the account.
    pub proof fn law_withdrawal_keeps_backing<T: Config>(
        self,
        currency_id: CurrencyId,
        who: AccountId,
        amount: Balance,
    )
        requires
            self.accounts.dom().finite(),
            self.withdraw_fits::<T>(currency_id, who, amount),
        ensures
            ({
                let t = self.withdrawn::<T>(currency_id, who, amount);
                &&& t.accounts.dom().finite()
                &&& forall|c: CurrencyId| #[trigger] t.excess(c) == self.excess(c)
                &&& self.is_backed() ==> t.is_backed()
            }),
    {
        if amount != 0 && self.withdrawal(currency_id, who, amount) is Ok {
            let issued = self.total_issuance(currency_id) - amount;
            let s = self.with_issuance(currency_id, issued);
            self.lemma_issuance_backing(currency_id, issued);
            let account = self.account(who, currency_id);
            assert(s.account(who, currency_id) == account);
            s.lemma_put_backing::<T>(
                who,
                currency_id,
                AccountData { free: (account.free - amount) as Balance, ..account },
            );
        }
    }

    /// A signed change of a balance issues or takes out of circulation what it
    /// adds to or takes from the account.
    pub proof fn law_update_balance_keeps_backing<T: Config>(
        self,
        currency_id: CurrencyId,
        who: AccountId,
        by_amount: Amount,
    )
        requires
            self.accounts.dom().finite(),
            self.update_balance_fits::<T>(currency_id, who, by_amount),
        ensures
            ({
                let t = self.balance_updated::<T>(currency_id, who, by_amount);
                &&& t.accounts.dom().finite()
                &&& forall|c: CurrencyId| #[trigger] t.excess(c) == self.excess(c)
                &&& self.is_backed() ==> t.is_backed()
            }),
    {
        if by_amount > 0 {
            self.law_deposit_keeps_backing::<T>(currency_id, who, magnitude(by_amount));
        } else if by_amount < 0 {
            self.law_withdrawal_keeps_backing::<T>(currency_id, who, magnitude(by_amount));
        }
    }
}

// Slashing.
impl State {
    /// Slashing an account leaves issued exactly what it takes.
    pub proof fn law_slash_account_leaves_issued<T: Config>(
        self,
        currency_id: CurrencyId,
        who: AccountId,
        amount: Balance,
    )
        requires
            self.accounts.dom().finite(),
            self.slash_account_fits::<T>(currency_id, who, amount),
        ensures
            ({
                let t = self.slashed_account::<T>(currency_id, who, amount);
                let taken = amount - self.unslashed(currency_id, who, amount);
                &&& t.accounts.dom().finite()
                &&& forall|c: CurrencyId| #[trigger]
                    t.excess(c) == self.excess(c) + under(currency_id, c, taken)
            }),
    {
        let account = self.account(who, currency_id);
        let part = self.free_slash(currency_id, who, amount);
        let s = self.slashed_free::<T>(currency_id, who, amount);
        let left = AccountData { free: (account.free - part) as Balance, ..account };
        if part != 0 {
            self.lemma_put_entries::<T>(who, currency_id, left);
            self.lemma_put_backing::<T>(who, currency_id, left);
        }
        if part != amount {
            let rest = AccountData {
                reserved: (account.reserved - self.reserved_slash(currency_id, who, amount)) as Balance,
                ..s.account(who, currency_id)
            };
            s.lemma_put_backing::<T>(who, currency_id, rest);
        }
    }

    /// A slash takes out of circulation what it takes from the account.
    pub proof fn law_slash_keeps_backing<T: Config>(
        self,
        currency_id: CurrencyId,
        who: AccountId,
        amount: Balance,
    )
        requires
            self.accounts.dom().finite(),
            self.slash_fits::<T>(currency_id, who, amount),
        ensures
            ({
                let t = self.slashed::<T>(currency_id, who, amount);
                &&& t.accounts.dom().finite()
                &&& forall|c: CurrencyId| #[trigger] t.excess(c) == self.excess(c)
                &&& self.is_backed() ==> t.is_backed()
            }),
    {
        if amount != 0 {
            let s = self.slashed_account::<T>(currency_id, who, amount);
            self.law_slash_account_leaves_issued::<T>(currency_id, who, amount);
            s.lemma_issuance_backing(
                currency_id,
                s.total_issuance(currency_id) - (amount - self.unslashed(currency_id, who, amount)),
            );
        }
    }

    /// A slash of the reserved balance takes out of circulation what it takes
    /// from the account.
    pub proof fn law_slash_reserved_keeps_backing<T: Config>(
        self,
        currency_id: CurrencyId,
        who: AccountId,
        value: Balance,
    )
        requires
            self.accounts.dom().finite(),
            self.slash_reserved_fits::<T>(currency_id, who, value),
        ensures
            ({
                let t = self.reserve_slashed::<T>(currency_id, who, value);
                &&& t.accounts.dom().finite()
                &&& forall|c: CurrencyId| #[trigger] t.excess(c) == self.excess(c)
                &&& self.is_backed() ==> t.is_backed()
            }),
    {
        if value != 0 {
            let account = self.account(who, currency_id);
            let actual = self.from_reserve(currency_id, who, value);
            let left = AccountData { reserved: (account.reserved - actual) as Balance, ..account };
            let s = self.put_account::<T>(who, currency_id, left);
            self.lemma_put_backing::<T>(who, currency_id, left);
            s.lemma_issuance_backing(currency_id, s.total_issuance(currency_id) - actual);
        }
    }
}

// Reserving.
impl State {
    /// Reserving changes what is held of no currency.
    pub proof fn law_reserve_keeps_backing<T: Config>(
        self,
        currency_id: CurrencyId,
        who: AccountId,
        value: Balance,
    )
        requires
            self.accounts.dom().finite(),
            self.reserve_fits::<T>(currency_id, who, value),
        ensures
            ({
                let t = self.reserved::<T>(currency_id, who, value);
                &&& t.accounts.dom().finite()
                &&& forall|c: CurrencyId| #[trigger] t.excess(c) == self.excess(c)
                &&& self.is_backed() ==> t.is_backed()
            }),
    {
        if value != 0 && self.withdrawal(currency_id, who, value) is Ok {
            self.lemma_put_backing::<T>(
                who,
                currency_id,
                self.reserve_entry(currency_id, who, value as int),
            );
        }
    }

    /// Unreserving changes what is held of no currency.
    pub proof fn law_unreserve_keeps_backing<T: Config>(
        self,
        currency_id: CurrencyId,
        who: AccountId,
        value: Balance,
    )
        requires
            self.accounts.dom().finite(),
            self.unreserve_fits::<T>(currency_id, who, value),
        ensures
            ({
                let t = self.unreserved::<T>(currency_id, who, value);
                &&& t.accounts.dom().finite()
                &&& forall|c: CurrencyId| #[trigger] t.excess(c) == self.excess(c)
                &&& self.is_backed() ==> t.is_backed()
            }),
    {
        if value != 0 {
            self.lemma_put_backing::<T>(
                who,
                currency_id,
                self.reserve_entry(currency_id, who, -self.from_reserve(currency_id, who, value)),
            );
        }
    }

    /// A repatriation changes what is held of no currency.
    pub proof fn law_repatriate_keeps_backing<T: Config>(
        self,
        currency_id: CurrencyId,
        slashed: AccountId,
        beneficiary: AccountId,
        value: Balance,
        status: BalanceStatus,
    )
        requires
            self.accounts.dom().finite(),
            self.repatriate_fits::<T>(currency_id, slashed, beneficiary, value, status),
        ensures
            ({
                let t = self.repatriated::<T>(currency_id, slashed, beneficiary, value, status);
                &&& t.accounts.dom().finite()
                &&& forall|c: CurrencyId| #[trigger] t.excess(c) == self.excess(c)
                &&& self.is_backed() ==> t.is_backed()
            }),
    {
        if slashed == beneficiary {
            if value != 0 && status is Free {
                self.law_unreserve_keeps_backing::<T>(currency_id, slashed, value);
            }
        } else if value != 0 {
            let from_account = self.account(slashed, currency_id);
            let to_account = self.account(beneficiary, currency_id);
            let actual = self.from_reserve(currency_id, slashed, value);
            let paid = match status {
                BalanceStatus::Free => AccountData {
                    free: (to_account.free + actual) as Balance,
                    ..to_account
                },
                BalanceStatus::Reserved => AccountData {
                    reserved: (to_account.reserved + actual) as Balance,
                    ..to_account
                },
            };
            let s = self.put_account::<T>(beneficiary, currency_id, paid);
            self.lemma_put_entries::<T>(beneficiary, currency_id, paid);
            self.lemma_put_backing::<T>(beneficiary, currency_id, paid);
            s.lemma_put_backing::<T>(
                slashed,
                currency_id,
                AccountData {
                    reserved: (from_account.reserved - actual) as Balance,
                    ..s.account(slashed, currency_id)
                },
            );
        }
    }
}

// Locks.
impl State {
    /// A change of locks changes what is held of no currency.
    pub proof fn law_locks_keep_backing<T: Config>(
        self,
        currency_id: CurrencyId,
        who: AccountId,
        locks: Seq<BalanceLock>,
    )
        requires
            self.accounts.dom().finite(),
            self.update_locks_fits::<T>(currency_id, who, locks),
        ensures
            ({
                let t = self.update_locks::<T>(currency_id, who, locks);
                &&& t.accounts.dom().finite()
                &&& forall|c: CurrencyId| #[trigger] t.excess(c) == self.excess(c)
                &&& self.is_backed() ==> t.is_backed()
            }),
    {
        let account = self.locked_account(who, currency_id, locks);
        let s = self.put_account::<T>(who, currency_id, account);
        self.lemma_put_backing::<T>(who, currency_id, account);
        assert(s.write_locks(who, currency_id, locks).accounts == s.accounts);
        assert(s.write_locks(who, currency_id, locks).issuance == s.issuance);
        assert forall|c: CurrencyId| #[trigger]
            self.update_locks::<T>(currency_id, who, locks).excess(c) == self.excess(c) by {
            assert(s.excess(c) == self.excess(c));
        }
    }
}

// The elastic supply.
impl State {
    /// Changing the reserves of the serpers and both supplies by as much keeps
    /// two different currencies backed. Of one currency, the native change is
    /// made to the supply alone.
    proof fn lemma_serpers_backing<T: Config>(
        self,
        native_currency_id: CurrencyId,
        stable_currency_id: CurrencyId,
        native_change: int,
        stable_change: int,
    )
        requires
            self.accounts.dom().finite(),
            self.serpers_reserve_fits::<T>(
                native_currency_id,
                stable_currency_id,
                native_change,
                stable_change,
            ),
        ensures
            ({
                let t = self.serpers_reserve::<T>(
                    native_currency_id,
                    stable_currency_id,
                    native_change,
                    stable_change,
                );
                &&& t.accounts.dom().finite()
                &&& forall|c: CurrencyId| #[trigger]
                    t.excess(c) == self.excess(c) - under(stable_currency_id, c, stable_change)
                        - under(
                        native_currency_id,
                        c,
                        if native_currency_id == stable_currency_id {
                            0
                        } else {
                            native_change
                        },
                    )
            }),
    {
        let serpers = T::spec_serper_acc();
        let native = self.account(serpers, native_currency_id);
        let stable = self.account(serpers, stable_currency_id);
        let changed = AccountData {
            reserved: (native.reserved + native_change) as Balance,
            ..native
        };
        let s = self.put_account::<T>(serpers, native_currency_id, changed);
        self.lemma_put_entries::<T>(serpers, native_currency_id, changed);
        self.lemma_put_backing::<T>(serpers, native_currency_id, changed);
        s.lemma_put_backing::<T>(
            serpers,
            stable_currency_id,
            AccountData {
                reserved: (stable.reserved + stable_change) as Balance,
                ..s.account(serpers, stable_currency_id)
            },
        );
    }

    /// An expansion issues what it adds to the reserve, and takes out of
    /// circulation what is paid for it. Were a currency to pay for itself, it
    /// would be paid for by the supply alone.
    pub proof fn law_expansion_keeps_backing<T: Config>(
        self,
        native_currency_id: CurrencyId,
        stable_currency_id: CurrencyId,
        expand_by: Balance,
        quote_price: Balance,
    )
        requires
            self.accounts.dom().finite(),
            self.expand_fits::<T>(native_currency_id, stable_currency_id, expand_by, quote_price),
        ensures
            ({
                let t = self.expanded::<T>(
                    native_currency_id,
                    stable_currency_id,
                    expand_by,
                    quote_price,
                );
                let off = if expand_by != 0 && native_currency_id == stable_currency_id {
                    self.expansion_payment::<T>(stable_currency_id, expand_by, quote_price)
                } else {
                    0
                };
                &&& t.accounts.dom().finite()
                &&& forall|c: CurrencyId| #[trigger]
                    t.excess(c) == self.excess(c) - under(native_currency_id, c, off)
                &&& self.is_backed() && off == 0 ==> t.is_backed()
            }),
    {
        if expand_by != 0 {
            let pay = self.expansion_payment::<T>(stable_currency_id, expand_by, quote_price);
            self.lemma_serpers_backing::<T>(
                native_currency_id,
                stable_currency_id,
                -pay,
                expand_by as int,
            );
            let s = self.serpers_reserve::<T>(
                native_currency_id,
                stable_currency_id,
                -pay,
                expand_by as int,
            );
            s.lemma_issuance_backing(
                native_currency_id,
                s.total_issuance(native_currency_id) - pay,
            );
            let u = s.change_issuance(native_currency_id, -pay);
            u.lemma_issuance_backing(
                stable_currency_id,
                u.total_issuance(stable_currency_id) + expand_by,
            );
        }
    }

    /// A contraction takes out of circulation what it takes from the reserve,
    /// and issues what it pays for it. Were a currency to be paid for with
    /// itself, the supply alone would be.
    pub proof fn law_contraction_keeps_backing<T: Config>(
        self,
        native_currency_id: CurrencyId,
        stable_currency_id: CurrencyId,
        contract_by: Balance,
        quote_price: Balance,
    )
        requires
            self.accounts.dom().finite(),
            self.contract_fits::<T>(
                native_currency_id,
                stable_currency_id,
                contract_by,
                quote_price,
            ),
        ensures
            ({
                let t = self.contracted::<T>(
                    native_currency_id,
                    stable_currency_id,
                    contract_by,
                    quote_price,
                );
                let off = if contract_by != 0 && native_currency_id == stable_currency_id {
                    self.contraction_payment::<T>(stable_currency_id, contract_by, quote_price)
                } else {
                    0
                };
                &&& t.accounts.dom().finite()
                &&& forall|c: CurrencyId| #[trigger]
                    t.excess(c) == self.excess(c) + under(native_currency_id, c, off)
                &&& self.is_backed() && off == 0 ==> t.is_backed()
            }),
    {
        if contract_by != 0 {
            let pay = self.contraction_payment::<T>(stable_currency_id, contract_by, quote_price);
            let less = -(contract_by as int);
            self.lemma_serpers_backing::<T>(native_currency_id, stable_currency_id, pay, less);
            let s = self.serpers_reserve::<T>(native_currency_id, stable_currency_id, pay, less);
            s.lemma_issuance_backing(
                stable_currency_id,
                s.total_issuance(stable_currency_id) + less,
            );
            let u = s.change_issuance(stable_currency_id, less);
            u.lemma_issuance_backing(
                native_currency_id,
                u.total_issuance(native_currency_id) + pay,
            );
        }
    }

    /// An adjustment of the supply of one currency, paid for with another, keeps
    /// every currency backed.
    pub proof fn law_adjustment_keeps_backing<T: Config>(
        self,
        stable_currency_id: CurrencyId,
        stable_currency_price: Balance,
        native_currency_id: CurrencyId,
        native_currency_price: Balance,
    )
        requires
            self.accounts.dom().finite(),
            native_currency_id != stable_currency_id,
            self.adjust_fits::<T>(
                stable_currency_id,
                stable_currency_price,
                native_currency_id,
                native_currency_price,
            ),
        ensures
            ({
                let t = self.adjusted::<T>(
                    stable_currency_id,
                    stable_currency_price,
                    native_currency_id,
                    native_currency_price,
                );
                &&& t.accounts.dom().finite()
                &&& forall|c: CurrencyId| #[trigger] t.excess(c) == self.excess(c)
                &&& self.is_backed() ==> t.is_backed()
            }),
    {
        let base_unit = T::spec_base_unit(stable_currency_id);
        let change = self.supply_off::<T>(stable_currency_id, stable_currency_price);
        if stable_currency_price > base_unit {
            self.law_expansion_keeps_backing::<T>(
                native_currency_id,
                stable_currency_id,
                change,
                native_currency_price,
            );
        } else if stable_currency_price < base_unit {
            self.law_contraction_keeps_backing::<T>(
                native_currency_id,
                stable_currency_id,
                change,
                native_currency_price,
            );
        }
    }
}

// Merging.
impl State {
    /// A merge changes what is held of no currency, whichever order it goes in:
    /// it empties what it moves from, so that no dust is left there.
    pub proof fn law_merge_keeps_backing<T: Config>(
        self,
        source: AccountId,
        dest: AccountId,
        walk: Seq<CurrencyId>,
    )
        requires
            self.accounts.dom().finite(),
            self.merge_fits::<T>(source, dest, walk),
        ensures
            ({
                let t = self.merged::<T>(source, dest, walk);
                &&& t.accounts.dom().finite()
                &&& forall|c: CurrencyId| #[trigger] t.excess(c) == self.excess(c)
                &&& self.is_backed() ==> t.is_backed()
            }),
    {
        self.lemma_merge_all_backing::<T>(source, dest, walk, walk.len() as int);
        assert(walk.take(walk.len() as int) =~= walk);
    }

    /// As far as a merge gets, it changes what is held of no currency.
    pub proof fn lemma_merge_all_backing<T: Config>(
        self,
        source: AccountId,
        dest: AccountId,
        walk: Seq<CurrencyId>,
        i: int,
    )
        requires
            0 <= i <= walk.len(),
            self.accounts.dom().finite(),
            self.merge_fits::<T>(source, dest, walk),
        ensures
            self.merge_all::<T>(source, dest, walk.take(i)) matches Ok(t) ==> {
                &&& t.accounts.dom().finite()
                &&& forall|c: CurrencyId| #[trigger] t.excess(c) == self.excess(c)
            },
        decreases i,
    {
        if i > 0 {
            self.lemma_merge_all_backing::<T>(source, dest, walk, i - 1);
            assert(walk.take(i).drop_last() =~= walk.take(i - 1));
            if let Ok(s) = self.merge_all::<T>(source, dest, walk.take(i - 1)) {
                let c = walk[i - 1];
                let account = s.account(source, c);
                assert(self.merge_step_fits::<T>(source, dest, walk, i - 1));
                if account.reserved == 0 {
                    s.law_transfer_keeps_backing::<T>(c, source, dest, account.free);
                }
            }
        }
    }
}

/// Nobody is endowed twice among the first if nobody is among all.
proof fn lemma_front_endowed_once(endowed: Seq<(AccountId, CurrencyId, Balance)>)
    requires
        endowed_once(endowed),
        endowed.len() > 0,
    ensures
        endowed_once(endowed.drop_last()),
{
    let front = endowed.drop_last();
    assert forall|i: int, j: int| 0 <= i < j < front.len() implies key(
        (#[trigger] front[i]).0,
        front[i].1,
    ) != key((#[trigger] front[j]).0, front[j].1) by {
        assert(endowed[i] == front[i] && endowed[j] == front[j]);
    }
}

// The first entries.
impl State {
    /// A ledger that starts with some endowed accounts holds exactly what they
    /// are endowed with, and has issued exactly that.
    pub proof fn law_genesis_endows<T: Config>(
        endowed: Seq<(AccountId, CurrencyId, Balance)>,
        i: int,
        currency_id: CurrencyId,
    )
        requires
            State::empty().genesis_outcome::<T>(endowed) is Ok,
            0 <= i < endowed.len(),
        ensures
            ({
                let t = State::empty().endowed::<T>(endowed);
                &&& t.account(endowed[i].0, endowed[i].1) == (AccountData {
                    free: endowed[i].2,
                    ..AccountData::empty()
                })
                &&& t.total_issuance(currency_id) == endowed_total(endowed, currency_id)
            }),
        decreases endowed.len(),
    {
        State::empty().lemma_endowed_issuance::<T>(endowed, currency_id);
        let front = endowed.drop_last();
        let (who, c, initial_balance) = endowed.last();
        lemma_front_endowed_once(endowed);
        State::lemma_genesis_backing::<T>(front);
        let s = State::empty().endowed::<T>(front);
        let account = AccountData { free: initial_balance, ..s.account(who, c) };
        assert(account.spec_total() >= initial_balance);
        s.lemma_put_entries::<T>(who, c, account);
        let u = s.put_account::<T>(who, c, account);
        let t = State::empty().endowed::<T>(endowed);
        assert(t.accounts == u.accounts);
        if i < front.len() {
            assert(front[i] == endowed[i]);
            State::law_genesis_endows::<T>(front, i, currency_id);
            assert(endowed[endowed.len() - 1] == endowed.last());
            assert(key(endowed[i].0, endowed[i].1) != key(who, c));
            assert(u.account(endowed[i].0, endowed[i].1) == s.account(endowed[i].0, endowed[i].1));
        } else {
            assert(s.account(who, c) == AccountData::empty()) by {
                if s.account(who, c) != AccountData::empty() {
                    let j = choose|j: int|
                        0 <= j < front.len() && (#[trigger] front[j]).0 == who && front[j].1 == c;
                    assert(endowed[j] == front[j]);
                    assert(key(endowed[j].0, endowed[j].1) == key(who, c));
                }
            }
        }
    }

    /// A ledger that starts with some endowed accounts is backed.
    pub proof fn law_genesis_is_backed<T: Config>(
        endowed: Seq<(AccountId, CurrencyId, Balance)>,
    )
        requires
            State::empty().genesis_outcome::<T>(endowed) is Ok,
        ensures
            State::empty().endowed::<T>(endowed).is_backed(),
    {
        State::lemma_genesis_backing::<T>(endowed);
    }

    /// A ledger that starts with some endowed accounts is backed, and holds no
    /// entry but theirs.
    proof fn lemma_genesis_backing<T: Config>(endowed: Seq<(AccountId, CurrencyId, Balance)>)
        requires
            endowed_once(endowed),
            State::empty().endowment_outcome::<T>(endowed) is Ok,
        ensures
            State::empty().endowed::<T>(endowed).is_backed(),
            State::empty().endowed::<T>(endowed).locks == State::empty().locks,
            forall|w: AccountId, c: CurrencyId| #[trigger]
                State::empty().endowed::<T>(endowed).account(w, c) != AccountData::empty()
                    ==> exists|i: int|
                    0 <= i < endowed.len() && (#[trigger] endowed[i]).0 == w && endowed[i].1 == c,
        decreases endowed.len(),
    {
        let t = State::empty().endowed::<T>(endowed);
        if endowed.len() == 0 {
            assert forall|c: CurrencyId| #[trigger] t.excess(c) == 0 by {}
        } else {
            let front = endowed.drop_last();
            let (who, currency_id, initial_balance) = endowed.last();
            lemma_front_endowed_once(endowed);
            State::lemma_genesis_backing::<T>(front);
            let s = State::empty().endowed::<T>(front);
            assert(s.account(who, currency_id) == AccountData::empty()) by {
                if s.account(who, currency_id) != AccountData::empty() {
                    let i = choose|i: int|
                        0 <= i < front.len() && (#[trigger] front[i]).0 == who && front[i].1
                            == currency_id;
                    assert(endowed[i] == front[i]);
                    assert(endowed[endowed.len() - 1] == endowed.last());
                    assert(key(endowed[i].0, endowed[i].1) == key(who, currency_id));
                }
            }
            let account = AccountData { free: initial_balance, ..s.account(who, currency_id) };
            assert(account.spec_total() == initial_balance);
            let u = s.put_account::<T>(who, currency_id, account);
            s.lemma_put_entries::<T>(who, currency_id, account);
            s.lemma_put_backing::<T>(who, currency_id, account);
            State::empty().lemma_endowed_issuance::<T>(front, currency_id);
            u.lemma_issuance_backing(
                currency_id,
                u.total_issuance(currency_id) + initial_balance,
            );
            assert forall|c: CurrencyId| #[trigger] t.excess(c) == 0 by {
                assert(s.excess(c) == 0);
            }
            assert forall|w: AccountId, c: CurrencyId| #[trigger]
                t.account(w, c) != AccountData::empty() implies exists|i: int|
                0 <= i < endowed.len() && (#[trigger] endowed[i]).0 == w && endowed[i].1 == c by {
                if w == who && c == currency_id {
                    assert(endowed[endowed.len() - 1].0 == w);
                } else {
                    assert(u.account(w, c) == s.account(w, c));
                    let i = choose|i: int|
                        0 <= i < front.len() && (#[trigger] front[i]).0 == w && front[i].1 == c;
                    assert(endowed[i] == front[i]);
                }
            }
        }
    }
}

} // verus!
