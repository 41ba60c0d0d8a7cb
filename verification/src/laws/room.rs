//! On a ledger that is backed, the operations that settle the total issuance
//! stay within the limits of a balance and of what was issued: all of them
//! without exception but a change of supply, which the serpers have to be able
//! to pay for. Of those that leave an imbalance, adding to or setting a free
//! balance may burn dust that was not issued yet.
use crate::account::AccountId;
use crate::config::Config;
use crate::currency::magnitude;
use crate::dispatch::{parties, LookupError, Origin};
use crate::laws::backing::holding_of;
use crate::laws::sums::{contribution, lemma_one_at_most_all, lemma_two_at_most_all};
use crate::serp::{
    contraction_weight, expansion_weight, lemma_payment_not_negative, payment_fits,
};
use crate::state::State;
use crate::storage::key;
use crate::types::{AccountData, Amount, Balance, BalanceLock, BalanceStatus, CurrencyId};
use vstd::prelude::*;

verus! {

// What accounts hold is within what was issued.
impl State {
    /// No account holds more than was issued.
    pub proof fn law_holding_within_issuance(self, who: AccountId, currency_id: CurrencyId)
        requires
            self.is_backed(),
        ensures
            self.account(who, currency_id).holding() <= self.total_issuance(currency_id),
            self.account(who, currency_id).spec_total() == self.account(
                who,
                currency_id,
            ).holding(),
    {
        let weight = holding_of(currency_id);
        lemma_one_at_most_all(self.accounts, weight, key(who, currency_id));
        assert(contribution(self.accounts, weight, key(who, currency_id)) == self.account(
            who,
            currency_id,
        ).holding());
        assert(self.excess(currency_id) == 0);
    }

    /// No two accounts together hold more than was issued.
    pub proof fn law_two_holdings_within_issuance(
        self,
        who: AccountId,
        other: AccountId,
        currency_id: CurrencyId,
    )
        requires
            self.is_backed(),
            who != other,
        ensures
            self.account(who, currency_id).holding() + self.account(other, currency_id).holding()
                <= self.total_issuance(currency_id),
    {
        let weight = holding_of(currency_id);
        assert(key(who, currency_id) != key(other, currency_id));
        lemma_two_at_most_all(
            self.accounts,
            weight,
            key(who, currency_id),
            key(other, currency_id),
        );
        assert(self.excess(currency_id) == 0);
    }

    /// An entry that holds no more than was issued can be written.
    proof fn lemma_put_room<T: Config>(
        self,
        who: AccountId,
        currency_id: CurrencyId,
        account: AccountData,
    )
        requires
            account.holding() <= self.total_issuance(currency_id),
        ensures
            self.put_fits::<T>(who, currency_id, account),
    {
    }
}

// Balances.
impl State {
    /// Every transfer can be made.
    pub proof fn law_transfer_has_room<T: Config>(
        self,
        currency_id: CurrencyId,
        from: AccountId,
        to: AccountId,
        amount: Balance,
    )
        requires
            self.is_backed(),
        ensures
            self.transfer_fits::<T>(currency_id, from, to, amount),
    {
        if amount != 0 && from != to && self.transfer_outcome(currency_id, from, to, amount) is Ok {
            let account = self.account(from, currency_id);
            let left = AccountData { free: (account.free - amount) as Balance, ..account };
            self.law_two_holdings_within_issuance(from, to, currency_id);
            self.lemma_put_room::<T>(from, currency_id, left);
            self.lemma_put_entries::<T>(from, currency_id, left);
            let s = self.put_account::<T>(from, currency_id, left);
            let target = s.account(to, currency_id);
            let more = AccountData { free: (target.free + amount) as Balance, ..target };
            if T::spec_on_dust() is Burn {
                s.lemma_put_room::<T>(to, currency_id, more);
            }
        }
    }

    /// Every call that transfers can be made.
    pub proof fn law_transfer_call_has_room<T: Config>(
        self,
        origin: Origin,
        dest: Result<AccountId, LookupError>,
        currency_id: CurrencyId,
        amount: Balance,
    )
        requires
            self.is_backed(),
        ensures
            parties(origin, dest) matches Ok((from, to)) ==> self.transfer_fits::<T>(
                currency_id,
                from,
                to,
                amount,
            ),
    {
        if let Ok((from, to)) = parties(origin, dest) {
            self.law_transfer_has_room::<T>(currency_id, from, to, amount);
        }
    }

    /// Every deposit can be made.
    pub proof fn law_deposit_has_room<T: Config>(
        self,
        currency_id: CurrencyId,
        who: AccountId,
        amount: Balance,
    )
        requires
            self.is_backed(),
        ensures
            self.deposit_fits::<T>(currency_id, who, amount),
    {
        self.law_holding_within_issuance(who, currency_id);
        if amount != 0 && self.deposit_outcome(currency_id, amount) is Ok {
            let s = self.with_issuance(currency_id, self.total_issuance(currency_id) + amount);
            let account = self.account(who, currency_id);
            assert(s.account(who, currency_id) == account);
            s.lemma_put_room::<T>(
                who,
                currency_id,
                AccountData { free: (account.free + amount) as Balance, ..account },
            );
        }
    }

    /// Every withdrawal can be made.
    pub proof fn law_withdrawal_has_room<T: Config>(
        self,
        currency_id: CurrencyId,
        who: AccountId,
        amount: Balance,
    )
        requires
            self.is_backed(),
        ensures
            self.withdraw_fits::<T>(currency_id, who, amount),
    {
        self.law_holding_within_issuance(who, currency_id);
        if amount != 0 && self.withdrawal(currency_id, who, amount) is Ok {
            let s = self.with_issuance(currency_id, self.total_issuance(currency_id) - amount);
            let account = self.account(who, currency_id);
            s.lemma_put_room::<T>(
                who,
                currency_id,
                AccountData { free: (account.free - amount) as Balance, ..account },
            );
            assert(s.account(who, currency_id) == account);
        }
    }

    /// Every signed change of a balance can be made.
    pub proof fn law_update_balance_has_room<T: Config>(
        self,
        currency_id: CurrencyId,
        who: AccountId,
        by_amount: Amount,
    )
        requires
            self.is_backed(),
        ensures
            self.update_balance_fits::<T>(currency_id, who, by_amount),
    {
        self.law_deposit_has_room::<T>(currency_id, who, magnitude(by_amount));
        self.law_withdrawal_has_room::<T>(currency_id, who, magnitude(by_amount));
    }

    /// Every slash can be made: the slashed value cannot be greater than the
    /// total issuance.
    pub proof fn law_slash_has_room<T: Config>(
        self,
        currency_id: CurrencyId,
        who: AccountId,
        amount: Balance,
    )
        requires
            self.is_backed(),
        ensures
            self.slash_fits::<T>(currency_id, who, amount),
    {
        self.law_holding_within_issuance(who, currency_id);
        let account = self.account(who, currency_id);
        let part = self.free_slash(currency_id, who, amount);
        let s = self.slashed_free::<T>(currency_id, who, amount);
        let left = AccountData { free: (account.free - part) as Balance, ..account };
        self.lemma_put_room::<T>(who, currency_id, left);
        self.lemma_put_entries::<T>(who, currency_id, left);
        if part != amount {
            let rest = AccountData {
                reserved: (account.reserved - self.reserved_slash(currency_id, who, amount)) as Balance,
                ..s.account(who, currency_id)
            };
            s.lemma_put_room::<T>(who, currency_id, rest);
            s.lemma_put_entries::<T>(who, currency_id, rest);
        }
    }
}

// Reserves and locks.
impl State {
    /// Every slash of a reserved balance can be made.
    pub proof fn law_slash_reserved_has_room<T: Config>(
        self,
        currency_id: CurrencyId,
        who: AccountId,
        value: Balance,
    )
        requires
            self.is_backed(),
        ensures
            self.slash_reserved_fits::<T>(currency_id, who, value),
    {
        self.law_holding_within_issuance(who, currency_id);
        let left = self.reserved_entry(
            currency_id,
            who,
            self.account(who, currency_id).reserved - self.from_reserve(currency_id, who, value),
        );
        self.lemma_put_room::<T>(who, currency_id, left);
        self.lemma_put_entries::<T>(who, currency_id, left);
    }

    /// Every reservation can be made: it doesn't increase the total issuance,
    /// which is a balance.
    pub proof fn law_reserve_has_room<T: Config>(
        self,
        currency_id: CurrencyId,
        who: AccountId,
        value: Balance,
    )
        requires
            self.is_backed(),
        ensures
            self.reserve_fits::<T>(currency_id, who, value),
    {
        self.law_holding_within_issuance(who, currency_id);
        if value != 0 && self.withdrawal(currency_id, who, value) is Ok {
            self.lemma_put_room::<T>(
                who,
                currency_id,
                self.reserve_entry(currency_id, who, value as int),
            );
        }
    }

    /// Everything reserved can be unreserved.
    pub proof fn law_unreserve_has_room<T: Config>(
        self,
        currency_id: CurrencyId,
        who: AccountId,
        value: Balance,
    )
        requires
            self.is_backed(),
        ensures
            self.unreserve_fits::<T>(currency_id, who, value),
    {
        self.law_holding_within_issuance(who, currency_id);
        self.lemma_put_room::<T>(
            who,
            currency_id,
            self.reserve_entry(currency_id, who, -self.from_reserve(currency_id, who, value)),
        );
    }

    /// Everything reserved can be repatriated.
    pub proof fn law_repatriate_has_room<T: Config>(
        self,
        currency_id: CurrencyId,
        slashed: AccountId,
        beneficiary: AccountId,
        value: Balance,
        status: BalanceStatus,
    )
        requires
            self.is_backed(),
        ensures
            self.repatriate_fits::<T>(currency_id, slashed, beneficiary, value, status),
    {
        if slashed == beneficiary {
            if status is Free {
                self.law_unreserve_has_room::<T>(currency_id, slashed, value);
            }
        } else {
            self.law_two_holdings_within_issuance(slashed, beneficiary, currency_id);
            let from_account = self.account(slashed, currency_id);
            let to_account = self.account(beneficiary, currency_id);
            let actual = self.from_reserve(currency_id, slashed, value);
            let paid = match status {
                BalanceStatus::Free => AccountData {
                    free: (to_account.free + actual) as Balance,
                    ..to_account
                },
                BalanceStatus::Reserved => AccountData {
                    reserved: (to_account.reserved + actual) as Balance,
                    ..to_account
                },
            };
            self.lemma_put_room::<T>(beneficiary, currency_id, paid);
            self.lemma_put_entries::<T>(beneficiary, currency_id, paid);
            let s = self.put_account::<T>(beneficiary, currency_id, paid);
            let left = AccountData {
                reserved: (from_account.reserved - actual) as Balance,
                ..s.account(slashed, currency_id)
            };
            if T::spec_on_dust() is Burn {
                s.lemma_put_room::<T>(slashed, currency_id, left);
            }
        }
    }

    /// Every change of locks can be made.
    pub proof fn law_locks_have_room<T: Config>(
        self,
        currency_id: CurrencyId,
        who: AccountId,
        locks: Seq<BalanceLock>,
    )
        requires
            self.is_backed(),
        ensures
            self.update_locks_fits::<T>(currency_id, who, locks),
    {
        self.law_holding_within_issuance(who, currency_id);
        self.lemma_put_room::<T>(
            who,
            currency_id,
            self.locked_account(who, currency_id, locks),
        );
    }
}

// Balances, with the total issuance left to the imbalances.
impl State {
    /// An account can be slashed by whatever it has.
    pub proof fn law_slash_account_has_room<T: Config>(
        self,
        currency_id: CurrencyId,
        who: AccountId,
        amount: Balance,
    )
        requires
            self.is_backed(),
        ensures
            self.slash_account_fits::<T>(currency_id, who, amount),
    {
        if amount != 0 {
            self.law_slash_has_room::<T>(currency_id, who, amount);
        }
    }

    /// What can be withdrawn can be taken.
    pub proof fn law_taking_free_has_room<T: Config>(
        self,
        currency_id: CurrencyId,
        who: AccountId,
        value: Balance,
    )
        requires
            self.is_backed(),
        ensures
            self.take_free_fits::<T>(currency_id, who, value),
    {
        self.law_holding_within_issuance(who, currency_id);
    }

    /// A free balance can be added to, but where that would burn more dust than
    /// was issued.
    pub proof fn law_adding_free_has_room<T: Config>(
        self,
        currency_id: CurrencyId,
        who: AccountId,
        value: Balance,
    )
        requires
            value != 0 && self.may_add_free(currency_id, who, value) ==> self.burned::<T>(
                who,
                currency_id,
                self.free_entry(currency_id, who, self.account(who, currency_id).free + value),
            ) <= self.total_issuance(currency_id),
        ensures
            self.add_free_fits::<T>(currency_id, who, value),
    {
    }

    /// A free balance can be set, but where that would burn more dust than was
    /// issued.
    pub proof fn law_making_free_has_room<T: Config>(
        self,
        currency_id: CurrencyId,
        who: AccountId,
        value: Balance,
    )
        requires
            self.may_make_free::<T>(currency_id, who, value) ==> self.burned::<T>(
                who,
                currency_id,
                (AccountData { free: value, ..self.account(who, currency_id) }),
            ) <= self.total_issuance(currency_id),
        ensures
            self.make_free_fits::<T>(currency_id, who, value),
    {
    }
}

// Merging.
impl State {
    /// Every merge can be made, in whichever order.
    pub proof fn law_merge_has_room<T: Config>(
        self,
        source: AccountId,
        dest: AccountId,
        walk: Seq<CurrencyId>,
    )
        requires
            self.is_backed(),
        ensures
            self.merge_fits::<T>(source, dest, walk),
        decreases walk.len(),
    {
        if walk.len() > 0 {
            let front = walk.drop_last();
            self.law_merge_has_room::<T>(source, dest, front);
            assert forall|i: int| 0 <= i < walk.len() implies #[trigger] self.merge_step_fits::<T>(
                source,
                dest,
                walk,
                i,
            ) by {
                assert(walk.take(i) =~= front.take(i));
                if i < front.len() {
                    assert(walk[i] == front[i]);
                    assert(self.merge_step_fits::<T>(source, dest, front, i));
                } else {
                    self.lemma_merge_all_backing::<T>(source, dest, front, i);
                    if let Ok(s) = self.merge_all::<T>(source, dest, walk.take(i)) {
                        assert forall|c: CurrencyId| #[trigger] s.excess(c) == 0 by {
                            assert(self.excess(c) == 0);
                        }
                        s.law_transfer_has_room::<T>(
                            walk[i],
                            source,
                            dest,
                            s.account(source, walk[i]).free,
                        );
                    }
                }
            }
        }
    }
}

// The elastic supply.
impl State {
    /// Whether the serpers can pay for an expansion: its payment can be
    /// computed, they have it in reserve, and the new supply is a balance.
    pub open spec fn can_pay_expansion<T: Config>(
        self,
        native_currency_id: CurrencyId,
        stable_currency_id: CurrencyId,
        expand_by: Balance,
        quote_price: Balance,
    ) -> bool {
        let percent = T::spec_percent() as int;
        let quote = self.quote::<T>(stable_currency_id, expand_by);
        let pay = self.expansion_payment::<T>(stable_currency_id, expand_by, quote_price);
        &&& quote <= Balance::MAX
        &&& payment_fits(
            quote_price as int,
            percent,
            expansion_weight(percent, quote),
            T::spec_base_unit(stable_currency_id) as int,
            self.total_issuance(stable_currency_id) as int,
        )
        &&& pay <= self.account(T::spec_serper_acc(), native_currency_id).reserved
        &&& self.total_issuance(stable_currency_id) + expand_by <= Balance::MAX
    }

    /// Every expansion can be made that the serpers can pay for.
    pub proof fn law_expansion_has_room<T: Config>(
        self,
        native_currency_id: CurrencyId,
        stable_currency_id: CurrencyId,
        expand_by: Balance,
        quote_price: Balance,
    )
        requires
            self.is_backed(),
            expand_by != 0 ==> self.can_pay_expansion::<T>(
                native_currency_id,
                stable_currency_id,
                expand_by,
                quote_price,
            ),
        ensures
            self.expand_fits::<T>(native_currency_id, stable_currency_id, expand_by, quote_price),
    {
        if expand_by != 0 {
            let serpers = T::spec_serper_acc();
            let pay = self.expansion_payment::<T>(stable_currency_id, expand_by, quote_price);
            lemma_payment_not_negative(
                quote_price as int,
                T::spec_percent() as int,
                expansion_weight(
                    T::spec_percent() as int,
                    self.quote::<T>(stable_currency_id, expand_by),
                ),
                T::spec_base_unit(stable_currency_id) as int,
                self.total_issuance(stable_currency_id) as int,
            );
            self.law_holding_within_issuance(serpers, native_currency_id);
            self.law_holding_within_issuance(serpers, stable_currency_id);
            let native = self.account(serpers, native_currency_id);
            let stable = self.account(serpers, stable_currency_id);
            let less = AccountData { reserved: (native.reserved - pay) as Balance, ..native };
            self.lemma_put_room::<T>(serpers, native_currency_id, less);
            self.lemma_put_entries::<T>(serpers, native_currency_id, less);
            let s = self.put_account::<T>(serpers, native_currency_id, less);
            let more = AccountData {
                reserved: (stable.reserved + expand_by) as Balance,
                ..s.account(serpers, stable_currency_id)
            };
            assert(!s.dust_burns::<T>(serpers, stable_currency_id, more));
            s.lemma_put_entries::<T>(serpers, stable_currency_id, more);
        }
    }

    /// Whether the serpers can be paid for a contraction: its payment can be
    /// computed, they have in reserve what they give up, and the new native
    /// supply is a balance.
    pub open spec fn can_pay_contraction<T: Config>(
        self,
        native_currency_id: CurrencyId,
        stable_currency_id: CurrencyId,
        contract_by: Balance,
        quote_price: Balance,
    ) -> bool {
        let percent = T::spec_percent() as int;
        let quote = self.quote::<T>(stable_currency_id, contract_by);
        let pay = self.contraction_payment::<T>(stable_currency_id, contract_by, quote_price);
        &&& quote <= Balance::MAX
        &&& percent + quote <= Balance::MAX
        &&& payment_fits(
            quote_price as int,
            percent,
            contraction_weight(percent, quote),
            T::spec_base_unit(stable_currency_id) as int,
            self.total_issuance(stable_currency_id) as int,
        )
        &&& contract_by <= self.account(T::spec_serper_acc(), stable_currency_id).reserved
        &&& self.total_issuance(native_currency_id) + pay <= Balance::MAX
    }

    /// Every contraction can be made that the serpers can be paid for.
    pub proof fn law_contraction_has_room<T: Config>(
        self,
        native_currency_id: CurrencyId,
        stable_currency_id: CurrencyId,
        contract_by: Balance,
        quote_price: Balance,
    )
        requires
            self.is_backed(),
            contract_by != 0 ==> self.can_pay_contraction::<T>(
                native_currency_id,
                stable_currency_id,
                contract_by,
                quote_price,
            ),
        ensures
            self.contract_fits::<T>(
                native_currency_id,
                stable_currency_id,
                contract_by,
                quote_price,
            ),
    {
        if contract_by != 0 {
            let serpers = T::spec_serper_acc();
            let pay = self.contraction_payment::<T>(stable_currency_id, contract_by, quote_price);
            lemma_payment_not_negative(
                quote_price as int,
                T::spec_percent() as int,
                contraction_weight(
                    T::spec_percent() as int,
                    self.quote::<T>(stable_currency_id, contract_by),
                ),
                T::spec_base_unit(stable_currency_id) as int,
                self.total_issuance(stable_currency_id) as int,
            );
            self.law_holding_within_issuance(serpers, native_currency_id);
            self.law_holding_within_issuance(serpers, stable_currency_id);
            let native = self.account(serpers, native_currency_id);
            let stable = self.account(serpers, stable_currency_id);
            let more = AccountData { reserved: (native.reserved + pay) as Balance, ..native };
            if pay == 0 {
                self.lemma_put_room::<T>(serpers, native_currency_id, more);
            } else {
                assert(!self.dust_burns::<T>(serpers, native_currency_id, more));
            }
            self.lemma_put_entries::<T>(serpers, native_currency_id, more);
            let s = self.put_account::<T>(serpers, native_currency_id, more);
            let less = AccountData {
                reserved: (stable.reserved - contract_by) as Balance,
                ..s.account(serpers, stable_currency_id)
            };
            s.lemma_put_room::<T>(serpers, stable_currency_id, less);
            s.lemma_put_entries::<T>(serpers, stable_currency_id, less);
        }
    }
}

} // verus!
