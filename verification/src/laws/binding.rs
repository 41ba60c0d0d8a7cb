//! Locks bind: whatever happens to an account, it stays frozen up to the largest
//! of the locks on its balance.
use crate::account::AccountId;
use crate::config::Config;
use crate::currency::magnitude;
use crate::dust::DustHandler;
use crate::imbalances::SignedImbalance;
use crate::laws::locking::law_largest_lock_counts;
use crate::lockable::largest_lock;
use crate::state::{is_dust, State};
use crate::storage::key;
use crate::types::{
    AccountData, Amount, Balance, BalanceLock, BalanceStatus, CurrencyId,
};
use vstd::prelude::*;

verus! {

impl State {
    /// Whether an entry, if it is stored, is frozen up to the largest of the
    /// locks on its balance.
    pub open spec fn entry_is_bound(self, who: AccountId, currency_id: CurrencyId) -> bool {
        self.is_stored(who, currency_id) ==> self.account(who, currency_id).frozen == largest_lock(
            self.locks_of(who, currency_id),
        )
    }

    /// Whether every entry that is stored is frozen up to the largest of the
    /// locks on its balance.
    pub open spec fn locks_bind(self) -> bool {
        forall|who: AccountId, c: CurrencyId| #[trigger] self.entry_is_bound(who, c)
    }

    /// Whether that holds of every entry but one.
    pub open spec fn locks_bind_but(self, who: AccountId, currency_id: CurrencyId) -> bool {
        forall|w: AccountId, c: CurrencyId|
            (w != who || c != currency_id) ==> #[trigger] self.entry_is_bound(w, c)
    }

    /// While locks bind, locked funds cannot be withdrawn: whatever would leave
    /// less than any one of the locks on a balance is refused.
    pub proof fn law_locks_protect(
        self,
        currency_id: CurrencyId,
        who: AccountId,
        i: int,
        amount: Balance,
    )
        requires
            self.locks_bind(),
            0 <= i < self.locks_of(who, currency_id).len(),
            amount != 0,
            self.account(who, currency_id).free - amount < self.locks_of(
                who,
                currency_id,
            )[i].amount,
        ensures
            self.withdrawal(currency_id, who, amount) is Err,
    {
        assert(self.entry_is_bound(who, currency_id));
        law_largest_lock_counts(self.locks_of(who, currency_id));
    }

    /// An entry that is not dust is stored as it is written, or not at all if it
    /// holds nothing, and neither another entry nor a total issuance nor a lock
    /// changes. Only a new entry that is frozen less than the locks on its
    /// balance ask for is frozen further.
    pub proof fn law_written_as_given<T: Config>(
        self,
        who: AccountId,
        currency_id: CurrencyId,
        account: AccountData,
    )
        requires
            !is_dust::<T>(who, currency_id, account),
        ensures
            ({
                let t = self.put_account::<T>(who, currency_id, account);
                let locked = largest_lock(self.locks_of(who, currency_id));
                &&& t.is_stored(who, currency_id) == (account.spec_total() != 0)
                &&& t.is_stored(who, currency_id) ==> t.account(who, currency_id) == (
                if self.is_stored(who, currency_id) || locked <= account.frozen {
                    account
                } else {
                    AccountData { frozen: locked, ..account }
                })
                &&& forall|w: AccountId, c: CurrencyId|
                    (w != who || c != currency_id) ==> #[trigger] t.is_stored(w, c)
                        == self.is_stored(w, c) && t.account(w, c) == self.account(w, c)
                &&& t.issuance == self.issuance
                &&& t.locks == self.locks
            }),
    {
        let t = self.put_account::<T>(who, currency_id, account);
        assert forall|w: AccountId, c: CurrencyId|
            (w != who || c != currency_id) implies #[trigger] t.is_stored(w, c) == self.is_stored(
            w,
            c,
        ) && t.account(w, c) == self.account(w, c) by {
            assert(key(w, c) != key(who, currency_id));
        }
    }

    /// On a ledger in which nothing was ever written locks bind.
    pub proof fn law_empty_locks_bind()
        ensures
            State::empty().locks_bind(),
    {
    }
}

// Steps.
impl State {
    /// Writing one entry leaves the others bound, and that one frozen as it is
    /// written, or bound if it is new and not frozen beyond its locks.
    proof fn lemma_write_binds(self, who: AccountId, currency_id: CurrencyId, account: AccountData)
        requires
            self.locks_bind_but(who, currency_id),
        ensures
            ({
                let t = self.write_account(who, currency_id, account);
                &&& t.locks == self.locks
                &&& t.locks_bind_but(who, currency_id)
                &&& !self.is_stored(who, currency_id) && account.frozen <= largest_lock(
                    self.locks_of(who, currency_id),
                ) ==> t.locks_bind()
                &&& self.is_stored(who, currency_id) && t.is_stored(who, currency_id)
                    ==> t.account(who, currency_id).frozen == account.frozen
            }),
    {
        let t = self.write_account(who, currency_id, account);
        assert forall|w: AccountId, c: CurrencyId|
            (w != who || c != currency_id) implies #[trigger] t.entry_is_bound(w, c) by {
            assert(self.entry_is_bound(w, c));
            assert(key(w, c) != key(who, currency_id));
        }
    }

    /// Writing an entry that is frozen as before keeps locks binding.
    proof fn lemma_record_binds<T: Config>(
        self,
        who: AccountId,
        currency_id: CurrencyId,
        account: AccountData,
    )
        requires
            self.locks_bind(),
            account.frozen == self.account(who, currency_id).frozen,
        ensures
            self.record_account::<T>(who, currency_id, account).locks_bind(),
            self.record_account::<T>(who, currency_id, account).locks == self.locks,
    {
        let s = self.write_account(who, currency_id, account);
        let t = self.record_account::<T>(who, currency_id, account);
        self.lemma_write_binds(who, currency_id, account);
        assert(self.entry_is_bound(who, currency_id));
        assert forall|w: AccountId, c: CurrencyId| #[trigger] t.entry_is_bound(w, c) by {
            if w != who || c != currency_id {
                assert(s.entry_is_bound(w, c));
            } else if !self.is_stored(who, currency_id) {
                assert(s.entry_is_bound(w, c));
            }
        }
    }

    /// Writing one entry and handling its dust leaves the others bound, and that
    /// one, if it stays, frozen as it is written, or bound if it is new and not
    /// frozen beyond its locks.
    proof fn lemma_put_binds_others<T: Config>(
        self,
        who: AccountId,
        currency_id: CurrencyId,
        account: AccountData,
    )
        requires
            self.locks_bind_but(who, currency_id),
        ensures
            ({
                let t = self.put_account::<T>(who, currency_id, account);
                &&& t.locks == self.locks
                &&& t.locks_bind_but(who, currency_id)
                &&& !self.is_stored(who, currency_id) && account.frozen <= largest_lock(
                    self.locks_of(who, currency_id),
                ) ==> t.locks_bind()
                &&& self.is_stored(who, currency_id) && t.is_stored(who, currency_id)
                    ==> t.account(who, currency_id).frozen == account.frozen
            }),
    {
        let s = self.write_account(who, currency_id, account);
        let t = self.put_account::<T>(who, currency_id, account);
        let dust = account.spec_total();
        self.lemma_write_binds(who, currency_id, account);
        if is_dust::<T>(who, currency_id, account) {
            let from = s.account(who, currency_id);
            let left = AccountData { free: (from.free - dust) as Balance, ..from };
            let u = s.handle_dust::<T>(who, currency_id, dust);
            match T::spec_on_dust() {
                DustHandler::Transfer(h) => {
                    if who != h.receiver && s.transfer_outcome(
                        currency_id,
                        who,
                        h.receiver,
                        dust,
                    ) is Ok {
                        let v = s.record_account::<T>(who, currency_id, left);
                        s.lemma_write_binds(who, currency_id, left);
                        assert(left.holding() == 0);
                        assert forall|w: AccountId, c: CurrencyId| #[trigger]
                            v.entry_is_bound(w, c) by {
                            if w != who || c != currency_id {
                                assert(s.write_account(who, currency_id, left).entry_is_bound(
                                    w,
                                    c,
                                ));
                            }
                        }
                        let more = AccountData {
                            free: (s.account(h.receiver, currency_id).free + dust) as Balance,
                            ..v.account(h.receiver, currency_id)
                        };
                        v.lemma_record_binds::<T>(h.receiver, currency_id, more);
                        assert(u.locks_bind());
                        assert forall|w: AccountId, c: CurrencyId| #[trigger]
                            t.entry_is_bound(w, c) by {
                            assert(u.entry_is_bound(w, c));
                        }
                        assert(key(h.receiver, currency_id) != key(who, currency_id));
                        assert(!t.is_stored(who, currency_id));
                    }
                },
                DustHandler::Burn(_) => {
                    if s.withdrawal(currency_id, who, dust) is Ok {
                        let v = s.with_issuance(
                            currency_id,
                            s.total_issuance(currency_id) - dust,
                        );
                        assert forall|w: AccountId, c: CurrencyId|
                            (w != who || c != currency_id) implies #[trigger] v.entry_is_bound(
                            w,
                            c,
                        ) by {
                            assert(s.entry_is_bound(w, c));
                        }
                        v.lemma_write_binds(who, currency_id, left);
                        assert(left.holding() == 0);
                        assert forall|w: AccountId, c: CurrencyId| #[trigger]
                            t.entry_is_bound(w, c) by {
                            if w != who || c != currency_id {
                                assert(v.write_account(who, currency_id, left).entry_is_bound(
                                    w,
                                    c,
                                ));
                            }
                        }
                    }
                },
                _ => {},
            }
        }
        assert forall|w: AccountId, c: CurrencyId|
            (w != who || c != currency_id) implies #[trigger] t.entry_is_bound(w, c) by {
            assert(s.entry_is_bound(w, c));
        }
        if !self.is_stored(who, currency_id) && account.frozen <= largest_lock(
            self.locks_of(who, currency_id),
        ) {
            assert(s.entry_is_bound(who, currency_id));
            assert forall|w: AccountId, c: CurrencyId| #[trigger] t.entry_is_bound(w, c) by {
                assert(s.entry_is_bound(w, c));
            }
        }
    }

    /// Writing an entry that is frozen as before, and handling its dust, keeps
    /// locks binding.
    proof fn lemma_put_binds<T: Config>(
        self,
        who: AccountId,
        currency_id: CurrencyId,
        account: AccountData,
    )
        requires
            account.frozen == self.account(who, currency_id).frozen,
        ensures
            self.locks_bind() ==> self.put_account::<T>(who, currency_id, account).locks_bind(),
    {
        if self.locks_bind() {
            let t = self.put_account::<T>(who, currency_id, account);
            self.lemma_put_binds_others::<T>(who, currency_id, account);
            assert(self.entry_is_bound(who, currency_id));
            assert forall|w: AccountId, c: CurrencyId| #[trigger] t.entry_is_bound(w, c) by {
                if (w != who || c != currency_id) || !self.is_stored(who, currency_id) {
                    assert(t.entry_is_bound(w, c));
                }
            }
        }
    }

    /// Setting a free balance keeps locks binding.
    proof fn lemma_set_free_binds<T: Config>(
        self,
        currency_id: CurrencyId,
        who: AccountId,
        amount: int,
    )
        ensures
            self.locks_bind() ==> self.set_free::<T>(currency_id, who, amount).locks_bind(),
    {
        self.lemma_put_binds::<T>(who, currency_id, self.free_entry(currency_id, who, amount));
    }

    /// Setting a reserved balance keeps locks binding.
    proof fn lemma_set_reserved_binds<T: Config>(
        self,
        currency_id: CurrencyId,
        who: AccountId,
        amount: int,
    )
        ensures
            self.locks_bind() ==> self.set_reserved::<T>(currency_id, who, amount).locks_bind(),
    {
        self.lemma_put_binds::<T>(who, currency_id, self.reserved_entry(currency_id, who, amount));
    }

    /// Whether locks bind depends on the entries and locks alone.
    proof fn lemma_same_binds(self, other: State)
        requires
            self.accounts == other.accounts,
            self.locks == other.locks,
        ensures
            self.locks_bind() == other.locks_bind(),
    {
        if other.locks_bind() {
            assert forall|w: AccountId, c: CurrencyId| #[trigger] self.entry_is_bound(w, c) by {
                assert(other.entry_is_bound(w, c));
            }
        }
        if self.locks_bind() {
            assert forall|w: AccountId, c: CurrencyId| #[trigger] other.entry_is_bound(w, c) by {
                assert(self.entry_is_bound(w, c));
            }
        }
    }
}

// Operations.
impl State {
    /// A transfer keeps locks binding, and so does a call that transfers.
    pub proof fn law_transfer_keeps_locks_binding<T: Config>(
        self,
        currency_id: CurrencyId,
        from: AccountId,
        to: AccountId,
        amount: Balance,
    )
        requires
            self.locks_bind(),
        ensures
            self.transferred::<T>(currency_id, from, to, amount).locks_bind(),
            self.transfer_called::<T>(from, to, currency_id, amount).locks_bind(),
    {
        let from_free = self.account(from, currency_id).free - amount;
        let s = self.set_free::<T>(currency_id, from, from_free);
        self.lemma_set_free_binds::<T>(currency_id, from, from_free);
        s.lemma_set_free_binds::<T>(currency_id, to, s.account(to, currency_id).free + amount);
        if self.transfer_outcome(currency_id, from, to, amount) is Ok {
            self.transfer_called::<T>(from, to, currency_id, amount).lemma_same_binds(
                self.transferred::<T>(currency_id, from, to, amount),
            );
        }
    }

    /// A deposit keeps locks binding.
    pub proof fn law_deposit_keeps_locks_binding<T: Config>(
        self,
        currency_id: CurrencyId,
        who: AccountId,
        amount: Balance,
    )
        requires
            self.locks_bind(),
        ensures
            self.deposited::<T>(currency_id, who, amount).locks_bind(),
    {
        let s = self.with_issuance(currency_id, self.total_issuance(currency_id) + amount);
        s.lemma_same_binds(self);
        s.lemma_set_free_binds::<T>(
            currency_id,
            who,
            self.account(who, currency_id).free + amount,
        );
    }

    /// A withdrawal keeps locks binding.
    pub proof fn law_withdrawal_keeps_locks_binding<T: Config>(
        self,
        currency_id: CurrencyId,
        who: AccountId,
        amount: Balance,
    )
        requires
            self.locks_bind(),
        ensures
            self.withdrawn::<T>(currency_id, who, amount).locks_bind(),
    {
        let s = self.with_issuance(currency_id, self.total_issuance(currency_id) - amount);
        s.lemma_same_binds(self);
        s.lemma_set_free_binds::<T>(
            currency_id,
            who,
            self.account(who, currency_id).free - amount,
        );
    }

    /// A signed change of a balance keeps locks binding.
    pub proof fn law_update_balance_keeps_locks_binding<T: Config>(
        self,
        currency_id: CurrencyId,
        who: AccountId,
        by_amount: Amount,
    )
        requires
            self.locks_bind(),
        ensures
            self.balance_updated::<T>(currency_id, who, by_amount).locks_bind(),
    {
        self.law_deposit_keeps_locks_binding::<T>(currency_id, who, magnitude(by_amount));
        self.law_withdrawal_keeps_locks_binding::<T>(currency_id, who, magnitude(by_amount));
    }

    /// A slash keeps locks binding, whether the total issuance is left as it is
    /// or not.
    pub proof fn law_slash_keeps_locks_binding<T: Config>(
        self,
        currency_id: CurrencyId,
        who: AccountId,
        amount: Balance,
    )
        requires
            self.locks_bind(),
        ensures
            self.slashed_account::<T>(currency_id, who, amount).locks_bind(),
            self.slashed::<T>(currency_id, who, amount).locks_bind(),
    {
        let account = self.account(who, currency_id);
        let s = self.slashed_free::<T>(currency_id, who, amount);
        self.lemma_set_free_binds::<T>(
            currency_id,
            who,
            account.free - self.free_slash(currency_id, who, amount),
        );
        s.lemma_set_reserved_binds::<T>(
            currency_id,
            who,
            account.reserved - self.reserved_slash(currency_id, who, amount),
        );
        if amount != 0 {
            self.slashed::<T>(currency_id, who, amount).lemma_same_binds(
                self.slashed_account::<T>(currency_id, who, amount),
            );
        }
    }

    /// A slash of a reserved balance keeps locks binding.
    pub proof fn law_slash_reserved_keeps_locks_binding<T: Config>(
        self,
        currency_id: CurrencyId,
        who: AccountId,
        value: Balance,
    )
        requires
            self.locks_bind(),
        ensures
            self.reserve_slashed::<T>(currency_id, who, value).locks_bind(),
    {
        let left = self.account(who, currency_id).reserved - self.from_reserve(
            currency_id,
            who,
            value,
        );
        self.lemma_set_reserved_binds::<T>(currency_id, who, left);
        if value != 0 {
            self.reserve_slashed::<T>(currency_id, who, value).lemma_same_binds(
                self.set_reserved::<T>(currency_id, who, left),
            );
        }
    }

    /// Reserving and unreserving keep locks binding.
    pub proof fn law_reserves_keep_locks_binding<T: Config>(
        self,
        currency_id: CurrencyId,
        who: AccountId,
        value: Balance,
    )
        requires
            self.locks_bind(),
        ensures
            self.reserved::<T>(currency_id, who, value).locks_bind(),
            self.unreserved::<T>(currency_id, who, value).locks_bind(),
    {
        self.lemma_put_binds::<T>(
            who,
            currency_id,
            self.reserve_entry(currency_id, who, value as int),
        );
        self.lemma_put_binds::<T>(
            who,
            currency_id,
            self.reserve_entry(currency_id, who, -self.from_reserve(currency_id, who, value)),
        );
    }

    /// A repatriation keeps locks binding.
    pub proof fn law_repatriate_keeps_locks_binding<T: Config>(
        self,
        currency_id: CurrencyId,
        slashed: AccountId,
        beneficiary: AccountId,
        value: Balance,
        status: BalanceStatus,
    )
        requires
            self.locks_bind(),
        ensures
            self.repatriated::<T>(
                currency_id,
                slashed,
                beneficiary,
                value,
                status,
            ).locks_bind(),
    {
        let target = self.account(beneficiary, currency_id);
        let actual = self.from_reserve(currency_id, slashed, value);
        let s = self.beneficiary_paid::<T>(currency_id, slashed, beneficiary, value, status);
        self.law_reserves_keep_locks_binding::<T>(currency_id, slashed, value);
        self.lemma_set_free_binds::<T>(currency_id, beneficiary, target.free + actual);
        self.lemma_set_reserved_binds::<T>(currency_id, beneficiary, target.reserved + actual);
        s.lemma_set_reserved_binds::<T>(
            currency_id,
            slashed,
            self.account(slashed, currency_id).reserved - actual,
        );
    }

    /// A change of locks keeps locks binding.
    pub proof fn law_locks_keep_binding<T: Config>(
        self,
        currency_id: CurrencyId,
        who: AccountId,
        locks: Seq<BalanceLock>,
    )
        requires
            self.locks_bind(),
        ensures
            self.update_locks::<T>(currency_id, who, locks).locks_bind(),
    {
        let account = self.locked_account(who, currency_id, locks);
        let s = self.put_account::<T>(who, currency_id, account);
        let t = self.update_locks::<T>(currency_id, who, locks);
        self.lemma_put_binds_others::<T>(who, currency_id, account);
        assert(t.accounts == s.accounts);
        assert forall|w: AccountId, c: CurrencyId| #[trigger] t.entry_is_bound(w, c) by {
            if w != who || c != currency_id {
                assert(s.entry_is_bound(w, c));
                assert(key(w, c) != key(who, currency_id));
            } else {
                if !self.is_stored(who, currency_id) {
                    assert(account.holding() == 0);
                    assert(!s.is_stored(who, currency_id));
                }
                if locks.len() == 0 {
                    assert(locks =~= Seq::empty());
                }
                assert(t.locks_of(who, currency_id) == locks);
            }
        }
    }

    /// Adding to, taking from and setting a free balance keep locks binding.
    pub proof fn law_free_changes_keep_locks_binding<T: Config>(
        self,
        currency_id: CurrencyId,
        who: AccountId,
        value: Balance,
    )
        requires
            self.locks_bind(),
        ensures
            self.free_added::<T>(currency_id, who, value).locks_bind(),
            self.free_taken::<T>(currency_id, who, value).locks_bind(),
            self.free_made::<T>(currency_id, who, value).locks_bind(),
    {
        let free = self.account(who, currency_id).free;
        self.lemma_set_free_binds::<T>(currency_id, who, free + value);
        self.lemma_set_free_binds::<T>(currency_id, who, free - value);
        self.lemma_set_free_binds::<T>(currency_id, who, value as int);
    }

    /// Settling an imbalance keeps locks binding.
    pub proof fn law_settling_keeps_locks_binding(
        self,
        currency_id: CurrencyId,
        imbalance: SignedImbalance,
    )
        requires
            self.locks_bind(),
        ensures
            self.settled(currency_id, imbalance).locks_bind(),
    {
        self.settled(currency_id, imbalance).lemma_same_binds(self);
    }

    /// Burning and issuing keep locks binding.
    pub proof fn law_issuance_changes_keep_locks_binding(
        self,
        currency_id: CurrencyId,
        amount: Balance,
    )
        requires
            self.locks_bind(),
        ensures
            self.issuance_burnt(currency_id, amount).locks_bind(),
            self.issuance_issued(currency_id, amount).locks_bind(),
    {
        self.issuance_burnt(currency_id, amount).lemma_same_binds(self);
        self.issuance_issued(currency_id, amount).lemma_same_binds(self);
    }
}

// Operations on two currencies, or on more.
impl State {
    /// Changing the reserves of the serpers keeps locks binding.
    proof fn lemma_serpers_bind<T: Config>(
        self,
        native_currency_id: CurrencyId,
        stable_currency_id: CurrencyId,
        native_change: int,
        stable_change: int,
    )
        requires
            self.locks_bind(),
        ensures
            self.serpers_reserve::<T>(
                native_currency_id,
                stable_currency_id,
                native_change,
                stable_change,
            ).locks_bind(),
    {
        let serpers = T::spec_serper_acc();
        let native = self.account(serpers, native_currency_id).reserved + native_change;
        let stable = self.account(serpers, stable_currency_id).reserved + stable_change;
        let s = self.set_reserved::<T>(native_currency_id, serpers, native);
        self.lemma_set_reserved_binds::<T>(native_currency_id, serpers, native);
        s.lemma_set_reserved_binds::<T>(stable_currency_id, serpers, stable);
    }

    /// An expansion keeps locks binding.
    pub proof fn law_expansion_keeps_locks_binding<T: Config>(
        self,
        native_currency_id: CurrencyId,
        stable_currency_id: CurrencyId,
        expand_by: Balance,
        quote_price: Balance,
    )
        requires
            self.locks_bind(),
        ensures
            self.expanded::<T>(
                native_currency_id,
                stable_currency_id,
                expand_by,
                quote_price,
            ).locks_bind(),
    {
        let pay = self.expansion_payment::<T>(stable_currency_id, expand_by, quote_price);
        let more = expand_by as int;
        self.lemma_serpers_bind::<T>(native_currency_id, stable_currency_id, -pay, more);
        if expand_by != 0 {
            self.expanded::<T>(
                native_currency_id,
                stable_currency_id,
                expand_by,
                quote_price,
            ).lemma_same_binds(
                self.serpers_reserve::<T>(native_currency_id, stable_currency_id, -pay, more),
            );
        }
    }

    /// A contraction keeps locks binding.
    pub proof fn law_contraction_keeps_locks_binding<T: Config>(
        self,
        native_currency_id: CurrencyId,
        stable_currency_id: CurrencyId,
        contract_by: Balance,
        quote_price: Balance,
    )
        requires
            self.locks_bind(),
        ensures
            self.contracted::<T>(
                native_currency_id,
                stable_currency_id,
                contract_by,
                quote_price,
            ).locks_bind(),
    {
        let pay = self.contraction_payment::<T>(stable_currency_id, contract_by, quote_price);
        let less = -(contract_by as int);
        self.lemma_serpers_bind::<T>(native_currency_id, stable_currency_id, pay, less);
        if contract_by != 0 {
            self.contracted::<T>(
                native_currency_id,
                stable_currency_id,
                contract_by,
                quote_price,
            ).lemma_same_binds(
                self.serpers_reserve::<T>(native_currency_id, stable_currency_id, pay, less),
            );
        }
    }

    /// An adjustment of the supply keeps locks binding.
    pub proof fn law_adjustment_keeps_locks_binding<T: Config>(
        self,
        stable_currency_id: CurrencyId,
        stable_currency_price: Balance,
        native_currency_id: CurrencyId,
        native_currency_price: Balance,
    )
        requires
            self.locks_bind(),
        ensures
            self.adjusted::<T>(
                stable_currency_id,
                stable_currency_price,
                native_currency_id,
                native_currency_price,
            ).locks_bind(),
    {
        let change = self.supply_off::<T>(stable_currency_id, stable_currency_price);
        self.law_expansion_keeps_locks_binding::<T>(
            native_currency_id,
            stable_currency_id,
            change,
            native_currency_price,
        );
        self.law_contraction_keeps_locks_binding::<T>(
            native_currency_id,
            stable_currency_id,
            change,
            native_currency_price,
        );
    }

    /// A merge keeps locks binding.
    pub proof fn law_merge_keeps_locks_binding<T: Config>(
        self,
        source: AccountId,
        dest: AccountId,
        walk: Seq<CurrencyId>,
    )
        requires
            self.locks_bind(),
        ensures
            self.merged::<T>(source, dest, walk).locks_bind(),
        decreases walk.len(),
    {
        if walk.len() > 0 {
            let c = walk.last();
            self.law_merge_keeps_locks_binding::<T>(source, dest, walk.drop_last());
            if let Ok(s) = self.merge_all::<T>(source, dest, walk.drop_last()) {
                assert(self.merged::<T>(source, dest, walk.drop_last()) == s);
                s.law_transfer_keeps_locks_binding::<T>(
                    c,
                    source,
                    dest,
                    s.account(source, c).free,
                );
            }
        }
    }

    /// Endowing accounts keeps locks binding.
    pub proof fn law_genesis_keeps_locks_binding<T: Config>(
        self,
        endowed: Seq<(AccountId, CurrencyId, Balance)>,
    )
        requires
            self.locks_bind(),
        ensures
            self.endowed::<T>(endowed).locks_bind(),
        decreases endowed.len(),
    {
        if endowed.len() > 0 {
            let front = endowed.drop_last();
            let (who, c, initial_balance) = endowed.last();
            self.law_genesis_keeps_locks_binding::<T>(front);
            let s = self.endowed::<T>(front);
            s.lemma_set_free_binds::<T>(c, who, initial_balance as int);
            self.endowed::<T>(endowed).lemma_same_binds(
                s.set_free::<T>(c, who, initial_balance as int),
            );
        }
    }
}

} // verus!
