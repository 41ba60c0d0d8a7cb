//! How the total issuance of a currency relates to what the accounts hold of
//! it.
use crate::account::AccountId;
use crate::config::Config;
use crate::dust::DustHandler;
use crate::laws::sums::{
    contribution, lemma_insert, lemma_remove, sum_over,
};
use crate::state::{is_dust, State};
use crate::storage::{key, AccountKey};
use crate::types::{AccountData, Balance, CurrencyId};
use vstd::prelude::*;

verus! {

/// What an entry holds of a currency.
pub open spec fn holding_of(currency_id: CurrencyId) -> spec_fn(AccountKey, AccountData) -> int {
    |k: AccountKey, account: AccountData|
        if k.currency_id == currency_id {
            account.holding()
        } else {
            0
        }
}

impl State {
    /// What all accounts together hold of a currency.
    pub open spec fn held(self, currency_id: CurrencyId) -> int {
        sum_over(self.accounts, holding_of(currency_id))
    }

    /// By how much more was issued than the accounts hold.
    pub open spec fn excess(self, currency_id: CurrencyId) -> int {
        self.total_issuance(currency_id) - self.held(currency_id)
    }

    /// Whether exactly what the accounts hold was issued, of every currency.
    pub open spec fn is_backed(self) -> bool {
        &&& self.accounts.dom().finite()
        &&& forall|currency_id: CurrencyId| #[trigger] self.excess(currency_id) == 0
    }
}

/// What a change of `by` under one currency adds to another.
pub open spec fn under(currency_id: CurrencyId, other: CurrencyId, by: int) -> int {
    if currency_id == other {
        by
    } else {
        0
    }
}

// What becomes of dust.
impl State {
    /// Whether writing an entry burns it as dust.
    pub open spec fn dust_burns<T: Config>(
        self,
        who: AccountId,
        currency_id: CurrencyId,
        account: AccountData,
    ) -> bool {
        &&& is_dust::<T>(who, currency_id, account)
        &&& T::spec_on_dust() is Burn
        &&& self.write_account(who, currency_id, account).withdrawal(
            currency_id,
            who,
            account.spec_total(),
        ) is Ok
    }

    /// Whether writing an entry moves it as dust to another account.
    pub open spec fn dust_reaches<T: Config>(
        self,
        who: AccountId,
        currency_id: CurrencyId,
        account: AccountData,
        receiver: AccountId,
    ) -> bool {
        &&& is_dust::<T>(who, currency_id, account)
        &&& T::spec_on_dust() matches DustHandler::Transfer(h) && h.receiver == receiver
        &&& who != receiver
        &&& self.write_account(who, currency_id, account).transfer_outcome(
            currency_id,
            who,
            receiver,
            account.spec_total(),
        ) is Ok
    }

    /// Whether writing an entry takes it away again as dust.
    pub open spec fn dust_leaves<T: Config>(
        self,
        who: AccountId,
        currency_id: CurrencyId,
        account: AccountData,
    ) -> bool {
        ||| self.dust_burns::<T>(who, currency_id, account)
        ||| T::spec_on_dust() matches DustHandler::Transfer(h) && self.dust_reaches::<T>(
            who,
            currency_id,
            account,
            h.receiver,
        )
    }

    /// What writing an entry burns.
    pub open spec fn burned<T: Config>(
        self,
        who: AccountId,
        currency_id: CurrencyId,
        account: AccountData,
    ) -> int {
        if self.dust_burns::<T>(who, currency_id, account) {
            account.spec_total() as int
        } else {
            0
        }
    }
}

// Steps.
impl State {
    /// What writing an entry does to what is held.
    pub proof fn lemma_write_held(
        self,
        who: AccountId,
        currency_id: CurrencyId,
        account: AccountData,
        other: CurrencyId,
    )
        requires
            self.accounts.dom().finite(),
        ensures
            self.write_account(who, currency_id, account).accounts.dom().finite(),
            self.write_account(who, currency_id, account).held(other) == self.held(other) + under(
                currency_id,
                other,
                account.holding() - self.account(who, currency_id).holding(),
            ),
            self.write_account(who, currency_id, account).issuance == self.issuance,
            self.write_account(who, currency_id, account).account(who, currency_id) == (
            if account.holding() == 0 {
                AccountData::empty()
            } else {
                self.bound(who, currency_id, account)
            }),
            forall|w: AccountId, c: CurrencyId|
                (w != who || c != currency_id) ==> #[trigger] self.write_account(
                    who,
                    currency_id,
                    account,
                ).account(w, c) == self.account(w, c),
    {
        let k = key(who, currency_id);
        lemma_insert(
            self.accounts,
            holding_of(other),
            k,
            self.bound(who, currency_id, account),
        );
        lemma_remove(self.accounts, holding_of(other), k);
        assert(contribution(self.accounts, holding_of(other), k) == under(
            currency_id,
            other,
            self.account(who, currency_id).holding(),
        ));
        assert forall|w: AccountId, c: CurrencyId| (w != who || c != currency_id) implies #[trigger]
        self.write_account(who, currency_id, account).account(w, c) == self.account(w, c) by {
            assert(key(w, c) != k);
        }
    }

    /// What writing an entry and handling its dust does to a ledger.
    pub proof fn lemma_put_excess<T: Config>(
        self,
        who: AccountId,
        currency_id: CurrencyId,
        account: AccountData,
        other: CurrencyId,
    )
        requires
            self.accounts.dom().finite(),
            self.put_fits::<T>(who, currency_id, account),
        ensures
            self.put_account::<T>(who, currency_id, account).accounts.dom().finite(),
            self.put_account::<T>(who, currency_id, account).excess(other) == self.excess(other)
                - under(
                currency_id,
                other,
                account.holding() - self.account(who, currency_id).holding(),
            ),
    {
        let s = self.write_account(who, currency_id, account);
        self.lemma_write_held(who, currency_id, account, other);
        if is_dust::<T>(who, currency_id, account) {
            let dust = account.spec_total();
            assert(account.holding() == dust);
            let account = self.bound(who, currency_id, account);
            assert(s.account(who, currency_id) == account);
            match T::spec_on_dust() {
                DustHandler::Ignore | DustHandler::Report => {},
                DustHandler::Transfer(h) => {
                    if who != h.receiver && s.transfer_outcome(currency_id, who, h.receiver, dust) is Ok {
                        let left = AccountData { free: (account.free - dust) as Balance, ..account };
                        s.lemma_write_held(who, currency_id, left, other);
                        let t = s.write_account(who, currency_id, left);
                        assert(s.record_account::<T>(who, currency_id, left).accounts == t.accounts);
                        let to = t.account(h.receiver, currency_id);
                        let more = AccountData { free: (to.free + dust) as Balance, ..to };
                        t.lemma_write_held(h.receiver, currency_id, more, other);
                        assert(to == s.account(h.receiver, currency_id));
                    }
                },
                DustHandler::Burn(_) => {
                    if s.withdrawal(currency_id, who, dust) is Ok {
                        let left = AccountData { free: (account.free - dust) as Balance, ..account };
                        let t = s.with_issuance(
                            currency_id,
                            s.total_issuance(currency_id) - dust,
                        );
                        t.lemma_write_held(who, currency_id, left, other);
                        assert(t.account(who, currency_id) == account);
                    }
                },
            }
        }
    }
}

// Steps, seen from the entries.
impl State {
    /// Writing an entry and handling its dust changes nothing about which
    /// entries are stored under other currencies, and no locks.
    pub proof fn lemma_put_elsewhere<T: Config>(
        self,
        who: AccountId,
        currency_id: CurrencyId,
        account: AccountData,
    )
        ensures
            forall|w: AccountId, c: CurrencyId|
                c != currency_id ==> #[trigger] self.put_account::<T>(
                    who,
                    currency_id,
                    account,
                ).is_stored(w, c) == self.is_stored(w, c),
            self.put_account::<T>(who, currency_id, account).locks == self.locks,
    {
        let t = self.put_account::<T>(who, currency_id, account);
        assert forall|w: AccountId, c: CurrencyId| c != currency_id implies #[trigger] t.is_stored(
            w,
            c,
        ) == self.is_stored(w, c) by {
            assert(forall|v: AccountId| #[trigger] key(v, currency_id) != key(w, c));
            match T::spec_on_dust() {
                DustHandler::Transfer(h) => {
                    assert(key(h.receiver, currency_id) != key(w, c));
                },
                _ => {},
            }
        }
    }

    /// What writing an entry and handling its dust does to every currency.
    pub proof fn lemma_put_backing<T: Config>(
        self,
        who: AccountId,
        currency_id: CurrencyId,
        account: AccountData,
    )
        requires
            self.accounts.dom().finite(),
            self.put_fits::<T>(who, currency_id, account),
        ensures
            self.put_account::<T>(who, currency_id, account).accounts.dom().finite(),
            forall|c: CurrencyId| #[trigger]
                self.put_account::<T>(who, currency_id, account).excess(c) == self.excess(c)
                    - under(
                    currency_id,
                    c,
                    account.holding() - self.account(who, currency_id).holding(),
                ),
    {
        self.lemma_put_excess::<T>(who, currency_id, account, currency_id);
        assert forall|c: CurrencyId| #[trigger]
            self.put_account::<T>(who, currency_id, account).excess(c) == self.excess(c) - under(
                currency_id,
                c,
                account.holding() - self.account(who, currency_id).holding(),
            ) by {
            self.lemma_put_excess::<T>(who, currency_id, account, c);
        }
    }

    /// What a change of the total issuance does to every currency.
    pub proof fn lemma_issuance_backing(self, currency_id: CurrencyId, amount: int)
        requires
            0 <= amount <= Balance::MAX,
        ensures
            forall|c: CurrencyId| #[trigger]
                self.with_issuance(currency_id, amount).excess(c) == self.excess(c) + under(
                    currency_id,
                    c,
                    amount - self.total_issuance(currency_id),
                ),
    {
    }

    /// What writing an entry and handling its dust does to each entry and each
    /// total issuance.
    pub proof fn lemma_put_entries<T: Config>(
        self,
        who: AccountId,
        currency_id: CurrencyId,
        account: AccountData,
    )
        requires
            self.put_fits::<T>(who, currency_id, account),
        ensures
            self.put_account::<T>(who, currency_id, account).account(who, currency_id) == (
            if account.holding() == 0 || self.dust_leaves::<T>(who, currency_id, account) {
                AccountData::empty()
            } else {
                self.bound(who, currency_id, account)
            }),
            forall|w: AccountId, c: CurrencyId|
                (w != who || c != currency_id) ==> #[trigger] self.put_account::<T>(
                    who,
                    currency_id,
                    account,
                ).account(w, c) == (if c == currency_id && self.dust_reaches::<T>(
                    who,
                    currency_id,
                    account,
                    w,
                ) {
                    self.bound(
                        w,
                        c,
                        AccountData {
                            free: (self.account(w, c).free + account.spec_total()) as Balance,
                            ..self.account(w, c)
                        },
                    )
                } else {
                    self.account(w, c)
                }),
            forall|c: CurrencyId| #[trigger]
                self.put_account::<T>(who, currency_id, account).total_issuance(c)
                    == self.total_issuance(c) - under(
                    currency_id,
                    c,
                    self.burned::<T>(who, currency_id, account),
                ),
            self.put_account::<T>(who, currency_id, account).locks == self.locks,
            self.dust_leaves::<T>(who, currency_id, account) ==> account.reserved == 0
                && self.bound(who, currency_id, account).frozen == 0 && account.free
                == account.spec_total(),
            forall|w: AccountId|
                self.dust_reaches::<T>(who, currency_id, account, w) ==> (#[trigger] self.account(
                    w,
                    currency_id,
                )).free + account.spec_total() <= Balance::MAX,
    {
        let s = self.write_account(who, currency_id, account);
        let t = self.put_account::<T>(who, currency_id, account);
        assert forall|w: AccountId, c: CurrencyId| (w != who || c != currency_id) implies #[trigger]
        s.account(w, c) == self.account(w, c) by {
            assert(key(w, c) != key(who, currency_id));
        }
        let dust = account.spec_total();
        if is_dust::<T>(who, currency_id, account) {
            let account = self.bound(who, currency_id, account);
            assert(s.account(who, currency_id) == account);
            match T::spec_on_dust() {
                DustHandler::Ignore | DustHandler::Report => {},
                DustHandler::Transfer(h) => {
                    if who != h.receiver && s.transfer_outcome(currency_id, who, h.receiver, dust) is Ok {
                        let left = AccountData { free: (account.free - dust) as Balance, ..account };
                        let u = s.record_account::<T>(who, currency_id, left);
                        assert(left.holding() == 0);
                        assert(key(h.receiver, currency_id) != key(who, currency_id));
                        assert(u.account(h.receiver, currency_id) == self.account(
                            h.receiver,
                            currency_id,
                        ));
                        let more = AccountData {
                            free: (self.account(h.receiver, currency_id).free + dust) as Balance,
                            ..self.account(h.receiver, currency_id)
                        };
                        assert(t.accounts == u.write_account(h.receiver, currency_id, more).accounts);
                        assert(more.holding() != 0);
                        assert(u.is_stored(h.receiver, currency_id) == self.is_stored(
                            h.receiver,
                            currency_id,
                        ));
                        assert(u.locks == self.locks);
                        let more = self.bound(h.receiver, currency_id, more);
                        assert(u.bound(h.receiver, currency_id, more) == more);
                        assert forall|w: AccountId, c: CurrencyId|
                            (w != who || c != currency_id) implies #[trigger] t.account(w, c) == (
                        if c == currency_id && w == h.receiver {
                            more
                        } else {
                            self.account(w, c)
                        }) by {
                            assert(key(w, c) != key(who, currency_id));
                            assert(u.account(w, c) == s.account(w, c));
                            if c != currency_id || w != h.receiver {
                                assert(key(w, c) != key(h.receiver, currency_id));
                            }
                        }
                    }
                },
                DustHandler::Burn(_) => {
                    if s.withdrawal(currency_id, who, dust) is Ok {
                        let left = AccountData { free: (account.free - dust) as Balance, ..account };
                        assert(left.holding() == 0);
                        let u = s.with_issuance(
                            currency_id,
                            s.total_issuance(currency_id) - dust,
                        ).record_account::<T>(who, currency_id, left);
                        assert(t.accounts == u.accounts);
                        assert forall|w: AccountId, c: CurrencyId|
                            (w != who || c != currency_id) implies #[trigger] t.account(w, c)
                            == self.account(w, c) by {
                            assert(key(w, c) != key(who, currency_id));
                            assert(u.account(w, c) == s.account(w, c));
                        }
                    }
                },
            }
        }
    }
}

} // verus!
