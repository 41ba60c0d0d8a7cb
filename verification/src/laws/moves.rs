//! What the operations do to the balances, where no dust leaves, and that they
//! do nothing where they fail.
use crate::account::AccountId;
use crate::config::Config;
use crate::laws::backing::under;
use crate::state::State;
use crate::storage::key;
use crate::types::{AccountData, Amount, Balance, BalanceStatus, CurrencyId, Error};
use vstd::prelude::*;

verus! {

/// Whether two ledgers agree on every balance but that of one account under one
/// currency.
pub open spec fn agree_but(s: State, t: State, who: AccountId, currency_id: CurrencyId) -> bool {
    forall|w: AccountId, c: CurrencyId|
        (w != who || c != currency_id) ==> #[trigger] t.account(w, c) == s.account(w, c)
}

/// Whether two ledgers agree on every balance but those of two accounts under
/// one currency.
pub open spec fn agree_but_two(
    s: State,
    t: State,
    who: AccountId,
    other: AccountId,
    currency_id: CurrencyId,
) -> bool {
    forall|w: AccountId, c: CurrencyId|
        ((w != who && w != other) || c != currency_id) ==> #[trigger] t.account(w, c) == s.account(
            w,
            c,
        )
}

/// Whether two ledgers agree on every total issuance, but that of one currency,
/// which is off by `change`.
pub open spec fn issuance_differs(
    s: State,
    t: State,
    currency_id: CurrencyId,
    change: int,
) -> bool {
    forall|c: CurrencyId| #[trigger]
        t.total_issuance(c) == s.total_issuance(c) + under(currency_id, c, change)
}

/// An entry as it is read back: what holds nothing is not kept.
pub open spec fn kept(account: AccountData) -> AccountData {
    if account.holding() == 0 {
        AccountData::empty()
    } else {
        account
    }
}

// Failing, and doing nothing.
impl State {
    /// What fails changes nothing.
    pub proof fn law_failure_changes_nothing<T: Config>(
        self,
        currency_id: CurrencyId,
        who: AccountId,
        other: AccountId,
        amount: Balance,
        walk: Seq<CurrencyId>,
    )
        ensures
            self.transfer_outcome(currency_id, who, other, amount) is Err ==> self.transferred::<T>(
                currency_id,
                who,
                other,
                amount,
            ) == self && self.transfer_called::<T>(who, other, currency_id, amount) == self,
            self.deposit_outcome(currency_id, amount) is Err ==> self.deposited::<T>(
                currency_id,
                who,
                amount,
            ) == self,
            self.withdrawal(currency_id, who, amount) is Err ==> self.withdrawn::<T>(
                currency_id,
                who,
                amount,
            ) == self && self.reserved::<T>(currency_id, who, amount) == self
                && self.free_taken::<T>(currency_id, who, amount) == self,
            self.merge_outcome::<T>(who, other, walk) is Err ==> self.merged::<T>(who, other, walk)
                == self,
    {
    }

    /// An amount of zero succeeds and changes nothing.
    pub proof fn law_nothing_changes_nothing<T: Config>(
        self,
        currency_id: CurrencyId,
        who: AccountId,
        other: AccountId,
        status: BalanceStatus,
    )
        ensures
            self.transfer_outcome(currency_id, who, other, 0) is Ok,
            self.deposit_outcome(currency_id, 0) is Ok,
            self.withdrawal(currency_id, who, 0) is Ok,
            self.transferred::<T>(currency_id, who, other, 0) == self,
            self.deposited::<T>(currency_id, who, 0) == self,
            self.withdrawn::<T>(currency_id, who, 0) == self,
            self.slashed::<T>(currency_id, who, 0) == self,
            self.reserve_slashed::<T>(currency_id, who, 0) == self,
            self.reserved::<T>(currency_id, who, 0) == self,
            self.unreserved::<T>(currency_id, who, 0) == self,
            self.repatriated::<T>(currency_id, who, other, 0, status) == self,
    {
    }

    /// A transfer from an account to itself succeeds and changes nothing.
    pub proof fn law_self_transfer_changes_nothing<T: Config>(
        self,
        currency_id: CurrencyId,
        who: AccountId,
        amount: Balance,
    )
        ensures
            self.transfer_outcome(currency_id, who, who, amount) is Ok,
            self.transferred::<T>(currency_id, who, who, amount) == self,
    {
    }
}

// Moving, issuing and taking back.
impl State {
    /// A transfer moves the amount from one free balance to the other, and does
    /// nothing else to any balance. A recipient that is new is frozen up to the
    /// largest of its locks.
    pub proof fn law_transfer_moves<T: Config>(
        self,
        currency_id: CurrencyId,
        from: AccountId,
        to: AccountId,
        amount: Balance,
    )
        requires
            amount != 0,
            from != to,
            self.transfer_outcome(currency_id, from, to, amount) is Ok,
            self.transfer_fits::<T>(currency_id, from, to, amount),
            ({
                let source = self.account(from, currency_id);
                let target = self.account(to, currency_id);
                let left = AccountData { free: (source.free - amount) as Balance, ..source };
                let more = AccountData { free: (target.free + amount) as Balance, ..target };
                &&& !self.dust_leaves::<T>(from, currency_id, left)
                &&& !self.put_account::<T>(from, currency_id, left).dust_leaves::<T>(
                    to,
                    currency_id,
                    more,
                )
            }),
        ensures
            ({
                let source = self.account(from, currency_id);
                let target = self.account(to, currency_id);
                let t = self.transferred::<T>(currency_id, from, to, amount);
                &&& t.account(from, currency_id) == (AccountData {
                    free: (source.free - amount) as Balance,
                    ..source
                })
                &&& t.account(to, currency_id) == self.bound(
                    to,
                    currency_id,
                    AccountData { free: (target.free + amount) as Balance, ..target },
                )
                &&& agree_but_two(self, t, from, to, currency_id)
                &&& issuance_differs(self, t, currency_id, 0)
            }),
    {
        let source = self.account(from, currency_id);
        let target = self.account(to, currency_id);
        let left = AccountData { free: (source.free - amount) as Balance, ..source };
        let more = AccountData { free: (target.free + amount) as Balance, ..target };
        self.lemma_put_entries::<T>(from, currency_id, left);
        let s = self.put_account::<T>(from, currency_id, left);
        assert(!self.dust_reaches::<T>(from, currency_id, left, to));
        assert(s.account(to, currency_id) == target);
        self.lemma_put_stores::<T>(from, currency_id, left);
        assert(s.bound(to, currency_id, more) == self.bound(to, currency_id, more));
        s.lemma_put_entries::<T>(to, currency_id, more);
    }

    /// A deposit adds the amount to the free balance and to the total issuance,
    /// and does nothing else to any balance. An account that is new is frozen up
    /// to the largest of its locks.
    pub proof fn law_deposit_adds<T: Config>(
        self,
        currency_id: CurrencyId,
        who: AccountId,
        amount: Balance,
    )
        requires
            amount != 0,
            self.deposit_outcome(currency_id, amount) is Ok,
            self.deposit_fits::<T>(currency_id, who, amount),
            !self.dust_leaves::<T>(
                who,
                currency_id,
                self.free_entry(currency_id, who, self.account(who, currency_id).free + amount),
            ),
        ensures
            ({
                let t = self.deposited::<T>(currency_id, who, amount);
                let account = self.account(who, currency_id);
                &&& t.account(who, currency_id) == self.bound(
                    who,
                    currency_id,
                    AccountData { free: (account.free + amount) as Balance, ..account },
                )
                &&& agree_but(self, t, who, currency_id)
                &&& issuance_differs(self, t, currency_id, amount as int)
            }),
    {
        let more = self.free_entry(
            currency_id,
            who,
            self.account(who, currency_id).free + amount,
        );
        let s = self.with_issuance(currency_id, self.total_issuance(currency_id) + amount);
        let t = self.deposited::<T>(currency_id, who, amount);
        assert(s.account(who, currency_id) == self.account(who, currency_id));
        s.lemma_same_dust::<T>(self, who, currency_id, more);
        s.lemma_put_entries::<T>(who, currency_id, more);
        assert(s.bound(who, currency_id, more) == self.bound(who, currency_id, more));
        assert forall|w: AccountId, c: CurrencyId|
            (w != who || c != currency_id) implies #[trigger] t.account(w, c) == self.account(
            w,
            c,
        ) by {
            assert(s.account(w, c) == self.account(w, c));
        }
        assert forall|c: CurrencyId| #[trigger]
            t.total_issuance(c) == self.total_issuance(c) + under(
                currency_id,
                c,
                amount as int,
            ) by {
            assert(t.total_issuance(c) == s.total_issuance(c));
        }
    }

    /// A withdrawal takes the amount from the free balance and from the total
    /// issuance, and does nothing else to any balance.
    pub proof fn law_withdrawal_takes<T: Config>(
        self,
        currency_id: CurrencyId,
        who: AccountId,
        amount: Balance,
    )
        requires
            amount != 0,
            self.withdrawal(currency_id, who, amount) is Ok,
            self.withdraw_fits::<T>(currency_id, who, amount),
            ({
                let account = self.account(who, currency_id);
                let left = AccountData { free: (account.free - amount) as Balance, ..account };
                !self.dust_leaves::<T>(who, currency_id, left)
            }),
        ensures
            ({
                let t = self.withdrawn::<T>(currency_id, who, amount);
                let account = self.account(who, currency_id);
                &&& t.account(who, currency_id) == (AccountData {
                    free: (account.free - amount) as Balance,
                    ..account
                })
                &&& agree_but(self, t, who, currency_id)
                &&& issuance_differs(self, t, currency_id, -(amount as int))
            }),
    {
        let account = self.account(who, currency_id);
        let left = AccountData { free: (account.free - amount) as Balance, ..account };
        let s = self.with_issuance(currency_id, self.total_issuance(currency_id) - amount);
        let t = self.withdrawn::<T>(currency_id, who, amount);
        assert(s.account(who, currency_id) == account);
        s.lemma_same_dust::<T>(self, who, currency_id, left);
        s.lemma_put_entries::<T>(who, currency_id, left);
        assert forall|w: AccountId, c: CurrencyId|
            (w != who || c != currency_id) implies #[trigger] t.account(w, c) == self.account(
            w,
            c,
        ) by {
            assert(s.account(w, c) == self.account(w, c));
        }
        assert forall|c: CurrencyId| #[trigger]
            t.total_issuance(c) == self.total_issuance(c) + under(
                currency_id,
                c,
                -(amount as int),
            ) by {
            assert(t.total_issuance(c) == s.total_issuance(c));
        }
    }

    /// Writing an entry from which no dust leaves changes nothing about which
    /// other entries are stored.
    proof fn lemma_put_stores<T: Config>(
        self,
        who: AccountId,
        currency_id: CurrencyId,
        account: AccountData,
    )
        requires
            !self.dust_leaves::<T>(who, currency_id, account),
        ensures
            self.put_account::<T>(who, currency_id, account).is_stored(who, currency_id) == (
            account.holding() != 0),
            forall|w: AccountId, c: CurrencyId|
                (w != who || c != currency_id) ==> #[trigger] self.put_account::<T>(
                    who,
                    currency_id,
                    account,
                ).is_stored(w, c) == self.is_stored(w, c),
            self.put_account::<T>(who, currency_id, account).locks == self.locks,
    {
        let s = self.write_account(who, currency_id, account);
        let t = self.put_account::<T>(who, currency_id, account);
        assert(t.accounts == s.accounts);
        assert forall|w: AccountId, c: CurrencyId|
            (w != who || c != currency_id) implies #[trigger] t.is_stored(w, c) == self.is_stored(
            w,
            c,
        ) by {
            assert(key(w, c) != key(who, currency_id));
        }
    }

    /// Which of its two entries are stored after a transfer from which no dust
    /// leaves.
    proof fn lemma_transfer_stores<T: Config>(
        self,
        currency_id: CurrencyId,
        from: AccountId,
        to: AccountId,
        amount: Balance,
    )
        requires
            amount != 0,
            from != to,
            self.transfer_outcome(currency_id, from, to, amount) is Ok,
            self.transfer_fits::<T>(currency_id, from, to, amount),
            ({
                let source = self.account(from, currency_id);
                let target = self.account(to, currency_id);
                let left = AccountData { free: (source.free - amount) as Balance, ..source };
                let more = AccountData { free: (target.free + amount) as Balance, ..target };
                &&& !self.dust_leaves::<T>(from, currency_id, left)
                &&& !self.put_account::<T>(from, currency_id, left).dust_leaves::<T>(
                    to,
                    currency_id,
                    more,
                )
            }),
        ensures
            ({
                let t = self.transferred::<T>(currency_id, from, to, amount);
                let source = self.account(from, currency_id);
                &&& t.is_stored(from, currency_id) == (source.holding() != amount)
                &&& t.is_stored(to, currency_id)
                &&& t.locks == self.locks
            }),
    {
        let source = self.account(from, currency_id);
        let target = self.account(to, currency_id);
        let left = AccountData { free: (source.free - amount) as Balance, ..source };
        let more = AccountData { free: (target.free + amount) as Balance, ..target };
        let s = self.put_account::<T>(from, currency_id, left);
        self.lemma_put_entries::<T>(from, currency_id, left);
        self.lemma_put_stores::<T>(from, currency_id, left);
        assert(s.account(to, currency_id) == target);
        s.lemma_put_stores::<T>(to, currency_id, more);
    }

    /// What leaves as dust depends on the entries and locks alone.
    proof fn lemma_same_dust<T: Config>(
        self,
        other: State,
        who: AccountId,
        currency_id: CurrencyId,
        account: AccountData,
    )
        requires
            self.accounts == other.accounts,
            self.locks == other.locks,
        ensures
            self.dust_leaves::<T>(who, currency_id, account) == other.dust_leaves::<T>(
                who,
                currency_id,
                account,
            ),
            self.dust_burns::<T>(who, currency_id, account) == other.dust_burns::<T>(
                who,
                currency_id,
                account,
            ),
    {
        let s = self.write_account(who, currency_id, account);
        let t = other.write_account(who, currency_id, account);
        assert(s.accounts == t.accounts);
        assert(forall|w: AccountId, c: CurrencyId| #[trigger] s.account(w, c) == t.account(w, c));
    }

    /// A deposit that is withdrawn again leaves every balance and every total
    /// issuance as it was.
    pub proof fn law_withdrawal_undoes_deposit<T: Config>(
        self,
        currency_id: CurrencyId,
        who: AccountId,
        amount: Balance,
    )
        requires
            amount != 0,
            self.deposit_outcome(currency_id, amount) is Ok,
            self.deposit_fits::<T>(currency_id, who, amount),
            !self.dust_leaves::<T>(
                who,
                currency_id,
                self.free_entry(currency_id, who, self.account(who, currency_id).free + amount),
            ),
            ({
                let s = self.deposited::<T>(currency_id, who, amount);
                &&& s.withdrawal(currency_id, who, amount) is Ok
                &&& s.withdraw_fits::<T>(currency_id, who, amount)
                &&& !s.dust_leaves::<T>(who, currency_id, self.account(who, currency_id))
            }),
        ensures
            ({
                let t = self.deposited::<T>(currency_id, who, amount).withdrawn::<T>(
                    currency_id,
                    who,
                    amount,
                );
                &&& forall|w: AccountId, c: CurrencyId| #[trigger]
                    t.account(w, c) == self.account(w, c)
                &&& forall|c: CurrencyId| #[trigger] t.total_issuance(c) == self.total_issuance(c)
            }),
    {
        let s = self.deposited::<T>(currency_id, who, amount);
        let t = s.withdrawn::<T>(currency_id, who, amount);
        self.law_deposit_adds::<T>(currency_id, who, amount);
        let account = s.account(who, currency_id);
        assert(AccountData { free: (account.free - amount) as Balance, ..account } == self.account(
            who,
            currency_id,
        ));
        s.law_withdrawal_takes::<T>(currency_id, who, amount);
        assert forall|w: AccountId, c: CurrencyId| #[trigger]
            t.account(w, c) == self.account(w, c) by {
            assert(s.account(w, c) == s.account(w, c));
        }
        assert forall|c: CurrencyId| #[trigger] t.total_issuance(c) == self.total_issuance(c) by {
            assert(s.total_issuance(c) == self.total_issuance(c) + under(
                currency_id,
                c,
                amount as int,
            ));
        }
    }

    /// A transfer there and back leaves every balance and every total issuance
    /// as it was, on a ledger on which locks bind.
    pub proof fn law_transfer_back_undoes_transfer<T: Config>(
        self,
        currency_id: CurrencyId,
        from: AccountId,
        to: AccountId,
        amount: Balance,
    )
        requires
            self.locks_bind(),
            amount != 0,
            from != to,
            self.transfer_outcome(currency_id, from, to, amount) is Ok,
            self.transfer_fits::<T>(currency_id, from, to, amount),
            ({
                let source = self.account(from, currency_id);
                let target = self.account(to, currency_id);
                let left = AccountData { free: (source.free - amount) as Balance, ..source };
                let more = AccountData { free: (target.free + amount) as Balance, ..target };
                &&& !self.dust_leaves::<T>(from, currency_id, left)
                &&& !self.put_account::<T>(from, currency_id, left).dust_leaves::<T>(
                    to,
                    currency_id,
                    more,
                )
            }),
            ({
                let s = self.transferred::<T>(currency_id, from, to, amount);
                &&& s.transfer_outcome(currency_id, to, from, amount) is Ok
                &&& s.transfer_fits::<T>(currency_id, to, from, amount)
                &&& !s.dust_leaves::<T>(to, currency_id, self.account(to, currency_id))
                &&& !s.put_account::<T>(
                    to,
                    currency_id,
                    self.account(to, currency_id),
                ).dust_leaves::<T>(from, currency_id, self.account(from, currency_id))
            }),
        ensures
            ({
                let t = self.transferred::<T>(currency_id, from, to, amount).transferred::<T>(
                    currency_id,
                    to,
                    from,
                    amount,
                );
                &&& forall|w: AccountId, c: CurrencyId| #[trigger]
                    t.account(w, c) == self.account(w, c)
                &&& forall|c: CurrencyId| #[trigger] t.total_issuance(c) == self.total_issuance(c)
            }),
    {
        let s = self.transferred::<T>(currency_id, from, to, amount);
        let t = s.transferred::<T>(currency_id, to, from, amount);
        self.law_transfer_moves::<T>(currency_id, from, to, amount);
        self.lemma_transfer_stores::<T>(currency_id, from, to, amount);
        assert(self.entry_is_bound(from, currency_id));
        let there = s.account(to, currency_id);
        let here = s.account(from, currency_id);
        assert(AccountData { free: (there.free - amount) as Balance, ..there } == self.account(
            to,
            currency_id,
        ));
        assert(AccountData { free: (here.free + amount) as Balance, ..here } == self.account(
            from,
            currency_id,
        ));
        s.law_transfer_moves::<T>(currency_id, to, from, amount);
        assert forall|w: AccountId, c: CurrencyId| #[trigger]
            t.account(w, c) == self.account(w, c) by {
            assert(s.account(w, c) == s.account(w, c));
        }
        assert forall|c: CurrencyId| #[trigger] t.total_issuance(c) == self.total_issuance(c) by {
            assert(s.total_issuance(c) == self.total_issuance(c) + under(currency_id, c, 0));
        }
    }
}

// Changing by a signed amount.
impl State {
    /// A signed change of a balance is a deposit if it goes up, a withdrawal if
    /// it goes down, and nothing if it is zero. Every amount is a balance, so
    /// that none fails to be converted.
    pub proof fn law_update_balance_is_deposit_or_withdrawal<T: Config>(
        self,
        currency_id: CurrencyId,
        who: AccountId,
        by_amount: Amount,
        m: Balance,
    )
        requires
            by_amount != Amount::MIN,
            m == by_amount || m == -by_amount,
        ensures
            by_amount == 0 ==> {
                &&& self.update_balance_fits::<T>(currency_id, who, by_amount)
                &&& self.update_balance_outcome(currency_id, who, by_amount) is Ok
                &&& self.balance_updated::<T>(currency_id, who, by_amount) == self
            },
            by_amount > 0 ==> {
                &&& self.update_balance_fits::<T>(currency_id, who, by_amount)
                    == self.deposit_fits::<T>(currency_id, who, m)
                &&& self.update_balance_outcome(currency_id, who, by_amount)
                    == self.deposit_outcome(currency_id, m)
                &&& self.balance_updated::<T>(currency_id, who, by_amount) == self.deposited::<T>(
                    currency_id,
                    who,
                    m,
                )
            },
            by_amount < 0 ==> {
                &&& self.update_balance_fits::<T>(currency_id, who, by_amount)
                    == self.withdraw_fits::<T>(currency_id, who, m)
                &&& self.update_balance_outcome(currency_id, who, by_amount) == self.withdrawal(
                    currency_id,
                    who,
                    m,
                )
                &&& self.balance_updated::<T>(currency_id, who, by_amount) == self.withdrawn::<T>(
                    currency_id,
                    who,
                    m,
                )
            },
            self.update_balance_outcome(currency_id, who, by_amount) != Err::<(), Error>(
                Error::AmountIntoBalanceFailed,
            ),
    {
    }
}

// Slashing.
impl State {
    /// Slashing takes what it can from the free balance and the rest from the
    /// reserved balance, and does nothing else to any balance.
    pub proof fn law_slash_takes<T: Config>(
        self,
        currency_id: CurrencyId,
        who: AccountId,
        amount: Balance,
    )
        requires
            self.slash_fits::<T>(currency_id, who, amount),
            ({
                let account = self.account(who, currency_id);
                let free_part = self.free_slash(currency_id, who, amount);
                let reserved_part = self.reserved_slash(currency_id, who, amount);
                let left = AccountData { free: (account.free - free_part) as Balance, ..account };
                let rest = AccountData {
                    reserved: (account.reserved - reserved_part) as Balance,
                    ..left
                };
                &&& free_part == amount && amount != 0 ==> !self.dust_leaves::<T>(
                    who,
                    currency_id,
                    left,
                )
                &&& free_part != amount ==> !self.slashed_free::<T>(
                    currency_id,
                    who,
                    amount,
                ).dust_leaves::<T>(who, currency_id, rest)
            }),
        ensures
            ({
                let account = self.account(who, currency_id);
                let free_part = self.free_slash(currency_id, who, amount);
                let reserved_part = self.reserved_slash(currency_id, who, amount);
                let t = self.slashed::<T>(currency_id, who, amount);
                &&& t.account(who, currency_id).free == account.free - free_part
                &&& t.account(who, currency_id).reserved == account.reserved - reserved_part
                &&& agree_but(self, t, who, currency_id)
                &&& issuance_differs(self, t, currency_id, -(free_part + reserved_part))
            }),
    {
        if amount != 0 {
            let account = self.account(who, currency_id);
            let free_part = self.free_slash(currency_id, who, amount);
            let reserved_part = self.reserved_slash(currency_id, who, amount);
            let left = AccountData { free: (account.free - free_part) as Balance, ..account };
            let s = self.slashed_free::<T>(currency_id, who, amount);
            let u = self.slashed_account::<T>(currency_id, who, amount);
            let t = self.slashed::<T>(currency_id, who, amount);
            if free_part != 0 {
                self.lemma_put_entries::<T>(who, currency_id, left);
            }
            if free_part != amount {
                let rest = AccountData {
                    reserved: (account.reserved - reserved_part) as Balance,
                    ..s.account(who, currency_id)
                };
                s.lemma_put_entries::<T>(who, currency_id, rest);
            }
            assert(t.accounts == u.accounts);
            assert forall|w: AccountId, c: CurrencyId|
                (w != who || c != currency_id) implies #[trigger] t.account(w, c) == self.account(
                w,
                c,
            ) by {
                assert(s.account(w, c) == self.account(w, c));
                assert(u.account(w, c) == self.account(w, c));
            }
            assert forall|c: CurrencyId| #[trigger]
                t.total_issuance(c) == self.total_issuance(c) + under(
                    currency_id,
                    c,
                    -(free_part + reserved_part),
                ) by {
                assert(s.total_issuance(c) == self.total_issuance(c));
                assert(u.total_issuance(c) == self.total_issuance(c));
            }
        }
    }

    /// An account is never slashed by more than it holds, and what could not be
    /// slashed is what it was short of.
    pub proof fn law_slash_is_bounded(
        self,
        currency_id: CurrencyId,
        who: AccountId,
        amount: Balance,
    )
        ensures
            ({
                let holding = self.account(who, currency_id).holding();
                let unslashed = self.unslashed(currency_id, who, amount);
                &&& amount <= holding ==> unslashed == 0
                &&& amount > holding ==> unslashed == amount - holding
                &&& amount <= self.account(who, currency_id).free ==> self.reserved_slash(
                    currency_id,
                    who,
                    amount,
                ) == 0
            }),
    {
    }
}

// Reserving.
impl State {
    /// Reserving moves the value from the free to the reserved balance, and does
    /// nothing else to any balance: nothing of an account that has something in
    /// reserve leaves as dust.
    pub proof fn law_reserve_moves<T: Config>(
        self,
        currency_id: CurrencyId,
        who: AccountId,
        value: Balance,
    )
        requires
            value != 0,
            self.withdrawal(currency_id, who, value) is Ok,
            self.reserve_fits::<T>(currency_id, who, value),
        ensures
            ({
                let account = self.account(who, currency_id);
                let t = self.reserved::<T>(currency_id, who, value);
                &&& t.account(who, currency_id) == (AccountData {
                    free: (account.free - value) as Balance,
                    reserved: (account.reserved + value) as Balance,
                    ..account
                })
                &&& agree_but(self, t, who, currency_id)
                &&& issuance_differs(self, t, currency_id, 0)
            }),
    {
        self.lemma_put_entries::<T>(
            who,
            currency_id,
            self.reserve_entry(currency_id, who, value as int),
        );
    }

    /// Unreserving moves what it can from the reserved to the free balance, and
    /// does nothing else to any balance, unless the account is dust that leaves.
    pub proof fn law_unreserve_moves<T: Config>(
        self,
        currency_id: CurrencyId,
        who: AccountId,
        value: Balance,
    )
        requires
            value != 0,
            self.unreserve_fits::<T>(currency_id, who, value),
            !self.dust_leaves::<T>(
                who,
                currency_id,
                self.reserve_entry(currency_id, who, -self.from_reserve(currency_id, who, value)),
            ),
        ensures
            ({
                let account = self.account(who, currency_id);
                let actual = self.from_reserve(currency_id, who, value);
                let t = self.unreserved::<T>(currency_id, who, value);
                &&& t.account(who, currency_id) == kept(
                    AccountData {
                        free: (account.free + actual) as Balance,
                        reserved: (account.reserved - actual) as Balance,
                        ..account
                    },
                )
                &&& agree_but(self, t, who, currency_id)
                &&& issuance_differs(self, t, currency_id, 0)
            }),
    {
        self.lemma_put_entries::<T>(
            who,
            currency_id,
            self.reserve_entry(currency_id, who, -self.from_reserve(currency_id, who, value)),
        );
    }

    /// What was reserved and is unreserved again leaves every balance as it was,
    /// unless the account is dust that leaves.
    pub proof fn law_unreserve_undoes_reserve<T: Config>(
        self,
        currency_id: CurrencyId,
        who: AccountId,
        value: Balance,
    )
        requires
            value != 0,
            self.withdrawal(currency_id, who, value) is Ok,
            self.reserve_fits::<T>(currency_id, who, value),
            self.reserved::<T>(currency_id, who, value).unreserve_fits::<T>(
                currency_id,
                who,
                value,
            ),
            !self.reserved::<T>(currency_id, who, value).dust_leaves::<T>(
                who,
                currency_id,
                self.account(who, currency_id),
            ),
        ensures
            ({
                let t = self.reserved::<T>(currency_id, who, value).unreserved::<T>(
                    currency_id,
                    who,
                    value,
                );
                &&& forall|w: AccountId, c: CurrencyId| #[trigger]
                    t.account(w, c) == self.account(w, c)
                &&& forall|c: CurrencyId| #[trigger] t.total_issuance(c) == self.total_issuance(c)
            }),
    {
        let s = self.reserved::<T>(currency_id, who, value);
        let t = s.unreserved::<T>(currency_id, who, value);
        self.law_reserve_moves::<T>(currency_id, who, value);
        assert(s.from_reserve(currency_id, who, value) == value);
        assert(s.reserve_entry(currency_id, who, -(value as int)) == self.account(
            who,
            currency_id,
        ));
        s.law_unreserve_moves::<T>(currency_id, who, value);
        assert forall|w: AccountId, c: CurrencyId| #[trigger]
            t.account(w, c) == self.account(w, c) by {
            assert(s.account(w, c) == s.account(w, c));
        }
        assert forall|c: CurrencyId| #[trigger] t.total_issuance(c) == self.total_issuance(c) by {
            assert(s.total_issuance(c) == self.total_issuance(c) + under(currency_id, c, 0));
        }
    }

    /// A repatriation moves what it can from the reserved balance of one account
    /// to the balance of another, and does nothing else to any balance.
    pub proof fn law_repatriate_moves<T: Config>(
        self,
        currency_id: CurrencyId,
        slashed: AccountId,
        beneficiary: AccountId,
        value: Balance,
        status: BalanceStatus,
    )
        requires
            value != 0,
            slashed != beneficiary,
            self.repatriate_fits::<T>(currency_id, slashed, beneficiary, value, status),
            ({
                let actual = self.from_reserve(currency_id, slashed, value);
                let target = self.account(beneficiary, currency_id);
                let paid = match status {
                    BalanceStatus::Free => AccountData {
                        free: (target.free + actual) as Balance,
                        ..target
                    },
                    BalanceStatus::Reserved => AccountData {
                        reserved: (target.reserved + actual) as Balance,
                        ..target
                    },
                };
                &&& !self.dust_leaves::<T>(beneficiary, currency_id, paid)
                &&& !self.put_account::<T>(beneficiary, currency_id, paid).dust_leaves::<T>(
                    slashed,
                    currency_id,
                    self.reserved_entry(
                        currency_id,
                        slashed,
                        self.account(slashed, currency_id).reserved - actual,
                    ),
                )
            }),
        ensures
            ({
                let actual = self.from_reserve(currency_id, slashed, value);
                let source = self.account(slashed, currency_id);
                let target = self.account(beneficiary, currency_id);
                let t = self.repatriated::<T>(currency_id, slashed, beneficiary, value, status);
                &&& t.account(slashed, currency_id).free == source.free
                &&& t.account(slashed, currency_id).reserved == source.reserved - actual
                &&& t.account(beneficiary, currency_id).free == target.free + (match status {
                    BalanceStatus::Free => actual,
                    BalanceStatus::Reserved => 0,
                })
                &&& t.account(beneficiary, currency_id).reserved == target.reserved + (
                match status {
                    BalanceStatus::Free => 0,
                    BalanceStatus::Reserved => actual,
                })
                &&& agree_but_two(self, t, slashed, beneficiary, currency_id)
                &&& issuance_differs(self, t, currency_id, 0)
            }),
    {
        let actual = self.from_reserve(currency_id, slashed, value);
        let target = self.account(beneficiary, currency_id);
        let paid = match status {
            BalanceStatus::Free => AccountData {
                free: (target.free + actual) as Balance,
                ..target
            },
            BalanceStatus::Reserved => AccountData {
                reserved: (target.reserved + actual) as Balance,
                ..target
            },
        };
        let s = self.put_account::<T>(beneficiary, currency_id, paid);
        let t = self.repatriated::<T>(currency_id, slashed, beneficiary, value, status);
        self.lemma_put_entries::<T>(beneficiary, currency_id, paid);
        assert(!self.dust_reaches::<T>(beneficiary, currency_id, paid, slashed));
        assert(s.account(slashed, currency_id) == self.account(slashed, currency_id));
        let left = self.reserved_entry(
            currency_id,
            slashed,
            self.account(slashed, currency_id).reserved - actual,
        );
        s.lemma_put_entries::<T>(slashed, currency_id, left);
        assert(t == s.put_account::<T>(slashed, currency_id, left));
        assert forall|w: AccountId, c: CurrencyId|
            ((w != slashed && w != beneficiary) || c != currency_id) implies #[trigger] t.account(
            w,
            c,
        ) == self.account(w, c) by {
            assert(s.account(w, c) == self.account(w, c));
        }
        assert forall|c: CurrencyId| #[trigger]
            t.total_issuance(c) == self.total_issuance(c) + under(currency_id, c, 0) by {
            assert(s.total_issuance(c) == self.total_issuance(c));
        }
    }
}

} // verus!
