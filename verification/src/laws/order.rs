//! What every operation keeps: entries and locks are only stored where there is
//! something to store, the system counts them right, and no other currency is
//! touched.
use crate::account::AccountId;
use crate::config::Config;
use crate::currency::magnitude;
use crate::dust::DustHandler;
use crate::imbalances::{saturated, signed_amount, SignedImbalance};
use crate::laws::sums::{lemma_insert, lemma_remove, sum_over};
use crate::state::{is_dust, State};
use crate::storage::{key, AccountKey};
use crate::types::{
    AccountData, Amount, Balance, BalanceLock, BalanceStatus, CurrencyId, Effect, Event,
};
use vstd::prelude::*;

verus! {

/// One for what belongs to an account, nothing for the rest.
pub open spec fn belongs_to<V>(who: AccountId) -> spec_fn(AccountKey, V) -> int {
    |k: AccountKey, v: V|
        if k.who == who {
            1
        } else {
            0
        }
}

/// How many more providers than before the system is to count.
pub open spec fn providers(effects: Seq<Effect>, who: AccountId) -> int
    decreases effects.len(),
{
    if effects.len() == 0 {
        0
    } else {
        providers(effects.drop_last(), who) + if effects.last() == Effect::IncProviders(who) {
            1int
        } else if effects.last() == Effect::DecProviders(who) {
            -1
        } else {
            0
        }
    }
}

/// How many more consumers than before the system is to count.
pub open spec fn consumers(effects: Seq<Effect>, who: AccountId) -> int
    decreases effects.len(),
{
    if effects.len() == 0 {
        0
    } else {
        consumers(effects.drop_last(), who) + if effects.last() == Effect::IncConsumers(who) {
            1int
        } else if effects.last() == Effect::DecConsumers(who) {
            -1
        } else {
            0
        }
    }
}

impl State {
    /// Whether entries and locks are only stored where there is something to
    /// store.
    pub open spec fn is_tidy(self) -> bool {
        &&& self.accounts.dom().finite()
        &&& self.locks.dom().finite()
        &&& forall|k: AccountKey| #[trigger]
            self.accounts.contains_key(k) ==> self.accounts[k].holding() != 0
        &&& forall|k: AccountKey| #[trigger]
            self.locks.contains_key(k) ==> self.locks[k].len() != 0
    }

    /// How many entries are stored for an account.
    pub open spec fn entries(self, who: AccountId) -> int {
        sum_over(self.accounts, belongs_to::<AccountData>(who))
    }

    /// How many balances of an account have locks.
    pub open spec fn locked_entries(self, who: AccountId) -> int {
        sum_over(self.locks, belongs_to::<Seq<BalanceLock>>(who))
    }

    /// Whether the system counts one provider per stored entry and one consumer
    /// per locked balance.
    pub open spec fn is_counted(self) -> bool {
        forall|who: AccountId|
            #![trigger providers(self.effects, who)]
            #![trigger consumers(self.effects, who)]
            providers(self.effects, who) == self.entries(who) && consumers(self.effects, who)
                == self.locked_entries(who)
    }
}

/// Whether two ledgers agree on everything under other currencies than these.
pub open spec fn touches_only(s: State, t: State, currencies: Set<CurrencyId>) -> bool {
    &&& forall|who: AccountId, c: CurrencyId|
        #![trigger t.account(who, c)]
        #![trigger t.is_stored(who, c)]
        #![trigger t.locks_of(who, c)]
        !currencies.contains(c) ==> t.account(who, c) == s.account(who, c) && t.is_stored(who, c)
            == s.is_stored(who, c) && t.locks_of(who, c) == s.locks_of(who, c)
    &&& forall|c: CurrencyId|
        !currencies.contains(c) ==> #[trigger] t.total_issuance(c) == s.total_issuance(c)
}

/// Whether the system was told of every entry and every locked balance that came
/// or went between two ledgers.
pub open spec fn keeps_count(s: State, t: State) -> bool {
    forall|who: AccountId|
        #![trigger providers(t.effects, who)]
        #![trigger consumers(t.effects, who)]
        providers(t.effects, who) - providers(s.effects, who) == t.entries(who) - s.entries(who)
            && consumers(t.effects, who) - consumers(s.effects, who) == t.locked_entries(who)
            - s.locked_entries(who)
}

/// Whether an operation on a tidy ledger was in order: the ledger is tidy again,
/// the system was told of what came and went, no earlier work for the system was
/// taken back, and no other currency was touched.
pub open spec fn orderly(s: State, t: State, currencies: Set<CurrencyId>) -> bool {
    s.is_tidy() ==> {
        &&& t.is_tidy()
        &&& keeps_count(s, t)
        &&& s.effects.is_prefix_of(t.effects)
        &&& touches_only(s, t, currencies)
    }
}

/// What was told so far stays told.
pub proof fn law_orderly_keeps_counted(s: State, t: State, currencies: Set<CurrencyId>)
    requires
        s.is_tidy(),
        s.is_counted(),
        orderly(s, t, currencies),
    ensures
        t.is_counted(),
{
    assert forall|who: AccountId|
        #![trigger providers(t.effects, who)]
        #![trigger consumers(t.effects, who)]
        providers(t.effects, who) == t.entries(who) && consumers(t.effects, who)
            == t.locked_entries(who) by {
        assert(providers(s.effects, who) == s.entries(who));
    }
}

/// An operation made of two that are in order is in order.
pub proof fn lemma_orderly_twice(s: State, t: State, u: State, currencies: Set<CurrencyId>)
    requires
        orderly(s, t, currencies),
        orderly(t, u, currencies),
    ensures
        orderly(s, u, currencies),
{
    if s.is_tidy() {
        assert(s.effects =~= u.effects.subrange(0, s.effects.len() as int)) by {
            assert(s.effects =~= t.effects.subrange(0, s.effects.len() as int));
            assert(t.effects =~= u.effects.subrange(0, t.effects.len() as int));
            assert forall|i: int| 0 <= i < s.effects.len() implies s.effects[i] == u.effects[i] by {
                assert(t.effects[i] == u.effects.subrange(0, t.effects.len() as int)[i]);
                assert(s.effects[i] == t.effects.subrange(0, s.effects.len() as int)[i]);
            }
        }
        assert forall|who: AccountId|
            #![trigger providers(u.effects, who)]
            #![trigger consumers(u.effects, who)]
            providers(u.effects, who) - providers(s.effects, who) == u.entries(who) - s.entries(who)
                && consumers(u.effects, who) - consumers(s.effects, who) == u.locked_entries(who)
                - s.locked_entries(who) by {
            assert(providers(t.effects, who) - providers(s.effects, who) == t.entries(who)
                - s.entries(who));
        }
        assert forall|who: AccountId, c: CurrencyId|
            #![trigger u.account(who, c)]
            #![trigger u.is_stored(who, c)]
            #![trigger u.locks_of(who, c)]
            !currencies.contains(c) implies u.account(who, c) == s.account(who, c) && u.is_stored(
            who,
            c,
        ) == s.is_stored(who, c) && u.locks_of(who, c) == s.locks_of(who, c) by {
            assert(t.account(who, c) == s.account(who, c));
        }
        assert forall|c: CurrencyId| !currencies.contains(c) implies #[trigger] u.total_issuance(c)
            == s.total_issuance(c) by {
            assert(t.total_issuance(c) == s.total_issuance(c));
        }
    }
}

// Steps.
impl State {
    /// Doing nothing is in order.
    pub proof fn lemma_nothing_orderly(self, currencies: Set<CurrencyId>)
        ensures
            orderly(self, self, currencies),
    {
        assert(self.effects =~= self.effects.subrange(0, self.effects.len() as int));
    }

    /// Work that changes no count is in order.
    proof fn lemma_uncounted_orderly(self, effect: Effect, currencies: Set<CurrencyId>)
        requires
            effect is Deposit || effect is HandleDust,
        ensures
            orderly(self, self.with_effect(effect), currencies),
    {
        let t = self.with_effect(effect);
        assert(t.effects.drop_last() =~= self.effects);
        assert(self.effects =~= t.effects.subrange(0, self.effects.len() as int));
    }

    /// Announcing an event is in order.
    pub proof fn lemma_event_orderly(self, event: Event, currencies: Set<CurrencyId>)
        ensures
            orderly(self, self.with_event(event), currencies),
    {
        self.lemma_uncounted_orderly(Effect::Deposit(event), currencies);
    }

    /// Changing the total issuance is in order.
    pub proof fn lemma_issuance_orderly(
        self,
        currency_id: CurrencyId,
        amount: int,
        currencies: Set<CurrencyId>,
    )
        requires
            currencies.contains(currency_id),
        ensures
            orderly(self, self.with_issuance(currency_id, amount), currencies),
    {
        let t = self.with_issuance(currency_id, amount);
        assert(self.effects =~= t.effects.subrange(0, self.effects.len() as int));
    }

    /// Writing an entry is in order.
    pub proof fn lemma_write_orderly(
        self,
        who: AccountId,
        currency_id: CurrencyId,
        account: AccountData,
        currencies: Set<CurrencyId>,
    )
        requires
            currencies.contains(currency_id),
        ensures
            orderly(self, self.write_account(who, currency_id, account), currencies),
    {
        let t = self.write_account(who, currency_id, account);
        let k = key(who, currency_id);
        let entry = self.bound(who, currency_id, account);
        if self.is_tidy() {
            assert forall|w: AccountId|
                #![trigger providers(t.effects, w)]
                #![trigger consumers(t.effects, w)]
                providers(t.effects, w) - providers(self.effects, w) == t.entries(w) - self.entries(
                    w,
                ) && consumers(t.effects, w) - consumers(self.effects, w) == t.locked_entries(w)
                    - self.locked_entries(w) by {
                lemma_insert(self.accounts, belongs_to::<AccountData>(w), k, entry);
                lemma_remove(self.accounts, belongs_to::<AccountData>(w), k);
                if t.effects.len() > self.effects.len() {
                    assert(t.effects.drop_last() =~= self.effects);
                }
            }
            lemma_insert(self.accounts, belongs_to::<AccountData>(who), k, entry);
            lemma_remove(self.accounts, belongs_to::<AccountData>(who), k);
            assert(self.effects =~= t.effects.subrange(0, self.effects.len() as int));
            assert forall|w: AccountId, c: CurrencyId|
                #![trigger t.account(w, c)]
                #![trigger t.is_stored(w, c)]
                #![trigger t.locks_of(w, c)]
                !currencies.contains(c) implies t.account(w, c) == self.account(w, c)
                && t.is_stored(w, c) == self.is_stored(w, c) && t.locks_of(w, c) == self.locks_of(
                w,
                c,
            ) by {
                assert(key(w, c) != k);
            }
        }
    }

    /// Writing locks is in order.
    pub proof fn lemma_write_locks_orderly(
        self,
        who: AccountId,
        currency_id: CurrencyId,
        locks: Seq<BalanceLock>,
        currencies: Set<CurrencyId>,
    )
        requires
            currencies.contains(currency_id),
        ensures
            orderly(self, self.write_locks(who, currency_id, locks), currencies),
    {
        let t = self.write_locks(who, currency_id, locks);
        let k = key(who, currency_id);
        if self.is_tidy() {
            assert forall|w: AccountId|
                #![trigger providers(t.effects, w)]
                #![trigger consumers(t.effects, w)]
                providers(t.effects, w) - providers(self.effects, w) == t.entries(w) - self.entries(
                    w,
                ) && consumers(t.effects, w) - consumers(self.effects, w) == t.locked_entries(w)
                    - self.locked_entries(w) by {
                lemma_insert(self.locks, belongs_to::<Seq<BalanceLock>>(w), k, locks);
                lemma_remove(self.locks, belongs_to::<Seq<BalanceLock>>(w), k);
                if t.effects.len() > self.effects.len() {
                    assert(t.effects.drop_last() =~= self.effects);
                }
            }
            lemma_insert(self.locks, belongs_to::<Seq<BalanceLock>>(who), k, locks);
            lemma_remove(self.locks, belongs_to::<Seq<BalanceLock>>(who), k);
            assert(self.effects =~= t.effects.subrange(0, self.effects.len() as int));
            assert forall|w: AccountId, c: CurrencyId|
                #![trigger t.account(w, c)]
                #![trigger t.is_stored(w, c)]
                #![trigger t.locks_of(w, c)]
                !currencies.contains(c) implies t.account(w, c) == self.account(w, c)
                && t.is_stored(w, c) == self.is_stored(w, c) && t.locks_of(w, c) == self.locks_of(
                w,
                c,
            ) by {
                assert(key(w, c) != k);
            }
        }
    }

    /// Writing an entry and announcing dust is in order.
    proof fn lemma_record_orderly<T: Config>(
        self,
        who: AccountId,
        currency_id: CurrencyId,
        account: AccountData,
        currencies: Set<CurrencyId>,
    )
        requires
            currencies.contains(currency_id),
        ensures
            orderly(self, self.record_account::<T>(who, currency_id, account), currencies),
    {
        let s = self.write_account(who, currency_id, account);
        self.lemma_write_orderly(who, currency_id, account, currencies);
        if is_dust::<T>(who, currency_id, account) {
            let event = Event::DustLost(who, currency_id, account.spec_total());
            s.lemma_event_orderly(event, currencies);
            lemma_orderly_twice(self, s, s.with_event(event), currencies);
        }
    }

    /// Handling dust is in order.
    proof fn lemma_dust_orderly<T: Config>(
        self,
        who: AccountId,
        currency_id: CurrencyId,
        amount: Balance,
        currencies: Set<CurrencyId>,
    )
        requires
            currencies.contains(currency_id),
        ensures
            orderly(self, self.handle_dust::<T>(who, currency_id, amount), currencies),
    {
        let from = self.account(who, currency_id);
        let left = AccountData { free: (from.free - amount) as Balance, ..from };
        self.lemma_nothing_orderly(currencies);
        match T::spec_on_dust() {
            DustHandler::Ignore => {},
            DustHandler::Report => {
                self.lemma_uncounted_orderly(
                    Effect::HandleDust(who, currency_id, amount),
                    currencies,
                );
            },
            DustHandler::Transfer(h) => {
                let s = self.record_account::<T>(who, currency_id, left);
                self.lemma_record_orderly::<T>(who, currency_id, left, currencies);
                let more = AccountData {
                    free: (self.account(h.receiver, currency_id).free + amount) as Balance,
                    ..s.account(h.receiver, currency_id)
                };
                s.lemma_record_orderly::<T>(h.receiver, currency_id, more, currencies);
                lemma_orderly_twice(
                    self,
                    s,
                    s.record_account::<T>(h.receiver, currency_id, more),
                    currencies,
                );
            },
            DustHandler::Burn(_) => {
                let issued = self.total_issuance(currency_id) - amount;
                let s = self.with_issuance(currency_id, issued);
                self.lemma_issuance_orderly(currency_id, issued, currencies);
                s.lemma_record_orderly::<T>(who, currency_id, left, currencies);
                lemma_orderly_twice(
                    self,
                    s,
                    s.record_account::<T>(who, currency_id, left),
                    currencies,
                );
            },
        }
    }

    /// Writing an entry and handling its dust is in order.
    pub proof fn lemma_put_orderly<T: Config>(
        self,
        who: AccountId,
        currency_id: CurrencyId,
        account: AccountData,
        currencies: Set<CurrencyId>,
    )
        requires
            currencies.contains(currency_id),
        ensures
            orderly(self, self.put_account::<T>(who, currency_id, account), currencies),
    {
        let s = self.write_account(who, currency_id, account);
        self.lemma_write_orderly(who, currency_id, account, currencies);
        if is_dust::<T>(who, currency_id, account) {
            let dust = account.spec_total();
            let t = s.handle_dust::<T>(who, currency_id, dust);
            s.lemma_dust_orderly::<T>(who, currency_id, dust, currencies);
            lemma_orderly_twice(self, s, t, currencies);
            let event = Event::DustLost(who, currency_id, dust);
            t.lemma_event_orderly(event, currencies);
            lemma_orderly_twice(self, t, t.with_event(event), currencies);
        }
    }

    /// Setting a free balance is in order.
    pub proof fn lemma_set_free_orderly<T: Config>(
        self,
        currency_id: CurrencyId,
        who: AccountId,
        amount: int,
        currencies: Set<CurrencyId>,
    )
        requires
            currencies.contains(currency_id),
        ensures
            orderly(self, self.set_free::<T>(currency_id, who, amount), currencies),
    {
        self.lemma_put_orderly::<T>(
            who,
            currency_id,
            AccountData { free: amount as Balance, ..self.account(who, currency_id) },
            currencies,
        );
    }

    /// Setting a reserved balance is in order.
    pub proof fn lemma_set_reserved_orderly<T: Config>(
        self,
        currency_id: CurrencyId,
        who: AccountId,
        amount: int,
        currencies: Set<CurrencyId>,
    )
        requires
            currencies.contains(currency_id),
        ensures
            orderly(self, self.set_reserved::<T>(currency_id, who, amount), currencies),
    {
        self.lemma_put_orderly::<T>(
            who,
            currency_id,
            AccountData { reserved: amount as Balance, ..self.account(who, currency_id) },
            currencies,
        );
    }
}

// Operations.
impl State {
    /// A transfer is in order.
    pub proof fn law_transfer_orderly<T: Config>(
        self,
        currency_id: CurrencyId,
        from: AccountId,
        to: AccountId,
        amount: Balance,
        currencies: Set<CurrencyId>,
    )
        requires
            currencies.contains(currency_id),
        ensures
            orderly(self, self.transferred::<T>(currency_id, from, to, amount), currencies),
    {
        let from_free = self.account(from, currency_id).free - amount;
        let s = self.set_free::<T>(currency_id, from, from_free);
        let to_free = s.account(to, currency_id).free + amount;
        self.lemma_nothing_orderly(currencies);
        self.lemma_set_free_orderly::<T>(currency_id, from, from_free, currencies);
        s.lemma_set_free_orderly::<T>(currency_id, to, to_free, currencies);
        lemma_orderly_twice(self, s, s.set_free::<T>(currency_id, to, to_free), currencies);
    }

    /// A call that transfers is in order.
    pub proof fn law_transfer_call_orderly<T: Config>(
        self,
        from: AccountId,
        to: AccountId,
        currency_id: CurrencyId,
        amount: Balance,
        currencies: Set<CurrencyId>,
    )
        requires
            currencies.contains(currency_id),
        ensures
            orderly(self, self.transfer_called::<T>(from, to, currency_id, amount), currencies),
    {
        let s = self.transferred::<T>(currency_id, from, to, amount);
        let event = Event::Transferred(currency_id, from, to, amount);
        self.lemma_nothing_orderly(currencies);
        self.law_transfer_orderly::<T>(currency_id, from, to, amount, currencies);
        s.lemma_event_orderly(event, currencies);
        lemma_orderly_twice(self, s, s.with_event(event), currencies);
    }

    /// A deposit is in order.
    pub proof fn law_deposit_orderly<T: Config>(
        self,
        currency_id: CurrencyId,
        who: AccountId,
        amount: Balance,
        currencies: Set<CurrencyId>,
    )
        requires
            currencies.contains(currency_id),
        ensures
            orderly(self, self.deposited::<T>(currency_id, who, amount), currencies),
    {
        let free = self.account(who, currency_id).free + amount;
        let issued = self.total_issuance(currency_id) + amount;
        let s = self.with_issuance(currency_id, issued);
        self.lemma_nothing_orderly(currencies);
        self.lemma_issuance_orderly(currency_id, issued, currencies);
        s.lemma_set_free_orderly::<T>(currency_id, who, free, currencies);
        lemma_orderly_twice(self, s, s.set_free::<T>(currency_id, who, free), currencies);
    }

    /// A withdrawal is in order.
    pub proof fn law_withdrawal_orderly<T: Config>(
        self,
        currency_id: CurrencyId,
        who: AccountId,
        amount: Balance,
        currencies: Set<CurrencyId>,
    )
        requires
            currencies.contains(currency_id),
        ensures
            orderly(self, self.withdrawn::<T>(currency_id, who, amount), currencies),
    {
        let free = self.account(who, currency_id).free - amount;
        let issued = self.total_issuance(currency_id) - amount;
        let s = self.with_issuance(currency_id, issued);
        self.lemma_nothing_orderly(currencies);
        self.lemma_issuance_orderly(currency_id, issued, currencies);
        s.lemma_set_free_orderly::<T>(currency_id, who, free, currencies);
        lemma_orderly_twice(self, s, s.set_free::<T>(currency_id, who, free), currencies);
    }

    /// A signed change of a balance is in order.
    pub proof fn law_update_balance_orderly<T: Config>(
        self,
        currency_id: CurrencyId,
        who: AccountId,
        by_amount: Amount,
        currencies: Set<CurrencyId>,
    )
        requires
            currencies.contains(currency_id),
        ensures
            orderly(self, self.balance_updated::<T>(currency_id, who, by_amount), currencies),
    {
        self.lemma_nothing_orderly(currencies);
        self.law_deposit_orderly::<T>(currency_id, who, magnitude(by_amount), currencies);
        self.law_withdrawal_orderly::<T>(currency_id, who, magnitude(by_amount), currencies);
    }

    /// Slashing an account is in order.
    pub proof fn law_slash_account_orderly<T: Config>(
        self,
        currency_id: CurrencyId,
        who: AccountId,
        amount: Balance,
        currencies: Set<CurrencyId>,
    )
        requires
            currencies.contains(currency_id),
        ensures
            orderly(self, self.slashed_account::<T>(currency_id, who, amount), currencies),
    {
        let free = self.account(who, currency_id).free - self.free_slash(currency_id, who, amount);
        let reserved = self.account(who, currency_id).reserved - self.reserved_slash(
            currency_id,
            who,
            amount,
        );
        let s = self.slashed_free::<T>(currency_id, who, amount);
        self.lemma_nothing_orderly(currencies);
        self.lemma_set_free_orderly::<T>(currency_id, who, free, currencies);
        s.lemma_set_reserved_orderly::<T>(currency_id, who, reserved, currencies);
        lemma_orderly_twice(self, s, s.set_reserved::<T>(currency_id, who, reserved), currencies);
    }

    /// A slash is in order.
    pub proof fn law_slash_orderly<T: Config>(
        self,
        currency_id: CurrencyId,
        who: AccountId,
        amount: Balance,
        currencies: Set<CurrencyId>,
    )
        requires
            currencies.contains(currency_id),
        ensures
            orderly(self, self.slashed::<T>(currency_id, who, amount), currencies),
    {
        let s = self.slashed_account::<T>(currency_id, who, amount);
        let issued = s.total_issuance(currency_id) - (amount - self.unslashed(
            currency_id,
            who,
            amount,
        ));
        self.lemma_nothing_orderly(currencies);
        self.law_slash_account_orderly::<T>(currency_id, who, amount, currencies);
        s.lemma_issuance_orderly(currency_id, issued, currencies);
        lemma_orderly_twice(self, s, s.with_issuance(currency_id, issued), currencies);
    }

    /// A slash of a reserved balance is in order.
    pub proof fn law_slash_reserved_orderly<T: Config>(
        self,
        currency_id: CurrencyId,
        who: AccountId,
        value: Balance,
        currencies: Set<CurrencyId>,
    )
        requires
            currencies.contains(currency_id),
        ensures
            orderly(self, self.reserve_slashed::<T>(currency_id, who, value), currencies),
    {
        let actual = self.from_reserve(currency_id, who, value);
        let left = self.account(who, currency_id).reserved - actual;
        let s = self.set_reserved::<T>(currency_id, who, left);
        let issued = s.total_issuance(currency_id) - actual;
        self.lemma_nothing_orderly(currencies);
        self.lemma_set_reserved_orderly::<T>(currency_id, who, left, currencies);
        s.lemma_issuance_orderly(currency_id, issued, currencies);
        lemma_orderly_twice(self, s, s.with_issuance(currency_id, issued), currencies);
    }

    /// Reserving is in order.
    pub proof fn law_reserve_orderly<T: Config>(
        self,
        currency_id: CurrencyId,
        who: AccountId,
        value: Balance,
        currencies: Set<CurrencyId>,
    )
        requires
            currencies.contains(currency_id),
        ensures
            orderly(self, self.reserved::<T>(currency_id, who, value), currencies),
    {
        self.lemma_nothing_orderly(currencies);
        self.lemma_put_orderly::<T>(
            who,
            currency_id,
            self.reserve_entry(currency_id, who, value as int),
            currencies,
        );
    }

    /// Unreserving is in order.
    pub proof fn law_unreserve_orderly<T: Config>(
        self,
        currency_id: CurrencyId,
        who: AccountId,
        value: Balance,
        currencies: Set<CurrencyId>,
    )
        requires
            currencies.contains(currency_id),
        ensures
            orderly(self, self.unreserved::<T>(currency_id, who, value), currencies),
    {
        self.lemma_nothing_orderly(currencies);
        self.lemma_put_orderly::<T>(
            who,
            currency_id,
            self.reserve_entry(currency_id, who, -self.from_reserve(currency_id, who, value)),
            currencies,
        );
    }

    /// A repatriation is in order.
    pub proof fn law_repatriate_orderly<T: Config>(
        self,
        currency_id: CurrencyId,
        slashed: AccountId,
        beneficiary: AccountId,
        value: Balance,
        status: BalanceStatus,
        currencies: Set<CurrencyId>,
    )
        requires
            currencies.contains(currency_id),
        ensures
            orderly(
                self,
                self.repatriated::<T>(currency_id, slashed, beneficiary, value, status),
                currencies,
            ),
    {
        let actual = self.from_reserve(currency_id, slashed, value);
        let left = self.account(slashed, currency_id).reserved - actual;
        let s = self.beneficiary_paid::<T>(currency_id, slashed, beneficiary, value, status);
        self.lemma_nothing_orderly(currencies);
        self.law_unreserve_orderly::<T>(currency_id, slashed, value, currencies);
        match status {
            BalanceStatus::Free => {
                self.lemma_set_free_orderly::<T>(
                    currency_id,
                    beneficiary,
                    self.account(beneficiary, currency_id).free + actual,
                    currencies,
                );
            },
            BalanceStatus::Reserved => {
                self.lemma_set_reserved_orderly::<T>(
                    currency_id,
                    beneficiary,
                    self.account(beneficiary, currency_id).reserved + actual,
                    currencies,
                );
            },
        }
        s.lemma_set_reserved_orderly::<T>(currency_id, slashed, left, currencies);
        lemma_orderly_twice(self, s, s.set_reserved::<T>(currency_id, slashed, left), currencies);
    }

    /// A change of locks is in order.
    pub proof fn law_locks_orderly<T: Config>(
        self,
        currency_id: CurrencyId,
        who: AccountId,
        locks: Seq<BalanceLock>,
        currencies: Set<CurrencyId>,
    )
        requires
            currencies.contains(currency_id),
        ensures
            orderly(self, self.update_locks::<T>(currency_id, who, locks), currencies),
    {
        let account = self.locked_account(who, currency_id, locks);
        let s = self.put_account::<T>(who, currency_id, account);
        self.lemma_put_orderly::<T>(who, currency_id, account, currencies);
        s.lemma_write_locks_orderly(who, currency_id, locks, currencies);
        lemma_orderly_twice(self, s, s.write_locks(who, currency_id, locks), currencies);
    }
}

// Operations that leave an imbalance.
impl State {
    /// Burning is in order.
    pub proof fn law_burn_orderly(
        self,
        currency_id: CurrencyId,
        amount: Balance,
        currencies: Set<CurrencyId>,
    )
        requires
            currencies.contains(currency_id),
        ensures
            orderly(self, self.issuance_burnt(currency_id, amount), currencies),
    {
        self.lemma_nothing_orderly(currencies);
        self.lemma_issuance_orderly(
            currency_id,
            self.total_issuance(currency_id) - self.burnable(currency_id, amount),
            currencies,
        );
    }

    /// Issuing is in order.
    pub proof fn law_issue_orderly(
        self,
        currency_id: CurrencyId,
        amount: Balance,
        currencies: Set<CurrencyId>,
    )
        requires
            currencies.contains(currency_id),
        ensures
            orderly(self, self.issuance_issued(currency_id, amount), currencies),
    {
        self.lemma_nothing_orderly(currencies);
        self.lemma_issuance_orderly(
            currency_id,
            self.total_issuance(currency_id) + self.issuable(currency_id, amount),
            currencies,
        );
    }

    /// Settling an imbalance is in order.
    pub proof fn law_settling_orderly(
        self,
        currency_id: CurrencyId,
        imbalance: SignedImbalance,
        currencies: Set<CurrencyId>,
    )
        requires
            currencies.contains(currency_id),
        ensures
            orderly(self, self.settled(currency_id, imbalance), currencies),
    {
        self.lemma_issuance_orderly(
            currency_id,
            saturated(self.total_issuance(currency_id) + signed_amount(imbalance)) as int,
            currencies,
        );
    }

    /// Adding to, taking from and setting a free balance are in order.
    pub proof fn law_free_changes_orderly<T: Config>(
        self,
        currency_id: CurrencyId,
        who: AccountId,
        value: Balance,
        currencies: Set<CurrencyId>,
    )
        requires
            currencies.contains(currency_id),
        ensures
            orderly(self, self.free_added::<T>(currency_id, who, value), currencies),
            orderly(self, self.free_taken::<T>(currency_id, who, value), currencies),
            orderly(self, self.free_made::<T>(currency_id, who, value), currencies),
    {
        let free = self.account(who, currency_id).free;
        self.lemma_nothing_orderly(currencies);
        self.lemma_set_free_orderly::<T>(currency_id, who, free + value, currencies);
        self.lemma_set_free_orderly::<T>(currency_id, who, free - value, currencies);
        self.lemma_set_free_orderly::<T>(currency_id, who, value as int, currencies);
    }
}

// Operations on two currencies, or on more.
impl State {
    /// Changing the reserves of the serpers is in order.
    proof fn lemma_serpers_orderly<T: Config>(
        self,
        native_currency_id: CurrencyId,
        stable_currency_id: CurrencyId,
        native_change: int,
        stable_change: int,
        currencies: Set<CurrencyId>,
    )
        requires
            currencies.contains(native_currency_id),
            currencies.contains(stable_currency_id),
        ensures
            orderly(
                self,
                self.serpers_reserve::<T>(
                    native_currency_id,
                    stable_currency_id,
                    native_change,
                    stable_change,
                ),
                currencies,
            ),
    {
        let serpers = T::spec_serper_acc();
        let native = self.account(serpers, native_currency_id).reserved + native_change;
        let stable = self.account(serpers, stable_currency_id).reserved + stable_change;
        let s = self.set_reserved::<T>(native_currency_id, serpers, native);
        self.lemma_set_reserved_orderly::<T>(native_currency_id, serpers, native, currencies);
        s.lemma_set_reserved_orderly::<T>(stable_currency_id, serpers, stable, currencies);
        lemma_orderly_twice(
            self,
            s,
            s.set_reserved::<T>(stable_currency_id, serpers, stable),
            currencies,
        );
    }

    /// Changing two total issuances after something that was in order is in
    /// order.
    proof fn lemma_two_issuances_orderly(
        self,
        s: State,
        first: CurrencyId,
        first_change: int,
        second: CurrencyId,
        second_change: int,
        currencies: Set<CurrencyId>,
    )
        requires
            currencies.contains(first),
            currencies.contains(second),
            orderly(self, s, currencies),
        ensures
            orderly(
                self,
                s.change_issuance(first, first_change).change_issuance(second, second_change),
                currencies,
            ),
    {
        let t = s.change_issuance(first, first_change);
        let u = t.change_issuance(second, second_change);
        s.lemma_issuance_orderly(first, s.total_issuance(first) + first_change, currencies);
        t.lemma_issuance_orderly(second, t.total_issuance(second) + second_change, currencies);
        lemma_orderly_twice(self, s, t, currencies);
        lemma_orderly_twice(self, t, u, currencies);
    }

    /// An expansion is in order.
    pub proof fn law_expansion_orderly<T: Config>(
        self,
        native_currency_id: CurrencyId,
        stable_currency_id: CurrencyId,
        expand_by: Balance,
        quote_price: Balance,
        currencies: Set<CurrencyId>,
    )
        requires
            currencies.contains(native_currency_id),
            currencies.contains(stable_currency_id),
        ensures
            orderly(
                self,
                self.expanded::<T>(
                    native_currency_id,
                    stable_currency_id,
                    expand_by,
                    quote_price,
                ),
                currencies,
            ),
    {
        let pay = self.expansion_payment::<T>(stable_currency_id, expand_by, quote_price);
        let more = expand_by as int;
        self.lemma_nothing_orderly(currencies);
        self.lemma_serpers_orderly::<T>(
            native_currency_id,
            stable_currency_id,
            -pay,
            more,
            currencies,
        );
        self.lemma_two_issuances_orderly(
            self.serpers_reserve::<T>(native_currency_id, stable_currency_id, -pay, more),
            native_currency_id,
            -pay,
            stable_currency_id,
            more,
            currencies,
        );
    }

    /// A contraction is in order.
    pub proof fn law_contraction_orderly<T: Config>(
        self,
        native_currency_id: CurrencyId,
        stable_currency_id: CurrencyId,
        contract_by: Balance,
        quote_price: Balance,
        currencies: Set<CurrencyId>,
    )
        requires
            currencies.contains(native_currency_id),
            currencies.contains(stable_currency_id),
        ensures
            orderly(
                self,
                self.contracted::<T>(
                    native_currency_id,
                    stable_currency_id,
                    contract_by,
                    quote_price,
                ),
                currencies,
            ),
    {
        let pay = self.contraction_payment::<T>(stable_currency_id, contract_by, quote_price);
        let less = -(contract_by as int);
        self.lemma_nothing_orderly(currencies);
        self.lemma_serpers_orderly::<T>(
            native_currency_id,
            stable_currency_id,
            pay,
            less,
            currencies,
        );
        self.lemma_two_issuances_orderly(
            self.serpers_reserve::<T>(native_currency_id, stable_currency_id, pay, less),
            stable_currency_id,
            less,
            native_currency_id,
            pay,
            currencies,
        );
    }

    /// An adjustment of the supply is in order.
    pub proof fn law_adjustment_orderly<T: Config>(
        self,
        stable_currency_id: CurrencyId,
        stable_currency_price: Balance,
        native_currency_id: CurrencyId,
        native_currency_price: Balance,
        currencies: Set<CurrencyId>,
    )
        requires
            currencies.contains(native_currency_id),
            currencies.contains(stable_currency_id),
        ensures
            orderly(
                self,
                self.adjusted::<T>(
                    stable_currency_id,
                    stable_currency_price,
                    native_currency_id,
                    native_currency_price,
                ),
                currencies,
            ),
    {
        let change = self.supply_off::<T>(stable_currency_id, stable_currency_price);
        self.lemma_nothing_orderly(currencies);
        self.law_expansion_orderly::<T>(
            native_currency_id,
            stable_currency_id,
            change,
            native_currency_price,
            currencies,
        );
        self.law_contraction_orderly::<T>(
            native_currency_id,
            stable_currency_id,
            change,
            native_currency_price,
            currencies,
        );
    }

    /// A merge is in order.
    pub proof fn law_merge_orderly<T: Config>(
        self,
        source: AccountId,
        dest: AccountId,
        walk: Seq<CurrencyId>,
        currencies: Set<CurrencyId>,
    )
        requires
            forall|c: CurrencyId| #[trigger] walk.contains(c) ==> currencies.contains(c),
        ensures
            orderly(self, self.merged::<T>(source, dest, walk), currencies),
        decreases walk.len(),
    {
        self.lemma_nothing_orderly(currencies);
        if walk.len() > 0 {
            let front = walk.drop_last();
            let c = walk.last();
            assert forall|d: CurrencyId| #[trigger] front.contains(d) implies currencies.contains(
                d,
            ) by {
                let i = choose|i: int| 0 <= i < front.len() && front[i] == d;
                assert(walk[i] == d);
                assert(walk.contains(d));
            }
            assert(walk[walk.len() - 1] == c);
            assert(walk.contains(c));
            self.law_merge_orderly::<T>(source, dest, front, currencies);
            if let Ok(s) = self.merge_all::<T>(source, dest, front) {
                assert(self.merged::<T>(source, dest, front) == s);
                let free = s.account(source, c).free;
                s.law_transfer_orderly::<T>(c, source, dest, free, currencies);
                lemma_orderly_twice(
                    self,
                    s,
                    s.transferred::<T>(c, source, dest, free),
                    currencies,
                );
            }
        }
    }

    /// Endowing accounts is in order.
    pub proof fn law_genesis_orderly<T: Config>(
        self,
        endowed: Seq<(AccountId, CurrencyId, Balance)>,
        currencies: Set<CurrencyId>,
    )
        requires
            forall|i: int| 0 <= i < endowed.len() ==> currencies.contains((#[trigger] endowed[i]).1),
        ensures
            orderly(self, self.endowed::<T>(endowed), currencies),
        decreases endowed.len(),
    {
        self.lemma_nothing_orderly(currencies);
        if endowed.len() > 0 {
            let front = endowed.drop_last();
            let (who, c, initial_balance) = endowed.last();
            assert forall|i: int| 0 <= i < front.len() implies currencies.contains(
                (#[trigger] front[i]).1,
            ) by {
                assert(endowed[i] == front[i]);
            }
            assert(endowed[endowed.len() - 1].1 == c);
            self.law_genesis_orderly::<T>(front, currencies);
            let s = self.endowed::<T>(front);
            let t = s.set_free::<T>(c, who, initial_balance as int);
            s.lemma_set_free_orderly::<T>(c, who, initial_balance as int, currencies);
            lemma_orderly_twice(self, s, t, currencies);
            let issued = t.total_issuance(c) + initial_balance;
            t.lemma_issuance_orderly(c, issued, currencies);
            lemma_orderly_twice(self, t, t.with_issuance(c, issued), currencies);
        }
    }

    /// A ledger in which nothing was ever written is tidy and counted.
    pub proof fn law_empty_is_tidy()
        ensures
            State::empty().is_tidy(),
            State::empty().is_counted(),
    {
    }
}

} // verus!
