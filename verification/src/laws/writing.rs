//! What the writing of one entry does to a ledger, all of it: to the entries,
//! the total issuances and the work for the system.
use crate::account::AccountId;
use crate::config::Config;
use crate::dust::DustHandler;
use crate::laws::locking::law_largest_lock_counts;
use crate::lockable::largest_lock;
use crate::state::{is_dust, State};
use crate::storage::AccountKey;
use crate::types::{AccountData, Balance, BalanceLock, CurrencyId, Effect, Event};
use vstd::prelude::*;

verus! {

/// Whether a balance is the largest of another and of those that are locked.
pub open spec fn is_largest(frozen: Balance, own: Balance, locks: Seq<BalanceLock>) -> bool {
    &&& own <= frozen
    &&& forall|i: int| 0 <= i < locks.len() ==> (#[trigger] locks[i]).amount <= frozen
    &&& own == frozen || exists|i: int|
        0 <= i < locks.len() && (#[trigger] locks[i]).amount == frozen
}

/// What is dust: more than nothing, less than the existential deposit, free and
/// reserved together, in the hands of somebody other than a module.
pub proof fn law_dust<T: Config>(who: AccountId, currency_id: CurrencyId, account: AccountData)
    ensures
        is_dust::<T>(who, currency_id, account) <==> {
            &&& account.free != 0 || account.reserved != 0
            &&& account.free + account.reserved < T::spec_existential_deposit(currency_id)
            &&& !who.is_module()
        },
{
}

impl State {
    /// Whether `entry` is what is to be stored where `account` is written: the
    /// same, but that one which is new is frozen for its locks too.
    pub open spec fn stores_as(
        self,
        who: AccountId,
        currency_id: CurrencyId,
        account: AccountData,
        entry: AccountData,
    ) -> bool {
        let k = AccountKey { who, currency_id };
        &&& entry.free == account.free
        &&& entry.reserved == account.reserved
        &&& if self.accounts.contains_key(k) {
            entry.frozen == account.frozen
        } else {
            is_largest(
                entry.frozen,
                account.frozen,
                if self.locks.contains_key(k) {
                    self.locks[k]
                } else {
                    Seq::empty()
                },
            )
        }
    }

    /// What the system is told where an entry is stored: that it came, if it was
    /// not there.
    pub open spec fn arrival(self, who: AccountId, currency_id: CurrencyId) -> Seq<Effect> {
        if self.accounts.contains_key(AccountKey { who, currency_id }) {
            Seq::empty()
        } else {
            seq![Effect::IncProviders(who)]
        }
    }

    /// There is one way to store what is written.
    proof fn lemma_bound(
        self,
        who: AccountId,
        currency_id: CurrencyId,
        account: AccountData,
        entry: AccountData,
    )
        requires
            self.stores_as(who, currency_id, account, entry),
        ensures
            self.bound(who, currency_id, account) == entry,
    {
        let locks = self.locks_of(who, currency_id);
        law_largest_lock_counts(locks);
        if !self.is_stored(who, currency_id) {
            let b = self.bound(who, currency_id, account);
            if entry.frozen != account.frozen {
                let i = choose|i: int|
                    0 <= i < locks.len() && (#[trigger] locks[i]).amount == entry.frozen;
                assert(locks[i].amount <= largest_lock(locks));
            }
            if locks.len() > 0 {
                let j = choose|j: int|
                    0 <= j < locks.len() && (#[trigger] locks[j]).amount == largest_lock(locks);
                assert(locks[j].amount <= entry.frozen);
            } else {
                assert(largest_lock(locks) == 0);
            }
            assert(b.frozen == entry.frozen);
        }
    }

    /// Whatever is written can be stored.
    pub proof fn law_can_be_stored(
        self,
        who: AccountId,
        currency_id: CurrencyId,
        account: AccountData,
    )
        ensures
            exists|entry: AccountData| self.stores_as(who, currency_id, account, entry),
    {
        let locks = self.locks_of(who, currency_id);
        law_largest_lock_counts(locks);
        let entry = self.bound(who, currency_id, account);
        if !self.is_stored(who, currency_id) && entry.frozen != account.frozen {
            assert(locks.len() > 0);
            let j = choose|j: int|
                0 <= j < locks.len() && (#[trigger] locks[j]).amount == largest_lock(locks);
            assert(locks[j].amount == entry.frozen);
        }
        assert(self.stores_as(who, currency_id, account, entry));
    }

    /// An entry that holds nothing is not stored, whatever is frozen, and the
    /// system is told that it went, if it was there. Nothing else changes.
    pub proof fn law_nothing_is_not_stored<T: Config>(
        self,
        who: AccountId,
        currency_id: CurrencyId,
        account: AccountData,
    )
        requires
            account.free == 0,
            account.reserved == 0,
        ensures
            ({
                let k = AccountKey { who, currency_id };
                self.put_account::<T>(who, currency_id, account) == (State {
                    accounts: self.accounts.remove(k),
                    effects: self.effects + if self.accounts.contains_key(k) {
                        seq![Effect::DecProviders(who)]
                    } else {
                        Seq::empty()
                    },
                    ..self
                })
            }),
            self.put_fits::<T>(who, currency_id, account),
    {
        assert(self.effects + Seq::<Effect>::empty() =~= self.effects);
        assert(self.effects + seq![Effect::DecProviders(who)] =~= self.effects.push(
            Effect::DecProviders(who),
        ));
    }

    /// An entry that holds the existential deposit or more is stored, as is any
    /// of a module that holds something, and the system is told that it came, if
    /// it was not there. Nothing else changes.
    pub proof fn law_enough_is_stored<T: Config>(
        self,
        who: AccountId,
        currency_id: CurrencyId,
        account: AccountData,
        entry: AccountData,
    )
        requires
            self.stores_as(who, currency_id, account, entry),
            account.free + account.reserved > 0,
            account.free + account.reserved >= T::spec_existential_deposit(currency_id)
                || who.is_module(),
        ensures
            self.put_account::<T>(who, currency_id, account) == (State {
                accounts: self.accounts.insert(AccountKey { who, currency_id }, entry),
                effects: self.effects + self.arrival(who, currency_id),
                ..self
            }),
            self.put_fits::<T>(who, currency_id, account),
    {
        self.lemma_bound(who, currency_id, account, entry);
        assert(self.effects + Seq::<Effect>::empty() =~= self.effects);
        assert(self.effects + seq![Effect::IncProviders(who)] =~= self.effects.push(
            Effect::IncProviders(who),
        ));
    }

    /// Less than the existential deposit is dust, unless a module has it: it is
    /// stored, the handler of the runtime is told how much it is, and so is
    /// everybody. This is so with a handler that leaves dust where it is, and
    /// with one that cannot move or burn it: because some of it is reserved or
    /// frozen, or because it would go where it is, or where there is no room.
    pub proof fn law_dust_stays<T: Config>(
        self,
        who: AccountId,
        currency_id: CurrencyId,
        account: AccountData,
        entry: AccountData,
    )
        requires
            self.stores_as(who, currency_id, account, entry),
            0 < account.free + account.reserved < T::spec_existential_deposit(currency_id),
            !who.is_module(),
            match T::spec_on_dust() {
                DustHandler::Ignore => true,
                DustHandler::Report => true,
                DustHandler::Burn(_) => entry.reserved != 0 || entry.frozen != 0,
                DustHandler::Transfer(h) => entry.reserved != 0 || entry.frozen != 0 || h.receiver
                    == who || self.account(h.receiver, currency_id).free + entry.free
                    > Balance::MAX,
            },
        ensures
            ({
                let dust = (account.free + account.reserved) as Balance;
                let lost = seq![Effect::Deposit(Event::DustLost(who, currency_id, dust))];
                let reported = if T::spec_on_dust() is Report {
                    seq![Effect::HandleDust(who, currency_id, dust)]
                } else {
                    Seq::empty()
                };
                self.put_account::<T>(who, currency_id, account) == (State {
                    accounts: self.accounts.insert(AccountKey { who, currency_id }, entry),
                    effects: self.effects + self.arrival(who, currency_id) + reported + lost,
                    ..self
                })
            }),
            self.put_fits::<T>(who, currency_id, account),
    {
        self.lemma_bound(who, currency_id, account, entry);
        let dust = (account.free + account.reserved) as Balance;
        let s = self.write_account(who, currency_id, account);
        assert(s.account(who, currency_id) == entry);
        if let DustHandler::Transfer(h) = T::spec_on_dust() {
            if h.receiver != who {
                assert(s.account(h.receiver, currency_id) == self.account(
                    h.receiver,
                    currency_id,
                ));
            }
        }
        let t = self.put_account::<T>(who, currency_id, account);
        let lost = seq![Effect::Deposit(Event::DustLost(who, currency_id, dust))];
        let reported = if T::spec_on_dust() is Report {
            seq![Effect::HandleDust(who, currency_id, dust)]
        } else {
            Seq::empty()
        };
        assert(t.effects =~= self.effects + self.arrival(who, currency_id) + reported + lost);
    }

    /// Where dust is burnt, an entry below the existential deposit of which
    /// nothing is reserved or frozen goes, unless it is that of a module. As much
    /// less is issued, the system is told that the entry went, also if it only
    /// just came, and everybody how much it was. That can be done if as much was
    /// issued.
    pub proof fn law_dust_burns<T: Config>(
        self,
        who: AccountId,
        currency_id: CurrencyId,
        account: AccountData,
        entry: AccountData,
    )
        requires
            self.stores_as(who, currency_id, account, entry),
            0 < account.free + account.reserved < T::spec_existential_deposit(currency_id),
            !who.is_module(),
            T::spec_on_dust() is Burn,
            entry.reserved == 0,
            entry.frozen == 0,
        ensures
            self.put_fits::<T>(who, currency_id, account) <==> account.free <= self.total_issuance(
                currency_id,
            ),
            account.free <= self.total_issuance(currency_id) ==> self.put_account::<T>(
                who,
                currency_id,
                account,
            ) == (State {
                accounts: self.accounts.remove(AccountKey { who, currency_id }),
                issuance: self.issuance.insert(
                    currency_id,
                    (self.total_issuance(currency_id) - account.free) as Balance,
                ),
                effects: self.effects + self.arrival(who, currency_id)
                    + seq![
                    Effect::DecProviders(who),
                    Effect::Deposit(Event::DustLost(who, currency_id, account.free)),
                ],
                ..self
            }),
    {
        self.lemma_bound(who, currency_id, account, entry);
        let s = self.write_account(who, currency_id, account);
        assert(s.account(who, currency_id) == entry);
        let t = self.put_account::<T>(who, currency_id, account);
        assert(t.accounts =~= self.accounts.remove(AccountKey { who, currency_id }));
        assert(t.effects =~= self.effects + self.arrival(who, currency_id)
            + seq![
            Effect::DecProviders(who),
            Effect::Deposit(Event::DustLost(who, currency_id, account.free)),
        ]);
    }

    /// Where dust is moved, an entry below the existential deposit of which
    /// nothing is reserved or frozen goes, unless it is that of a module or of
    /// the receiver, or the receiver has no room for it. The receiver has as much
    /// more, the system is told that the entry went, also if it only just came,
    /// and that the one of the receiver came, if it was not there. Everybody is
    /// told how much it was, and what the receiver has if that is dust still.
    pub proof fn law_dust_moves<T: Config>(
        self,
        who: AccountId,
        currency_id: CurrencyId,
        account: AccountData,
        entry: AccountData,
        receiver: AccountId,
        received: AccountData,
    )
        requires
            self.stores_as(who, currency_id, account, entry),
            0 < account.free + account.reserved < T::spec_existential_deposit(currency_id),
            !who.is_module(),
            T::spec_on_dust() matches DustHandler::Transfer(h) && h.receiver == receiver,
            entry.reserved == 0,
            entry.frozen == 0,
            receiver != who,
            self.account(receiver, currency_id).free + account.free <= Balance::MAX,
            ({
                let target = self.account(receiver, currency_id);
                self.stores_as(
                    receiver,
                    currency_id,
                    AccountData { free: (target.free + account.free) as Balance, ..target },
                    received,
                )
            }),
        ensures
            ({
                let total = received.free + received.reserved;
                let noted = if total < T::spec_existential_deposit(currency_id)
                    && !receiver.is_module() {
                    seq![
                        Effect::Deposit(Event::DustLost(receiver, currency_id, total as Balance)),
                    ]
                } else {
                    Seq::empty()
                };
                self.put_account::<T>(who, currency_id, account) == (State {
                    accounts: self.accounts.remove(AccountKey { who, currency_id }).insert(
                        AccountKey { who: receiver, currency_id },
                        received,
                    ),
                    effects: self.effects + self.arrival(who, currency_id)
                        + seq![Effect::DecProviders(who)] + self.arrival(receiver, currency_id)
                        + noted + seq![
                        Effect::Deposit(Event::DustLost(who, currency_id, account.free)),
                    ],
                    ..self
                })
            }),
            self.put_fits::<T>(who, currency_id, account),
    {
        self.lemma_bound(who, currency_id, account, entry);
        let target = self.account(receiver, currency_id);
        let more = AccountData { free: (target.free + account.free) as Balance, ..target };
        let s = self.write_account(who, currency_id, account);
        assert(s.account(who, currency_id) == entry);
        assert(s.account(receiver, currency_id) == target);
        let left = AccountData { free: 0, ..entry };
        let u = s.record_account::<T>(who, currency_id, left);
        assert(u.account(receiver, currency_id) == target);
        assert(u.locks == self.locks);
        assert(u.is_stored(receiver, currency_id) == self.is_stored(receiver, currency_id));
        assert(u.stores_as(receiver, currency_id, more, received));
        u.lemma_bound(receiver, currency_id, more, received);
        let t = self.put_account::<T>(who, currency_id, account);
        assert(t.accounts =~= self.accounts.remove(AccountKey { who, currency_id }).insert(
            AccountKey { who: receiver, currency_id },
            received,
        ));
        let total = received.free + received.reserved;
        let noted = if total < T::spec_existential_deposit(currency_id) && !receiver.is_module() {
            seq![Effect::Deposit(Event::DustLost(receiver, currency_id, total as Balance))]
        } else {
            Seq::empty()
        };
        assert(t.effects =~= self.effects + self.arrival(who, currency_id)
            + seq![Effect::DecProviders(who)] + self.arrival(receiver, currency_id) + noted + seq![
            Effect::Deposit(Event::DustLost(who, currency_id, account.free)),
        ]);
    }
}

} // verus!
