//! The ledger, and the writing of its entries.
use crate::account::{module_of, AccountId};
use crate::config::Config;
use crate::dust::DustHandler;
use crate::lockable::compute_largest_lock;
use crate::state::{is_dust, State};
use crate::storage::{key, lists, AccountKey, StorageMap};
use crate::types::{AccountData, Balance, BalanceLock, CurrencyId, Effect, Event};
use std::marker::PhantomData;
use vstd::prelude::*;

verus! {

/// The ledger of a runtime with parameters `T`.
pub struct Pallet<T: Config> {
    accounts: StorageMap<AccountKey, AccountData>,
    issuance: StorageMap<CurrencyId, Balance>,
    locks: StorageMap<AccountKey, Vec<BalanceLock>>,
    effects: Vec<Effect>,
    config: PhantomData<T>,
}

impl<T: Config> View for Pallet<T> {
    type V = State;

    closed spec fn view(&self) -> State {
        State {
            accounts: self.accounts@,
            issuance: self.issuance@,
            locks: lists(self.locks@),
            effects: self.effects@,
        }
    }
}

// Reading.
impl<T: Config> Pallet<T> {
    /// A ledger in which nothing was ever written.
    pub fn new() -> (r: Pallet<T>)
        ensures
            r@ == State::empty(),
    {
        let r = Pallet {
            accounts: StorageMap::new(),
            issuance: StorageMap::new(),
            locks: StorageMap::new(),
            effects: Vec::new(),
            config: PhantomData,
        };
        assert(r@ =~= State::empty());
        r
    }

    /// The entry of an account, if one is stored.
    pub fn stored_account(&self, who: &AccountId, currency_id: CurrencyId) -> (r: Option<AccountData>)
        ensures
            r == (if self@.is_stored(*who, currency_id) {
                Some(self@.account(*who, currency_id))
            } else {
                None
            }),
    {
        match self.accounts.get(&AccountKey { who: *who, currency_id }) {
            Some(account) => Some(*account),
            None => None,
        }
    }

    /// The balance of a token type under an account.
    pub fn accounts(&self, who: &AccountId, currency_id: CurrencyId) -> (r: AccountData)
        ensures
            r == self@.account(*who, currency_id),
    {
        match self.stored_account(who, currency_id) {
            Some(account) => account,
            None => AccountData::default(),
        }
    }

    /// Any liquidity locks of a token type under an account.
    pub fn locks(&self, who: &AccountId, currency_id: CurrencyId) -> (r: Vec<BalanceLock>)
        ensures
            r@ == self@.locks_of(*who, currency_id),
    {
        match self.locks.get(&AccountKey { who: *who, currency_id }) {
            Some(locks) => locks.clone(),
            None => Vec::new(),
        }
    }

    /// The currencies under which an entry is stored for an account, each once.
    pub fn currencies_of(&self, who: &AccountId) -> (r: Vec<CurrencyId>)
        ensures
            self@.walks(*who, r@),
    {
        let keys: Vec<AccountKey> = self.accounts.keys();
        let mut r: Vec<CurrencyId> = Vec::new();
        let mut i: usize = 0;
        while i < keys.len()
            invariant
                i <= keys@.len(),
                keys@.no_duplicates(),
                r@.no_duplicates(),
                forall|c: CurrencyId| #[trigger]
                    r@.contains(c) <==> keys@.take(i as int).contains(key(*who, c)),
            decreases keys@.len() - i,
        {
            let k: AccountKey = keys[i];
            let ghost before = r@;
            if k.who.same(who) {
                r.push(k.currency_id);
            }
            proof {
                let taken = keys@.take(i as int);
                let more = keys@.take(i + 1);
                assert(more =~= taken.push(k));
                assert(more[i as int] == k);
                assert(!taken.contains(k)) by {
                    if taken.contains(k) {
                        let j = choose|j: int| 0 <= j < i && taken[j] == k;
                        assert(keys@[j] == keys@[i as int]);
                    }
                }
                assert forall|c: CurrencyId| #[trigger] r@.contains(c) <==> more.contains(
                    key(*who, c),
                ) by {
                    if before.contains(c) {
                        let j = choose|j: int| 0 <= j < before.len() && before[j] == c;
                        assert(r@[j] == c);
                        let l = choose|l: int| 0 <= l < i && taken[l] == key(*who, c);
                        assert(more[l] == key(*who, c));
                    }
                    if k.who == *who {
                        assert(r@[before.len() as int] == k.currency_id);
                        assert(key(*who, k.currency_id) == k);
                    }
                    if r@.contains(c) && !before.contains(c) {
                        assert(c == k.currency_id && k.who == *who);
                    }
                    if more.contains(key(*who, c)) && !taken.contains(key(*who, c)) {
                        assert(key(*who, c) == k);
                    }
                }
                if k.who == *who {
                    assert(!before.contains(k.currency_id)) by {
                        assert(key(*who, k.currency_id) == k);
                    }
                }
            }
            i = i + 1;
        }
        proof {
            assert(keys@.take(i as int) =~= keys@);
            assert forall|c: CurrencyId| #[trigger] r@.contains(c) <==> self@.is_stored(*who, c) by {
                assert(keys@.contains(key(*who, c)) <==> self.accounts@.contains_key(
                    key(*who, c),
                ));
            }
        }
        r
    }

    /// The total amount of issuance of `currency_id`.
    pub fn total_issuance(&self, currency_id: CurrencyId) -> (r: Balance)
        ensures
            r == self@.total_issuance(currency_id),
    {
        match self.issuance.get(&currency_id) {
            Some(amount) => *amount,
            None => 0,
        }
    }
}

// Handing over to and from the system.
impl<T: Config> Pallet<T> {
    /// Takes an entry of an account over as it is stored, without counting it
    /// anew.
    pub fn load_account(&mut self, who: &AccountId, currency_id: CurrencyId, account: AccountData)
        ensures
            final(self)@ == (State {
                accounts: old(self)@.accounts.insert(key(*who, currency_id), account),
                ..old(self)@
            }),
    {
        self.accounts.insert(AccountKey { who: *who, currency_id }, account);
    }

    /// Takes a total issuance over as it is stored.
    pub fn load_issuance(&mut self, currency_id: CurrencyId, amount: Balance)
        ensures
            final(self)@ == old(self)@.with_issuance(currency_id, amount as int),
    {
        self.set_issuance(currency_id, amount);
    }

    /// Takes the locks of a balance over as they are stored, without counting
    /// them anew.
    pub fn load_locks(&mut self, who: &AccountId, currency_id: CurrencyId, locks: Vec<BalanceLock>)
        ensures
            final(self)@ == (State {
                locks: old(self)@.locks.insert(key(*who, currency_id), locks@),
                ..old(self)@
            }),
    {
        let ghost before = self@.locks;
        let ghost k = key(*who, currency_id);
        self.locks.insert(AccountKey { who: *who, currency_id }, locks);
        assert(self@.locks =~= before.insert(k, locks@));
    }

    /// Hands over the work for the system that has come together so far.
    pub fn take_effects(&mut self) -> (r: Vec<Effect>)
        ensures
            r@ == old(self)@.effects,
            final(self)@ == (State { effects: Seq::empty(), ..old(self)@ }),
    {
        let mut effects: Vec<Effect> = Vec::new();
        std::mem::swap(&mut effects, &mut self.effects);
        effects
    }
}

// Trying things out.
impl<T: Config> Pallet<T> {
    /// A ledger with the same entries, on which operations can be tried out.
    pub fn duplicate(&self) -> (r: Pallet<T>)
        ensures
            r@ == self@,
    {
        let mut effects: Vec<Effect> = Vec::new();
        let mut i: usize = 0;
        while i < self.effects.len()
            invariant
                i <= self.effects@.len(),
                effects@ == self.effects@.take(i as int),
            decreases self.effects@.len() - i,
        {
            effects.push(self.effects[i]);
            assert(effects@ =~= self.effects@.take(i + 1));
            i = i + 1;
        }
        assert(effects@ =~= self.effects@);
        Pallet {
            accounts: self.accounts.duplicate(),
            issuance: self.issuance.duplicate(),
            locks: self.locks.duplicate_lists(),
            effects,
            config: PhantomData,
        }
    }

    /// Whether writing an entry stays within what was issued.
    pub(crate) fn put_has_room(
        &self,
        who: &AccountId,
        currency_id: CurrencyId,
        account: AccountData,
    ) -> (r: bool)
        ensures
            r == self@.put_fits::<T>(*who, currency_id, account),
    {
        if !Self::is_dust(who, currency_id, &account) {
            return true;
        }
        match T::on_dust() {
            DustHandler::Burn(_) => {
                let mut after: Pallet<T> = self.duplicate();
                after.write_account(who, currency_id, account);
                after.ensure_can_withdraw(currency_id, who, account.total()).is_err()
                    || account.total() <= after.total_issuance(currency_id)
            },
            _ => true,
        }
    }

    /// Whether setting a free balance stays within what was issued.
    pub(crate) fn set_free_has_room(
        &self,
        currency_id: CurrencyId,
        who: &AccountId,
        amount: Balance,
    ) -> (r: bool)
        ensures
            r == self@.set_free_fits::<T>(currency_id, *who, amount as int),
    {
        let account: AccountData = self.accounts(who, currency_id);
        self.put_has_room(who, currency_id, AccountData { free: amount, ..account })
    }

    /// Whether setting a reserved balance stays within what was issued.
    pub(crate) fn set_reserved_has_room(
        &self,
        currency_id: CurrencyId,
        who: &AccountId,
        amount: Balance,
    ) -> (r: bool)
        ensures
            r == self@.set_reserved_fits::<T>(currency_id, *who, amount as int),
    {
        let account: AccountData = self.accounts(who, currency_id);
        self.put_has_room(who, currency_id, AccountData { reserved: amount, ..account })
    }
}

// Writing, one thing at a time.
impl<T: Config> Pallet<T> {
    /// Sets the locks of a balance.
    pub(crate) fn write_locks(
        &mut self,
        who: &AccountId,
        currency_id: CurrencyId,
        locks: Vec<BalanceLock>,
    )
        ensures
            final(self)@ == old(self)@.write_locks(*who, currency_id, locks@),
    {
        let k = AccountKey { who: *who, currency_id };
        let existed: bool = self.locks.contains_key(&k);
        let ghost before = self@.locks;
        if locks.len() == 0 {
            self.locks.remove(&k);
            assert(self@.locks =~= before.remove(k));
            if existed {
                self.push_effect(Effect::DecConsumers(*who));
            }
        } else {
            self.locks.insert(k, locks);
            assert(self@.locks =~= before.insert(k, locks@));
            if !existed {
                self.push_effect(Effect::IncConsumers(*who));
            }
        }
    }

    /// Hands a piece of work to the system.
    fn push_effect(&mut self, effect: Effect)
        ensures
            final(self)@ == old(self)@.with_effect(effect),
    {
        self.effects.push(effect);
    }

    /// Announces an event.
    pub(crate) fn deposit_event(&mut self, event: Event)
        ensures
            final(self)@ == old(self)@.with_event(event),
    {
        self.push_effect(Effect::Deposit(event));
    }

    /// Sets the total issuance of a currency.
    pub(crate) fn set_issuance(&mut self, currency_id: CurrencyId, amount: Balance)
        ensures
            final(self)@ == old(self)@.with_issuance(currency_id, amount as int),
    {
        self.issuance.insert(currency_id, amount);
    }

    /// Stores an entry, or removes it if its total is zero. One that is new is
    /// frozen up to the largest of the locks on its balance at least.
    fn write_account(&mut self, who: &AccountId, currency_id: CurrencyId, account: AccountData)
        ensures
            final(self)@ == old(self)@.write_account(*who, currency_id, account),
    {
        let k = AccountKey { who: *who, currency_id };
        let existed: bool = self.accounts.contains_key(&k);
        if account.total() == 0 {
            self.accounts.remove(&k);
            if existed {
                self.push_effect(Effect::DecProviders(*who));
            }
        } else {
            if existed {
                self.accounts.insert(k, account);
            } else {
                let locked: Balance = match self.locks.get(&k) {
                    Some(locks) => compute_largest_lock(locks),
                    None => 0,
                };
                let frozen: Balance = if account.frozen <= locked {
                    locked
                } else {
                    account.frozen
                };
                self.accounts.insert(k, AccountData { frozen, ..account });
                self.push_effect(Effect::IncProviders(*who));
            }
        }
    }
}

// The handling of dust.
impl<T: Config> Pallet<T> {
    /// Check whether account_id is a module account
    pub(crate) fn is_module_account_id(account_id: &AccountId) -> (r: bool)
        ensures
            r == account_id.is_module(),
    {
        module_of(account_id.0).is_some()
    }

    /// Whether an entry is dust.
    fn is_dust(who: &AccountId, currency_id: CurrencyId, account: &AccountData) -> (r: bool)
        ensures
            r == is_dust::<T>(*who, currency_id, *account),
    {
        let total: Balance = account.total();
        0 < total && total < T::existential_deposit(currency_id) && !Self::is_module_account_id(who)
    }

    /// Writes an entry and announces dust, without handling it.
    fn record_account(&mut self, who: &AccountId, currency_id: CurrencyId, account: AccountData)
        ensures
            final(self)@ == old(self)@.record_account::<T>(*who, currency_id, account),
    {
        self.write_account(who, currency_id, account);
        if Self::is_dust(who, currency_id, &account) {
            self.deposit_event(Event::DustLost(*who, currency_id, account.total()));
        }
    }

    /// Moves dust to `receiver`, if that can be done.
    fn sweep_to(
        &mut self,
        currency_id: CurrencyId,
        who: &AccountId,
        receiver: &AccountId,
        amount: Balance,
    )
        ensures
            final(self)@ == old(self)@.sweep_to::<T>(currency_id, *who, *receiver, amount),
    {
        if amount == 0 || who.same(receiver) {
            return ;
        }
        if self.ensure_can_withdraw(currency_id, who, amount).is_err() {
            return ;
        }
        let from: AccountData = self.accounts(who, currency_id);
        let to_free: Balance = match self.accounts(receiver, currency_id).free.checked_add(amount) {
            Some(to_free) => to_free,
            None => {
                return ;
            },
        };
        self.record_account(who, currency_id, AccountData { free: from.free - amount, ..from });
        let to: AccountData = self.accounts(receiver, currency_id);
        self.record_account(receiver, currency_id, AccountData { free: to_free, ..to });
    }

    /// Burns dust, if that can be done.
    fn sweep_away(&mut self, currency_id: CurrencyId, who: &AccountId, amount: Balance)
        requires
            amount != 0 && old(self)@.withdrawal(currency_id, *who, amount) is Ok ==> amount <= old(
                self,
            )@.total_issuance(currency_id),
        ensures
            final(self)@ == old(self)@.sweep_away::<T>(currency_id, *who, amount),
    {
        if amount == 0 || self.ensure_can_withdraw(currency_id, who, amount).is_err() {
            return ;
        }
        let from: AccountData = self.accounts(who, currency_id);
        self.set_issuance(currency_id, self.total_issuance(currency_id) - amount);
        self.record_account(who, currency_id, AccountData { free: from.free - amount, ..from });
    }

    /// Hands the dust of `who` to the handler of the runtime. What a handler
    /// finds is the whole balance of `who`, so that moving or burning it leaves
    /// no dust behind.
    fn handle_dust(&mut self, who: &AccountId, currency_id: CurrencyId, amount: Balance)
        requires
            old(self)@.dust_fits::<T>(*who, currency_id, amount),
        ensures
            final(self)@ == old(self)@.handle_dust::<T>(*who, currency_id, amount),
    {
        match T::on_dust() {
            DustHandler::Ignore => {},
            DustHandler::Transfer(h) => {
                self.sweep_to(currency_id, who, &h.receiver, amount);
            },
            DustHandler::Burn(_) => {
                self.sweep_away(currency_id, who, amount);
            },
            DustHandler::Report => {
                self.push_effect(Effect::HandleDust(*who, currency_id, amount));
            },
        }
    }

    /// Writes an entry and handles it if it is dust.
    fn put_account(&mut self, who: &AccountId, currency_id: CurrencyId, account: AccountData)
        requires
            old(self)@.put_fits::<T>(*who, currency_id, account),
        ensures
            final(self)@ == old(self)@.put_account::<T>(*who, currency_id, account),
    {
        self.write_account(who, currency_id, account);
        if Self::is_dust(who, currency_id, &account) {
            let dust_amount: Balance = account.total();
            self.handle_dust(who, currency_id, dust_amount);
            self.deposit_event(Event::DustLost(*who, currency_id, dust_amount));
        }
    }
}

// Changing one entry.
impl<T: Config> Pallet<T> {
    /// Changes the entry of an account to what `f` makes of it, unless `f`
    /// fails. `f` is also told whether an entry is stored.
    pub(crate) fn try_mutate_account<R, E, F>(
        &mut self,
        who: &AccountId,
        currency_id: CurrencyId,
        f: F,
    ) -> (r: Result<R, E>) where F: FnOnce(AccountData, bool) -> Result<(AccountData, R), E>
        requires
            f.requires(
                (
                    old(self)@.account(*who, currency_id),
                    old(self)@.is_stored(*who, currency_id),
                ),
            ),
            forall|out: Result<(AccountData, R), E>| #[trigger]
                f.ensures(
                    (
                        old(self)@.account(*who, currency_id),
                        old(self)@.is_stored(*who, currency_id),
                    ),
                    out,
                ) ==> (out matches Ok((account, _)) ==> old(self)@.put_fits::<T>(
                    *who,
                    currency_id,
                    account,
                )),
        ensures
            exists|out: Result<(AccountData, R), E>| #[trigger]
                f.ensures(
                    (
                        old(self)@.account(*who, currency_id),
                        old(self)@.is_stored(*who, currency_id),
                    ),
                    out,
                ) && match out {
                    Ok((account, result)) => r == Ok::<R, E>(result) && final(self)@ == old(
                        self,
                    )@.put_account::<T>(*who, currency_id, account),
                    Err(e) => r == Err::<R, E>(e) && final(self)@ == old(self)@,
                },
    {
        let stored: Option<AccountData> = self.stored_account(who, currency_id);
        let existed: bool = stored.is_some();
        let account: AccountData = match stored {
            Some(account) => account,
            None => AccountData::default(),
        };
        match f(account, existed) {
            Ok((account, result)) => {
                self.put_account(who, currency_id, account);
                Ok(result)
            },
            Err(e) => Err(e),
        }
    }

    /// Changes the entry of an account to what `f` makes of it.
    pub(crate) fn mutate_account<R, F>(
        &mut self,
        who: &AccountId,
        currency_id: CurrencyId,
        f: F,
    ) -> (r: R) where F: FnOnce(AccountData, bool) -> (AccountData, R)
        requires
            f.requires(
                (
                    old(self)@.account(*who, currency_id),
                    old(self)@.is_stored(*who, currency_id),
                ),
            ),
            forall|out: (AccountData, R)| #[trigger]
                f.ensures(
                    (
                        old(self)@.account(*who, currency_id),
                        old(self)@.is_stored(*who, currency_id),
                    ),
                    out,
                ) ==> old(self)@.put_fits::<T>(*who, currency_id, out.0),
        ensures
            exists|out: (AccountData, R)| #[trigger]
                f.ensures(
                    (
                        old(self)@.account(*who, currency_id),
                        old(self)@.is_stored(*who, currency_id),
                    ),
                    out,
                ) && r == out.1 && final(self)@ == old(self)@.put_account::<T>(
                    *who,
                    currency_id,
                    out.0,
                ),
    {
        let existed: bool = self.stored_account(who, currency_id).is_some();
        let account: AccountData = self.accounts(who, currency_id);
        let (account, result) = f(account, existed);
        self.put_account(who, currency_id, account);
        result
    }

    /// Set free balance of `who` to a new value.
    ///
    /// Note this will not maintain total issuance, and the caller is expected to
    /// do it.
    pub(crate) fn set_free_balance(
        &mut self,
        currency_id: CurrencyId,
        who: &AccountId,
        amount: Balance,
    )
        requires
            old(self)@.set_free_fits::<T>(currency_id, *who, amount as int),
        ensures
            final(self)@ == old(self)@.set_free::<T>(currency_id, *who, amount as int),
    {
        let f = |account: AccountData, _existed: bool| -> (out: (AccountData, ()))
            ensures
                out.0 == (AccountData { free: amount, ..account }),
            { (AccountData { free: amount, ..account }, ()) };
        self.mutate_account(who, currency_id, f)
    }

    /// Set reserved balance of `who` to a new value.
    ///
    /// Note this will not maintain total issuance, and the caller is expected to
    /// do it.
    pub(crate) fn set_reserved_balance(
        &mut self,
        currency_id: CurrencyId,
        who: &AccountId,
        amount: Balance,
    )
        requires
            old(self)@.set_reserved_fits::<T>(currency_id, *who, amount as int),
        ensures
            final(self)@ == old(self)@.set_reserved::<T>(currency_id, *who, amount as int),
    {
        let f = |account: AccountData, _existed: bool| -> (out: (AccountData, ()))
            ensures
                out.0 == (AccountData { reserved: amount, ..account }),
            { (AccountData { reserved: amount, ..account }, ()) };
        self.mutate_account(who, currency_id, f)
    }
}

} // verus!
