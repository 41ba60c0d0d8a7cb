//! Locks, which keep a part of the free balance from being withdrawn.
use crate::account::{same_bytes, AccountId};
use crate::config::Config;
use crate::pallet::Pallet;
use crate::state::State;
use crate::types::{AccountData, Balance, BalanceLock, CurrencyId, Error, LockIdentifier};
use vstd::prelude::*;

verus! {

/// The larger of two balances.
pub open spec fn larger(a: Balance, b: Balance) -> Balance {
    if a >= b {
        a
    } else {
        b
    }
}

/// The largest amount among some locks, zero if there are none.
pub open spec fn largest_lock(locks: Seq<BalanceLock>) -> Balance
    decreases locks.len(),
{
    if locks.len() == 0 {
        0
    } else {
        larger(largest_lock(locks.drop_last()), locks.last().amount)
    }
}

/// Whether there is a lock with this identifier.
pub open spec fn has_lock(locks: Seq<BalanceLock>, id: LockIdentifier) -> bool {
    exists|i: int| 0 <= i < locks.len() && (#[trigger] locks[i]).id == id
}

/// The locks with the first one of an identifier changed by `change`, and any
/// further one of that identifier dropped.
pub open spec fn change_lock(
    locks: Seq<BalanceLock>,
    id: LockIdentifier,
    change: spec_fn(BalanceLock) -> BalanceLock,
) -> Seq<BalanceLock>
    decreases locks.len(),
{
    if locks.len() == 0 {
        locks
    } else {
        let front = change_lock(locks.drop_last(), id, change);
        if locks.last().id != id {
            front.push(locks.last())
        } else if has_lock(locks.drop_last(), id) {
            front
        } else {
            front.push(change(locks.last()))
        }
    }
}

/// The change of a lock into another.
pub open spec fn replacing(lock: BalanceLock) -> spec_fn(BalanceLock) -> BalanceLock {
    |l: BalanceLock| lock
}

/// The change of a lock into one of at least an amount.
pub open spec fn raising(amount: Balance) -> spec_fn(BalanceLock) -> BalanceLock {
    |l: BalanceLock| BalanceLock { id: l.id, amount: larger(l.amount, amount) }
}

/// The locks after one was set: it takes the place of the one with its
/// identifier, or comes last if there is none.
pub open spec fn locks_with(
    locks: Seq<BalanceLock>,
    id: LockIdentifier,
    amount: Balance,
) -> Seq<BalanceLock> {
    let lock = BalanceLock { id, amount };
    if has_lock(locks, id) {
        change_lock(locks, id, replacing(lock))
    } else {
        locks.push(lock)
    }
}

/// The locks after one was extended: the one with its identifier gets the larger
/// amount of the two, or the new one comes last if there is none.
pub open spec fn locks_extended(
    locks: Seq<BalanceLock>,
    id: LockIdentifier,
    amount: Balance,
) -> Seq<BalanceLock> {
    if has_lock(locks, id) {
        change_lock(locks, id, raising(amount))
    } else {
        locks.push(BalanceLock { id, amount })
    }
}

/// The locks without those of an identifier.
pub open spec fn locks_without(locks: Seq<BalanceLock>, id: LockIdentifier) -> Seq<BalanceLock> {
    locks.filter(|l: BalanceLock| l.id != id)
}

impl State {
    /// The entry of an account under some locks: it is frozen up to the largest
    /// of them.
    pub open spec fn locked_account(
        self,
        who: AccountId,
        currency_id: CurrencyId,
        locks: Seq<BalanceLock>,
    ) -> AccountData {
        AccountData { frozen: largest_lock(locks), ..self.account(who, currency_id) }
    }

    /// With other locks on a balance, and the balance frozen accordingly.
    pub open spec fn update_locks<T: Config>(
        self,
        currency_id: CurrencyId,
        who: AccountId,
        locks: Seq<BalanceLock>,
    ) -> State {
        self.put_account::<T>(
            who,
            currency_id,
            self.locked_account(who, currency_id, locks),
        ).write_locks(who, currency_id, locks)
    }

    /// Whether [`State::update_locks`] stays within what was issued.
    pub open spec fn update_locks_fits<T: Config>(
        self,
        currency_id: CurrencyId,
        who: AccountId,
        locks: Seq<BalanceLock>,
    ) -> bool {
        self.put_fits::<T>(who, currency_id, self.locked_account(who, currency_id, locks))
    }
}

/// The largest amount among some locks.
pub(crate) fn compute_largest_lock(locks: &Vec<BalanceLock>) -> (r: Balance)
    ensures
        r == largest_lock(locks@),
{
    let mut largest: Balance = 0;
    let mut i: usize = 0;
    while i < locks.len()
        invariant
            i <= locks@.len(),
            largest == largest_lock(locks@.take(i as int)),
        decreases locks@.len() - i,
    {
        assert(locks@.take(i + 1).drop_last() =~= locks@.take(i as int));
        if largest < locks[i].amount {
            largest = locks[i].amount;
        }
        i = i + 1;
    }
    assert(locks@.take(i as int) =~= locks@);
    largest
}

// The locks that an operation leaves behind.
impl<T: Config> Pallet<T> {
    /// The locks of a balance after one was set.
    pub(crate) fn locks_after_set(
        &self,
        lock_id: LockIdentifier,
        currency_id: CurrencyId,
        who: &AccountId,
        amount: Balance,
    ) -> (r: Vec<BalanceLock>)
        ensures
            r@ == locks_with(self@.locks_of(*who, currency_id), lock_id, amount),
    {
        let current: Vec<BalanceLock> = self.locks(who, currency_id);
        let ghost change = replacing(BalanceLock { id: lock_id, amount });
        let mut found: bool = false;
        let mut locks: Vec<BalanceLock> = Vec::new();
        let mut i: usize = 0;
        while i < current.len()
            invariant
                i <= current@.len(),
                found == has_lock(current@.take(i as int), lock_id),
                change == replacing((BalanceLock { id: lock_id, amount })),
                locks@ == change_lock(current@.take(i as int), lock_id, change),
            decreases current@.len() - i,
        {
            let lock: BalanceLock = current[i];
            proof {
                lemma_take_one(current@, i as int, lock_id);
            }
            if !same_bytes(&lock.id, &lock_id) {
                locks.push(lock);
            } else if !found {
                locks.push(BalanceLock { id: lock_id, amount });
                found = true;
            }
            i = i + 1;
        }
        assert(current@.take(i as int) =~= current@);
        if !found {
            proof {
                lemma_change_absent(current@, lock_id, change);
            }
            locks.push(BalanceLock { id: lock_id, amount });
        }
        locks
    }

    /// The locks of a balance after one was extended.
    pub(crate) fn locks_after_extend(
        &self,
        lock_id: LockIdentifier,
        currency_id: CurrencyId,
        who: &AccountId,
        amount: Balance,
    ) -> (r: Vec<BalanceLock>)
        ensures
            r@ == locks_extended(self@.locks_of(*who, currency_id), lock_id, amount),
    {
        let current: Vec<BalanceLock> = self.locks(who, currency_id);
        let ghost change = raising(amount);
        let mut found: bool = false;
        let mut locks: Vec<BalanceLock> = Vec::new();
        let mut i: usize = 0;
        while i < current.len()
            invariant
                i <= current@.len(),
                found == has_lock(current@.take(i as int), lock_id),
                change == raising(amount),
                locks@ == change_lock(current@.take(i as int), lock_id, change),
            decreases current@.len() - i,
        {
            let lock: BalanceLock = current[i];
            proof {
                lemma_take_one(current@, i as int, lock_id);
            }
            if !same_bytes(&lock.id, &lock_id) {
                locks.push(lock);
            } else if !found {
                let extended: Balance = if lock.amount >= amount {
                    lock.amount
                } else {
                    amount
                };
                locks.push(BalanceLock { id: lock.id, amount: extended });
                found = true;
            }
            i = i + 1;
        }
        assert(current@.take(i as int) =~= current@);
        if !found {
            proof {
                lemma_change_absent(current@, lock_id, change);
            }
            locks.push(BalanceLock { id: lock_id, amount });
        }
        locks
    }

    /// The locks of a balance after one was removed.
    pub(crate) fn locks_after_remove(
        &self,
        lock_id: LockIdentifier,
        currency_id: CurrencyId,
        who: &AccountId,
    ) -> (r: Vec<BalanceLock>)
        ensures
            r@ == locks_without(self@.locks_of(*who, currency_id), lock_id),
    {
        let current: Vec<BalanceLock> = self.locks(who, currency_id);
        let mut locks: Vec<BalanceLock> = Vec::new();
        let mut i: usize = 0;
        while i < current.len()
            invariant
                i <= current@.len(),
                locks@ == locks_without(current@.take(i as int), lock_id),
            decreases current@.len() - i,
        {
            let lock: BalanceLock = current[i];
            proof {
                reveal(Seq::filter);
                assert(current@.take(i + 1).drop_last() =~= current@.take(i as int));
            }
            if !same_bytes(&lock.id, &lock_id) {
                locks.push(lock);
            }
            i = i + 1;
        }
        assert(current@.take(i as int) =~= current@);
        locks
    }

    /// Whether a balance can be locked like this within what was issued.
    pub(crate) fn locks_have_room(
        &self,
        currency_id: CurrencyId,
        who: &AccountId,
        locks: &Vec<BalanceLock>,
    ) -> (r: bool)
        ensures
            r == self@.update_locks_fits::<T>(currency_id, *who, locks@),
    {
        let account: AccountData = self.accounts(who, currency_id);
        let frozen: Balance = compute_largest_lock(locks);
        self.put_has_room(who, currency_id, AccountData { frozen, ..account })
    }
}

impl<T: Config> Pallet<T> {
    /// Update the account entry for `who` under `currency_id`, given the locks.
    pub(crate) fn update_locks(
        &mut self,
        currency_id: CurrencyId,
        who: &AccountId,
        locks: Vec<BalanceLock>,
    )
        requires
            old(self)@.update_locks_fits::<T>(currency_id, *who, locks@),
        ensures
            final(self)@ == old(self)@.update_locks::<T>(currency_id, *who, locks@),
    {
        // update account data
        let largest: Balance = compute_largest_lock(&locks);
        let f = |account: AccountData, _existed: bool| -> (out: (AccountData, ()))
            ensures
                out.0 == (AccountData { frozen: largest, ..account }),
            { (AccountData { frozen: largest, ..account }, ()) };
        self.mutate_account(who, currency_id, f);
        // update locks
        self.write_locks(who, currency_id, locks);
    }

    /// Set a lock on the balance of `who` under `currency_id`.
    /// Is a no-op if lock amount is zero.
    pub fn set_lock(
        &mut self,
        lock_id: LockIdentifier,
        currency_id: CurrencyId,
        who: &AccountId,
        amount: Balance,
    ) -> (r: Result<(), Error>)
        requires
            amount != 0 ==> old(self)@.update_locks_fits::<T>(
                currency_id,
                *who,
                locks_with(old(self)@.locks_of(*who, currency_id), lock_id, amount),
            ),
        ensures
            r is Ok,
            final(self)@ == (if amount == 0 {
                old(self)@
            } else {
                old(self)@.update_locks::<T>(
                    currency_id,
                    *who,
                    locks_with(old(self)@.locks_of(*who, currency_id), lock_id, amount),
                )
            }),
    {
        if amount == 0 {
            return Ok(());
        }
        let locks: Vec<BalanceLock> = self.locks_after_set(lock_id, currency_id, who, amount);
        self.update_locks(currency_id, who, locks);
        Ok(())
    }

    /// Extend a lock on the balance of `who` under `currency_id`.
    /// Is a no-op if lock amount is zero
    pub fn extend_lock(
        &mut self,
        lock_id: LockIdentifier,
        currency_id: CurrencyId,
        who: &AccountId,
        amount: Balance,
    ) -> (r: Result<(), Error>)
        requires
            amount != 0 ==> old(self)@.update_locks_fits::<T>(
                currency_id,
                *who,
                locks_extended(old(self)@.locks_of(*who, currency_id), lock_id, amount),
            ),
        ensures
            r is Ok,
            final(self)@ == (if amount == 0 {
                old(self)@
            } else {
                old(self)@.update_locks::<T>(
                    currency_id,
                    *who,
                    locks_extended(old(self)@.locks_of(*who, currency_id), lock_id, amount),
                )
            }),
    {
        if amount == 0 {
            return Ok(());
        }
        let locks: Vec<BalanceLock> = self.locks_after_extend(lock_id, currency_id, who, amount);
        self.update_locks(currency_id, who, locks);
        Ok(())
    }

    /// Remove an existing lock.
    pub fn remove_lock(
        &mut self,
        lock_id: LockIdentifier,
        currency_id: CurrencyId,
        who: &AccountId,
    ) -> (r: Result<(), Error>)
        requires
            old(self)@.update_locks_fits::<T>(
                currency_id,
                *who,
                locks_without(old(self)@.locks_of(*who, currency_id), lock_id),
            ),
        ensures
            r is Ok,
            final(self)@ == old(self)@.update_locks::<T>(
                currency_id,
                *who,
                locks_without(old(self)@.locks_of(*who, currency_id), lock_id),
            ),
    {
        let locks: Vec<BalanceLock> = self.locks_after_remove(lock_id, currency_id, who);
        self.update_locks(currency_id, who, locks);
        Ok(())
    }
}

/// What one more lock adds to a prefix.
proof fn lemma_take_one(locks: Seq<BalanceLock>, i: int, id: LockIdentifier)
    requires
        0 <= i < locks.len(),
    ensures
        locks.take(i + 1).drop_last() == locks.take(i),
        locks.take(i + 1).last() == locks[i],
        has_lock(locks.take(i + 1), id) == (has_lock(locks.take(i), id) || locks[i].id == id),
{
    assert(locks.take(i + 1).drop_last() =~= locks.take(i));
    if has_lock(locks.take(i), id) {
        let j = choose|j: int| 0 <= j < i && (#[trigger] locks.take(i)[j]).id == id;
        assert(locks.take(i + 1)[j].id == id);
    }
    if locks[i].id == id {
        assert(locks.take(i + 1)[i].id == id);
    }
    if has_lock(locks.take(i + 1), id) {
        let j = choose|j: int| 0 <= j < i + 1 && (#[trigger] locks.take(i + 1)[j]).id == id;
        if j < i {
            assert(locks.take(i)[j].id == id);
        }
    }
}

/// Nothing changes where no lock has the identifier.
pub(crate) proof fn lemma_change_absent(
    locks: Seq<BalanceLock>,
    id: LockIdentifier,
    change: spec_fn(BalanceLock) -> BalanceLock,
)
    requires
        !has_lock(locks, id),
    ensures
        change_lock(locks, id, change) == locks,
    decreases locks.len(),
{
    if locks.len() > 0 {
        let front = locks.drop_last();
        assert(locks[locks.len() - 1].id != id);
        assert(!has_lock(front, id)) by {
            if has_lock(front, id) {
                let j = choose|j: int| 0 <= j < front.len() && (#[trigger] front[j]).id == id;
                assert(locks[j].id == id);
            }
        }
        lemma_change_absent(front, id, change);
        assert(front.push(locks.last()) =~= locks);
    }
}

} // verus!
