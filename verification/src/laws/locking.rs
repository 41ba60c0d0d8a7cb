//! What is done to locks.
use crate::account::AccountId;
use crate::config::Config;
use crate::laws::order::{consumers, lemma_orderly_twice};
use crate::lockable::{
    change_lock, has_lock, largest_lock, larger, lemma_change_absent, locks_extended, locks_with,
    locks_without, raising, replacing,
};
use crate::state::State;
use crate::storage::{key, AccountKey};
use crate::types::{
    AccountData, Balance, BalanceLock, BalanceStatus, CurrencyId, LockIdentifier,
};
use vstd::prelude::*;

verus! {

/// Whether there is only one lock for each identifier.
pub open spec fn unique_ids(locks: Seq<BalanceLock>) -> bool {
    forall|i: int, j: int|
        0 <= i < j < locks.len() ==> (#[trigger] locks[i]).id != (#[trigger] locks[j]).id
}

impl State {
    /// Whether there is only one lock for each identifier on every balance.
    pub open spec fn has_unique_locks(self) -> bool {
        forall|k: AccountKey| #[trigger]
            self.locks.contains_key(k) ==> unique_ids(self.locks[k])
    }
}

/// What a change of one lock does to the locks.
proof fn lemma_change_lock(
    locks: Seq<BalanceLock>,
    id: LockIdentifier,
    change: spec_fn(BalanceLock) -> BalanceLock,
)
    requires
        unique_ids(locks),
        forall|l: BalanceLock| l.id == id ==> (#[trigger] change(l)).id == id,
    ensures
        change_lock(locks, id, change).len() == locks.len(),
        forall|i: int|
            0 <= i < locks.len() ==> #[trigger] change_lock(locks, id, change)[i] == (
            if locks[i].id == id {
                change(locks[i])
            } else {
                locks[i]
            }),
        unique_ids(change_lock(locks, id, change)),
    decreases locks.len(),
{
    let changed = change_lock(locks, id, change);
    if locks.len() > 0 {
        let front = locks.drop_last();
        assert forall|i: int, j: int| 0 <= i < j < front.len() implies (#[trigger] front[i]).id != (
        #[trigger] front[j]).id by {
            assert(locks[i] == front[i] && locks[j] == front[j]);
        }
        lemma_change_lock(front, id, change);
        if locks.last().id == id {
            assert(!has_lock(front, id)) by {
                if has_lock(front, id) {
                    let j = choose|j: int| 0 <= j < front.len() && (#[trigger] front[j]).id == id;
                    assert(locks[j].id != locks[locks.len() - 1].id);
                }
            }
        }
        assert forall|i: int| 0 <= i < locks.len() implies #[trigger] changed[i] == (
        if locks[i].id == id {
            change(locks[i])
        } else {
            locks[i]
        }) by {
            if i < front.len() {
                assert(front[i] == locks[i]);
                assert(changed[i] == change_lock(front, id, change)[i]);
            }
        }
        assert forall|i: int, j: int| 0 <= i < j < changed.len() implies (#[trigger] changed[i]).id
            != (#[trigger] changed[j]).id by {
            assert(locks[i].id != locks[j].id);
        }
    }
}

/// Setting a lock keeps the identifiers unique, puts exactly that lock in place
/// for its identifier, and leaves the others alone.
pub proof fn law_set_lock_sets(locks: Seq<BalanceLock>, id: LockIdentifier, amount: Balance)
    requires
        unique_ids(locks),
    ensures
        unique_ids(locks_with(locks, id, amount)),
        forall|l: BalanceLock| #[trigger]
            locks_with(locks, id, amount).contains(l) <==> (if l.id == id {
                l.amount == amount
            } else {
                locks.contains(l)
            }),
{
    let lock = BalanceLock { id, amount };
    let new = locks_with(locks, id, amount);
    if has_lock(locks, id) {
        lemma_change_lock(locks, id, replacing(lock));
    } else {
        assert forall|i: int, j: int| 0 <= i < j < new.len() implies (#[trigger] new[i]).id != (
        #[trigger] new[j]).id by {
            assert(locks[i].id != id);
        }
    }
    assert forall|l: BalanceLock| #[trigger] new.contains(l) <==> (if l.id == id {
        l.amount == amount
    } else {
        locks.contains(l)
    }) by {
        if new.contains(l) {
            let i = choose|i: int| 0 <= i < new.len() && new[i] == l;
            if i < locks.len() && l.id != id {
                assert(locks[i] == l);
            }
            if i < locks.len() && !has_lock(locks, id) {
                assert(locks[i].id != id);
            }
        }
        if l.id == id && l.amount == amount {
            assert(l == lock);
            if has_lock(locks, id) {
                let i = choose|i: int| 0 <= i < locks.len() && (#[trigger] locks[i]).id == id;
                assert(new[i] == lock);
            } else {
                assert(new[locks.len() as int] == lock);
            }
        }
        if l.id != id && locks.contains(l) {
            let i = choose|i: int| 0 <= i < locks.len() && locks[i] == l;
            assert(new[i] == l);
        }
    }
}

/// Extending a lock keeps the identifiers unique, never lowers the lock with its
/// identifier, puts it in place if there is none, and leaves the others alone.
pub proof fn law_extend_lock_extends(locks: Seq<BalanceLock>, id: LockIdentifier, amount: Balance)
    requires
        unique_ids(locks),
    ensures
        unique_ids(locks_extended(locks, id, amount)),
        has_lock(locks_extended(locks, id, amount), id),
        forall|l: BalanceLock| #[trigger]
            locks.contains(l) && l.id == id ==> locks_extended(locks, id, amount).contains(
                (BalanceLock { id, amount: larger(l.amount, amount) }),
            ),
        !has_lock(locks, id) ==> locks_extended(locks, id, amount) == locks_with(
            locks,
            id,
            amount,
        ),
        forall|l: BalanceLock| #[trigger]
            locks_extended(locks, id, amount).contains(l) && l.id != id <==> locks.contains(l)
                && l.id != id,
{
    let new = locks_extended(locks, id, amount);
    if has_lock(locks, id) {
        lemma_change_lock(locks, id, raising(amount));
        let i = choose|i: int| 0 <= i < locks.len() && (#[trigger] locks[i]).id == id;
        assert(new[i].id == id);
    } else {
        assert forall|i: int, j: int| 0 <= i < j < new.len() implies (#[trigger] new[i]).id != (
        #[trigger] new[j]).id by {
            assert(locks[i].id != id);
        }
        assert(new[locks.len() as int].id == id);
    }
    assert forall|l: BalanceLock| #[trigger]
        locks.contains(l) && l.id == id implies new.contains(
        (BalanceLock { id, amount: larger(l.amount, amount) }),
    ) by {
        let i = choose|i: int| 0 <= i < locks.len() && locks[i] == l;
        assert(locks[i].id == id);
        assert(new[i] == (BalanceLock { id, amount: larger(l.amount, amount) }));
    }
    assert forall|l: BalanceLock| #[trigger] new.contains(l) && l.id != id <==> locks.contains(l)
        && l.id != id by {
        if new.contains(l) && l.id != id {
            let i = choose|i: int| 0 <= i < new.len() && new[i] == l;
            assert(locks[i] == l);
        }
        if locks.contains(l) && l.id != id {
            let i = choose|i: int| 0 <= i < locks.len() && locks[i] == l;
            assert(new[i] == l);
        }
    }
}

/// Removing a lock keeps the identifiers unique, takes the lock with its
/// identifier away, and leaves the others alone.
pub proof fn law_remove_lock_removes(locks: Seq<BalanceLock>, id: LockIdentifier)
    requires
        unique_ids(locks),
    ensures
        unique_ids(locks_without(locks, id)),
        !has_lock(locks_without(locks, id), id),
        forall|l: BalanceLock| #[trigger]
            locks_without(locks, id).contains(l) <==> l.id != id && locks.contains(l),
    decreases locks.len(),
{
    reveal(Seq::filter);
    let new = locks_without(locks, id);
    if locks.len() > 0 {
        let front = locks.drop_last();
        assert forall|i: int, j: int| 0 <= i < j < front.len() implies (#[trigger] front[i]).id != (
        #[trigger] front[j]).id by {
            assert(locks[i] == front[i] && locks[j] == front[j]);
        }
        law_remove_lock_removes(front, id);
        let old = locks_without(front, id);
        let last = locks.last();
        assert(locks[locks.len() - 1] == last);
        if last.id != id {
            assert(new == old.push(last));
            assert forall|i: int, j: int| 0 <= i < j < new.len() implies (#[trigger] new[i]).id != (
            #[trigger] new[j]).id by {
                if j == old.len() {
                    assert(old[i] == new[i]);
                    assert(old.contains(old[i]));
                    let l = choose|l: int| 0 <= l < front.len() && front[l] == old[i];
                    assert(locks[l].id != locks[locks.len() - 1].id);
                }
            }
        } else {
            assert(new == old);
        }
        assert forall|l: BalanceLock| #[trigger]
            new.contains(l) <==> l.id != id && locks.contains(l) by {
            if new.contains(l) {
                let i = choose|i: int| 0 <= i < new.len() && new[i] == l;
                if i < old.len() {
                    assert(old[i] == l);
                    assert(old.contains(l));
                    let j = choose|j: int| 0 <= j < front.len() && front[j] == l;
                    assert(locks[j] == l);
                }
            }
            if l.id != id && locks.contains(l) {
                let i = choose|i: int| 0 <= i < locks.len() && locks[i] == l;
                if i < front.len() {
                    assert(front[i] == l);
                    assert(old.contains(l));
                    let j = choose|j: int| 0 <= j < old.len() && old[j] == l;
                    assert(new[j] == l);
                } else {
                    assert(new[old.len() as int] == l);
                }
            }
        }
    }
    assert(!has_lock(new, id)) by {
        if has_lock(new, id) {
            let i = choose|i: int| 0 <= i < new.len() && (#[trigger] new[i]).id == id;
            assert(new.contains(new[i]));
        }
    }
}

/// A lock that was set where there was none can be removed again without a
/// trace.
pub proof fn law_remove_undoes_set(locks: Seq<BalanceLock>, id: LockIdentifier, amount: Balance)
    requires
        !has_lock(locks, id),
    ensures
        locks_without(locks_with(locks, id, amount), id) == locks,
{
    reveal(Seq::filter);
    let new = locks.push(BalanceLock { id, amount });
    assert(new.drop_last() =~= locks);
    lemma_without_absent(locks, id);
}

/// Nothing is removed where no lock has the identifier.
proof fn lemma_without_absent(locks: Seq<BalanceLock>, id: LockIdentifier)
    requires
        !has_lock(locks, id),
    ensures
        locks_without(locks, id) == locks,
    decreases locks.len(),
{
    reveal(Seq::filter);
    if locks.len() > 0 {
        let front = locks.drop_last();
        assert(locks[locks.len() - 1].id != id);
        assert(!has_lock(front, id)) by {
            if has_lock(front, id) {
                let i = choose|i: int| 0 <= i < front.len() && (#[trigger] front[i]).id == id;
                assert(locks[i].id == id);
            }
        }
        lemma_without_absent(front, id);
        assert(front.push(locks.last()) =~= locks);
    } else {
        assert(locks_without(locks, id) =~= locks);
    }
}

/// Removing goes through the locks one by one: it keeps what has another
/// identifier, in the order in which it stood, and nothing else.
pub proof fn law_remove_keeps_order(
    some: Seq<BalanceLock>,
    others: Seq<BalanceLock>,
    lock: BalanceLock,
    id: LockIdentifier,
)
    ensures
        locks_without(some + others, id) == locks_without(some, id) + locks_without(others, id),
        lock.id == id ==> locks_without(seq![lock], id) == Seq::<BalanceLock>::empty(),
        lock.id != id ==> locks_without(seq![lock], id) == seq![lock],
        locks_without(Seq::empty(), id) == Seq::<BalanceLock>::empty(),
    decreases others.len(),
{
    reveal(Seq::filter);
    let one = seq![lock];
    assert(one.drop_last() =~= Seq::empty());
    assert(locks_without(Seq::empty(), id) =~= Seq::empty());
    assert(locks_without(one, id) =~= if lock.id != id {
        one
    } else {
        Seq::empty()
    });
    if others.len() > 0 {
        law_remove_keeps_order(some, others.drop_last(), lock, id);
        assert((some + others).drop_last() =~= some + others.drop_last());
        assert((some + others).last() == others.last());
        assert(locks_without(some + others, id) =~= locks_without(some, id) + locks_without(
            others,
            id,
        ));
    } else {
        assert(some + others =~= some);
        assert(others =~= Seq::empty());
        assert(locks_without(some + others, id) =~= locks_without(some, id) + locks_without(
            others,
            id,
        ));
    }
}

/// A change takes place where the first lock of the identifier stands, and drops
/// the further ones.
proof fn lemma_change_in_place(
    locks: Seq<BalanceLock>,
    id: LockIdentifier,
    change: spec_fn(BalanceLock) -> BalanceLock,
    i: int,
)
    requires
        0 <= i < locks.len(),
        locks[i].id == id,
        forall|j: int| 0 <= j < i ==> (#[trigger] locks[j]).id != id,
    ensures
        has_lock(locks, id),
        change_lock(locks, id, change) == locks.take(i).push(change(locks[i])) + locks_without(
            locks.skip(i + 1),
            id,
        ),
    decreases locks.len(),
{
    reveal(Seq::filter);
    let front = locks.drop_last();
    let rest = locks.skip(i + 1);
    assert(has_lock(locks, id)) by {
        assert(locks[i].id == id);
    }
    if i == locks.len() - 1 {
        assert(!has_lock(front, id)) by {
            if has_lock(front, id) {
                let j = choose|j: int| 0 <= j < front.len() && (#[trigger] front[j]).id == id;
                assert(locks[j].id == id);
            }
        }
        lemma_change_absent(front, id, change);
        assert(front =~= locks.take(i));
        assert(rest =~= Seq::empty());
        assert(locks_without(rest, id) =~= Seq::empty());
        assert(change_lock(locks, id, change) =~= locks.take(i).push(change(locks[i]))
            + locks_without(rest, id));
    } else {
        assert forall|j: int| 0 <= j < i implies (#[trigger] front[j]).id != id by {
            assert(locks[j].id != id);
        }
        lemma_change_in_place(front, id, change, i);
        assert(front.take(i) =~= locks.take(i));
        assert(rest.drop_last() =~= front.skip(i + 1));
        assert(rest.last() == locks.last());
        assert(change_lock(locks, id, change) =~= locks.take(i).push(change(locks[i]))
            + locks_without(rest, id));
    }
}

/// A lock that is set or extended takes the place of the first one with its
/// identifier, and any further one is removed. Set, it is of the amount;
/// extended, of the larger of the amount and of what it was.
pub proof fn law_lock_takes_its_place(
    locks: Seq<BalanceLock>,
    id: LockIdentifier,
    amount: Balance,
    i: int,
    extended: Balance,
)
    requires
        0 <= i < locks.len(),
        locks[i].id == id,
        forall|j: int| 0 <= j < i ==> (#[trigger] locks[j]).id != id,
        extended >= amount,
        extended >= locks[i].amount,
        extended == amount || extended == locks[i].amount,
    ensures
        locks_with(locks, id, amount) == locks.take(i) + seq![BalanceLock { id, amount }]
            + locks_without(locks.skip(i + 1), id),
        locks_extended(locks, id, amount) == locks.take(i)
            + seq![BalanceLock { id, amount: extended }] + locks_without(locks.skip(i + 1), id),
{
    let rest = locks_without(locks.skip(i + 1), id);
    let set = BalanceLock { id, amount };
    let more = BalanceLock { id, amount: extended };
    lemma_change_in_place(locks, id, replacing(set), i);
    lemma_change_in_place(locks, id, raising(amount), i);
    assert(locks.take(i).push(set) =~= locks.take(i) + seq![set]);
    assert(locks.take(i).push(more) =~= locks.take(i) + seq![more]);
}

/// A lock that is set or extended where none has its identifier comes last, and
/// is of the amount. Whether any has it is whether it stands anywhere.
pub proof fn law_new_lock_comes_last(locks: Seq<BalanceLock>, id: LockIdentifier, amount: Balance)
    ensures
        has_lock(locks, id) <==> exists|i: int| 0 <= i < locks.len() && #[trigger] locks[i].id == id,
        (forall|i: int| 0 <= i < locks.len() ==> #[trigger] locks[i].id != id) ==> {
            &&& locks_with(locks, id, amount) == locks + seq![BalanceLock { id, amount }]
            &&& locks_extended(locks, id, amount) == locks + seq![BalanceLock { id, amount }]
            &&& locks_without(locks, id) == locks
        },
{
    if forall|i: int| 0 <= i < locks.len() ==> #[trigger] locks[i].id != id {
        assert(!has_lock(locks, id));
        assert(locks.push(BalanceLock { id, amount }) =~= locks + seq![BalanceLock { id, amount }]);
        lemma_without_absent(locks, id);
    }
}

/// The locks overlap: the largest of them counts, and it is one of them. Where
/// there are none, nothing is locked.
pub proof fn law_largest_lock_counts(locks: Seq<BalanceLock>)
    ensures
        locks.len() == 0 ==> largest_lock(locks) == 0,
        forall|i: int| 0 <= i < locks.len() ==> (#[trigger] locks[i]).amount <= largest_lock(locks),
        locks.len() > 0 ==> exists|i: int|
            0 <= i < locks.len() && (#[trigger] locks[i]).amount == largest_lock(locks),
    decreases locks.len(),
{
    if locks.len() > 0 {
        let front = locks.drop_last();
        law_largest_lock_counts(front);
        assert forall|i: int| 0 <= i < locks.len() implies (#[trigger] locks[i]).amount
            <= largest_lock(locks) by {
            if i < front.len() {
                assert(front[i] == locks[i]);
            }
        }
        if largest_lock(locks) == locks.last().amount {
            assert(locks[locks.len() - 1].amount == largest_lock(locks));
        } else {
            let i = choose|i: int|
                0 <= i < front.len() && (#[trigger] front[i]).amount == largest_lock(front);
            assert(locks[i].amount == largest_lock(locks));
        }
    }
}

// On the ledger.
impl State {
    /// The locks that an operation leaves behind are those it wrote, and the
    /// balance is frozen up to the largest of them, unless the account holds
    /// nothing or its dust leaves.
    pub proof fn law_locks_freeze<T: Config>(
        self,
        currency_id: CurrencyId,
        who: AccountId,
        locks: Seq<BalanceLock>,
    )
        requires
            self.update_locks_fits::<T>(currency_id, who, locks),
            self.account(who, currency_id).holding() != 0,
            !self.dust_leaves::<T>(
                who,
                currency_id,
                self.locked_account(who, currency_id, locks),
            ),
        ensures
            ({
                let t = self.update_locks::<T>(currency_id, who, locks);
                let account = self.account(who, currency_id);
                &&& t.locks_of(who, currency_id) == locks
                &&& t.account(who, currency_id) == (AccountData {
                    frozen: largest_lock(locks),
                    ..account
                })
            }),
    {
        let account = self.locked_account(who, currency_id, locks);
        let s = self.put_account::<T>(who, currency_id, account);
        self.lemma_put_entries::<T>(who, currency_id, account);
        assert(s.write_locks(who, currency_id, locks).accounts == s.accounts);
        if locks.len() == 0 {
            assert(locks =~= Seq::empty());
        }
    }

    /// Only one lock stays in existence for each identifier, whether a lock is
    /// set, extended or removed.
    pub proof fn law_locks_stay_unique<T: Config>(
        self,
        currency_id: CurrencyId,
        who: AccountId,
        id: LockIdentifier,
        amount: Balance,
    )
        requires
            self.has_unique_locks(),
        ensures
            ({
                let locks = self.locks_of(who, currency_id);
                &&& self.update_locks::<T>(
                    currency_id,
                    who,
                    locks_with(locks, id, amount),
                ).has_unique_locks()
                &&& self.update_locks::<T>(
                    currency_id,
                    who,
                    locks_extended(locks, id, amount),
                ).has_unique_locks()
                &&& self.update_locks::<T>(
                    currency_id,
                    who,
                    locks_without(locks, id),
                ).has_unique_locks()
            }),
    {
        let locks = self.locks_of(who, currency_id);
        assert(unique_ids(locks));
        law_set_lock_sets(locks, id, amount);
        law_extend_lock_extends(locks, id, amount);
        law_remove_lock_removes(locks, id);
        self.lemma_update_unique::<T>(currency_id, who, locks_with(locks, id, amount));
        self.lemma_update_unique::<T>(currency_id, who, locks_extended(locks, id, amount));
        self.lemma_update_unique::<T>(currency_id, who, locks_without(locks, id));
    }

    /// Unique locks can be written.
    proof fn lemma_update_unique<T: Config>(
        self,
        currency_id: CurrencyId,
        who: AccountId,
        locks: Seq<BalanceLock>,
    )
        requires
            self.has_unique_locks(),
            unique_ids(locks),
        ensures
            self.update_locks::<T>(currency_id, who, locks).has_unique_locks(),
    {
        let t = self.update_locks::<T>(currency_id, who, locks);
        let k = key(who, currency_id);
        self.lemma_put_locks::<T>(
            who,
            currency_id,
            self.locked_account(who, currency_id, locks),
        );
        assert forall|l: AccountKey| #[trigger] t.locks.contains_key(l) implies unique_ids(
            t.locks[l],
        ) by {
            if l != k {
                assert(self.locks.contains_key(l));
            }
        }
    }

    /// Writing an entry changes no locks.
    proof fn lemma_put_locks<T: Config>(
        self,
        who: AccountId,
        currency_id: CurrencyId,
        account: AccountData,
    )
        ensures
            self.put_account::<T>(who, currency_id, account).locks == self.locks,
    {
    }

    /// A lock that is set where there was none and removed again leaves the
    /// count of consumers as it was.
    pub proof fn law_remove_undoes_count<T: Config>(
        self,
        currency_id: CurrencyId,
        who: AccountId,
        id: LockIdentifier,
        amount: Balance,
        other: AccountId,
    )
        requires
            self.is_tidy(),
            !has_lock(self.locks_of(who, currency_id), id),
        ensures
            ({
                let locks = self.locks_of(who, currency_id);
                let s = self.update_locks::<T>(currency_id, who, locks_with(locks, id, amount));
                let t = s.update_locks::<T>(
                    currency_id,
                    who,
                    locks_without(s.locks_of(who, currency_id), id),
                );
                &&& t.locks == self.locks
                &&& consumers(t.effects, other) == consumers(self.effects, other)
            }),
    {
        let locks = self.locks_of(who, currency_id);
        let new = locks_with(locks, id, amount);
        let s = self.update_locks::<T>(currency_id, who, new);
        let t = s.update_locks::<T>(
            currency_id,
            who,
            locks_without(s.locks_of(who, currency_id), id),
        );
        let touched = set![currency_id];
        self.lemma_put_locks::<T>(
            who,
            currency_id,
            self.locked_account(who, currency_id, new),
        );
        assert(s.locks_of(who, currency_id) == new);
        law_remove_undoes_set(locks, id, amount);
        s.lemma_put_locks::<T>(who, currency_id, s.locked_account(who, currency_id, locks));
        assert(t.locks =~= self.locks) by {
            let k = key(who, currency_id);
            if self.locks.contains_key(k) {
                assert(locks.len() != 0);
            } else {
                assert(locks.len() == 0);
            }
        }
        self.law_locks_orderly::<T>(currency_id, who, new, touched);
        s.law_locks_orderly::<T>(currency_id, who, locks, touched);
        lemma_orderly_twice(self, s, t, touched);
        assert(consumers(t.effects, other) - consumers(self.effects, other) == t.locked_entries(
            other,
        ) - self.locked_entries(other));
    }

    /// No other operation changes any locks.
    pub proof fn law_others_leave_locks<T: Config>(
        self,
        currency_id: CurrencyId,
        who: AccountId,
        other: AccountId,
        amount: Balance,
        status: BalanceStatus,
    )
        ensures
            self.transferred::<T>(currency_id, who, other, amount).locks == self.locks,
            self.transfer_called::<T>(who, other, currency_id, amount).locks == self.locks,
            self.deposited::<T>(currency_id, who, amount).locks == self.locks,
            self.withdrawn::<T>(currency_id, who, amount).locks == self.locks,
            self.slashed::<T>(currency_id, who, amount).locks == self.locks,
            self.reserve_slashed::<T>(currency_id, who, amount).locks == self.locks,
            self.reserved::<T>(currency_id, who, amount).locks == self.locks,
            self.unreserved::<T>(currency_id, who, amount).locks == self.locks,
            self.repatriated::<T>(currency_id, who, other, amount, status).locks == self.locks,
    {
        assert forall|s: State, w: AccountId, n: int|
            #![trigger s.set_free::<T>(currency_id, w, n)]
            s.set_free::<T>(currency_id, w, n).locks == s.locks by {
            s.lemma_put_locks::<T>(
                w,
                currency_id,
                AccountData { free: n as Balance, ..s.account(w, currency_id) },
            );
        }
        assert forall|s: State, w: AccountId, n: int|
            #![trigger s.set_reserved::<T>(currency_id, w, n)]
            s.set_reserved::<T>(currency_id, w, n).locks == s.locks by {
            s.lemma_put_locks::<T>(
                w,
                currency_id,
                AccountData { reserved: n as Balance, ..s.account(w, currency_id) },
            );
        }
    }
}

} // verus!
