//! Which entries an operation writes, with what in them, and which total
//! issuances it changes, by how much. What the writing of an entry does is said
//! in [`crate::laws::writing`].
use crate::account::AccountId;
use crate::config::Config;
use crate::dust::DustHandler;
use crate::imbalances::SignedImbalance;
use crate::laws::locking::law_largest_lock_counts;
use crate::laws::writing::is_largest;
use crate::lockable::largest_lock;
use crate::state::State;
use crate::storage::AccountKey;
use crate::types::{
    AccountData, Amount, Balance, BalanceLock, BalanceStatus, CurrencyId, Effect, Event,
};
use vstd::prelude::*;

verus! {

/// Whether a number is all that there is of a balance, or all that is asked for,
/// whichever is less.
pub open spec fn is_part(part: int, there: Balance, asked: int) -> bool {
    &&& part <= there
    &&& part <= asked
    &&& part == there || part == asked
}

// Moving, issuing and taking back.
impl State {
    /// A transfer writes the entry of the sender with that much less free, and
    /// then that of the recipient with that much more.
    pub proof fn law_transfer_steps<T: Config>(
        self,
        currency_id: CurrencyId,
        from: AccountId,
        to: AccountId,
        amount: Balance,
    )
        requires
            amount != 0,
            from != to,
            amount + self.account(from, currency_id).frozen <= self.account(from, currency_id).free,
            self.account(to, currency_id).free + amount <= Balance::MAX,
        ensures
            ({
                let source = self.account(from, currency_id);
                let left = AccountData { free: (source.free - amount) as Balance, ..source };
                let s = self.put_account::<T>(from, currency_id, left);
                let target = s.account(to, currency_id);
                let more = AccountData { free: (target.free + amount) as Balance, ..target };
                &&& self.transferred::<T>(currency_id, from, to, amount) == s.put_account::<T>(
                    to,
                    currency_id,
                    more,
                )
                &&& self.transfer_fits::<T>(currency_id, from, to, amount) <==> {
                    &&& self.put_fits::<T>(from, currency_id, left)
                    &&& target.free + amount <= Balance::MAX
                    &&& s.put_fits::<T>(to, currency_id, more)
                }
            }),
    {
    }

    /// A transfer of which both accounts keep the existential deposit, or which
    /// takes all that the sender has, moves the amount and changes nothing else
    /// in any balance or total issuance. The sender goes if nothing is left, and
    /// the recipient comes if it was not there.
    pub proof fn law_transfer_between_accounts<T: Config>(
        self,
        currency_id: CurrencyId,
        from: AccountId,
        to: AccountId,
        amount: Balance,
        received: AccountData,
    )
        requires
            amount != 0,
            from != to,
            ({
                let source = self.account(from, currency_id);
                let target = self.account(to, currency_id);
                let ed = T::spec_existential_deposit(currency_id);
                let more = AccountData { free: (target.free + amount) as Balance, ..target };
                &&& amount + source.frozen <= source.free
                &&& target.free + amount <= Balance::MAX
                &&& source.free + source.reserved == amount || source.free + source.reserved
                    - amount >= ed || from.is_module()
                &&& target.free + target.reserved + amount >= ed || to.is_module()
                &&& self.stores_as(to, currency_id, more, received)
            }),
        ensures
            ({
                let source = self.account(from, currency_id);
                let left = AccountData { free: (source.free - amount) as Balance, ..source };
                let here = AccountKey { who: from, currency_id };
                let there = AccountKey { who: to, currency_id };
                let gone = source.free + source.reserved == amount;
                &&& self.transfer_fits::<T>(currency_id, from, to, amount)
                &&& self.transferred::<T>(currency_id, from, to, amount) == (State {
                    accounts: (if gone {
                        self.accounts.remove(here)
                    } else {
                        self.accounts.insert(here, left)
                    }).insert(there, received),
                    effects: self.effects + (if gone {
                        seq![Effect::DecProviders(from)]
                    } else {
                        Seq::empty()
                    }) + self.arrival(to, currency_id),
                    ..self
                })
            }),
    {
        let source = self.account(from, currency_id);
        let target = self.account(to, currency_id);
        let left = AccountData { free: (source.free - amount) as Balance, ..source };
        let more = AccountData { free: (target.free + amount) as Balance, ..target };
        let here = AccountKey { who: from, currency_id };
        let gone = source.free + source.reserved == amount;
        let s = self.put_account::<T>(from, currency_id, left);
        assert(self.is_stored(from, currency_id));
        if gone {
            self.law_nothing_is_not_stored::<T>(from, currency_id, left);
        } else {
            self.law_enough_is_stored::<T>(from, currency_id, left, left);
        }
        self.law_transfer_steps::<T>(currency_id, from, to, amount);
        assert(s.account(to, currency_id) == target);
        assert(s.stores_as(to, currency_id, more, received));
        s.law_enough_is_stored::<T>(to, currency_id, more, received);
        assert(s.arrival(to, currency_id) == self.arrival(to, currency_id));
    }

    /// Where dust is moved to a treasury, a transfer that leaves the sender with
    /// less than the existential deposit, and nothing reserved or frozen, leaves
    /// no entry of the sender: the treasury has the rest, and everybody is told.
    pub proof fn law_transfer_sweeps_the_rest<T: Config>(
        self,
        currency_id: CurrencyId,
        from: AccountId,
        to: AccountId,
        amount: Balance,
        treasury: AccountId,
    )
        requires
            amount != 0,
            from != to,
            treasury != from,
            treasury != to,
            !from.is_module(),
            T::spec_on_dust() matches DustHandler::Transfer(h) && h.receiver == treasury,
            ({
                let source = self.account(from, currency_id);
                let target = self.account(to, currency_id);
                let kept = self.account(treasury, currency_id);
                let ed = T::spec_existential_deposit(currency_id);
                &&& source.reserved == 0
                &&& source.frozen == 0
                &&& amount < source.free < amount + ed
                &&& target.free + amount <= Balance::MAX
                &&& target.free + target.reserved + amount >= ed
                &&& self.is_stored(treasury, currency_id)
                &&& kept.free + source.free - amount <= Balance::MAX
            }),
        ensures
            ({
                let source = self.account(from, currency_id);
                let target = self.account(to, currency_id);
                let kept = self.account(treasury, currency_id);
                let rest = (source.free - amount) as Balance;
                let t = self.transferred::<T>(currency_id, from, to, amount);
                &&& self.transfer_fits::<T>(currency_id, from, to, amount)
                &&& !t.is_stored(from, currency_id)
                &&& t.account(to, currency_id).free == target.free + amount
                &&& t.account(to, currency_id).reserved == target.reserved
                &&& t.account(treasury, currency_id) == (AccountData {
                    free: (kept.free + rest) as Balance,
                    ..kept
                })
                &&& t.issuance == self.issuance
                &&& t.effects.contains(
                    Effect::Deposit(Event::DustLost(from, currency_id, rest)),
                )
            }),
    {
        let source = self.account(from, currency_id);
        let target = self.account(to, currency_id);
        let kept = self.account(treasury, currency_id);
        let rest = (source.free - amount) as Balance;
        let left = AccountData { free: rest, ..source };
        let swept = AccountData { free: (kept.free + rest) as Balance, ..kept };
        let more = AccountData { free: (target.free + amount) as Balance, ..target };
        let s = self.put_account::<T>(from, currency_id, left);
        let t = self.transferred::<T>(currency_id, from, to, amount);
        assert(self.is_stored(from, currency_id));
        self.law_dust_moves::<T>(from, currency_id, left, left, treasury, swept);
        self.law_transfer_steps::<T>(currency_id, from, to, amount);
        assert(s.account(to, currency_id) == target);
        s.law_can_be_stored(to, currency_id, more);
        let entry = choose|entry: AccountData| s.stores_as(to, currency_id, more, entry);
        s.law_enough_is_stored::<T>(to, currency_id, more, entry);
        let last = s.effects.len() - 1;
        assert(s.effects[last] == Effect::Deposit(Event::DustLost(from, currency_id, rest)));
        assert(t.effects[last] == s.effects[last]);
    }

    /// A transfer that fails or moves nothing can always be called.
    pub proof fn law_idle_transfer_fits<T: Config>(
        self,
        currency_id: CurrencyId,
        from: AccountId,
        to: AccountId,
        amount: Balance,
    )
        requires
            amount == 0 || from == to || amount + self.account(from, currency_id).frozen
                > self.account(from, currency_id).free || self.account(to, currency_id).free
                + amount > Balance::MAX,
        ensures
            self.transfer_fits::<T>(currency_id, from, to, amount),
            self.transferred::<T>(currency_id, from, to, amount) == self,
    {
    }

    /// A deposit adds to the total issuance and then writes the entry with that
    /// much more free.
    pub proof fn law_deposit_steps<T: Config>(
        self,
        currency_id: CurrencyId,
        who: AccountId,
        amount: Balance,
    )
        ensures
            ({
                let account = self.account(who, currency_id);
                let issued = self.total_issuance(currency_id) + amount;
                let s = State {
                    issuance: self.issuance.insert(currency_id, issued as Balance),
                    ..self
                };
                let more = AccountData { free: (account.free + amount) as Balance, ..account };
                if amount == 0 || issued > Balance::MAX {
                    &&& self.deposited::<T>(currency_id, who, amount) == self
                    &&& self.deposit_fits::<T>(currency_id, who, amount)
                } else {
                    &&& self.deposited::<T>(currency_id, who, amount) == s.put_account::<T>(
                        who,
                        currency_id,
                        more,
                    )
                    &&& self.deposit_fits::<T>(currency_id, who, amount) <==> account.free + amount
                        <= Balance::MAX && s.put_fits::<T>(who, currency_id, more)
                }
            }),
    {
        let s = self.with_issuance(currency_id, self.total_issuance(currency_id) + amount);
        assert(s.account(who, currency_id) == self.account(who, currency_id));
    }

    /// A withdrawal takes from the total issuance and then writes the entry with
    /// that much less free.
    pub proof fn law_withdrawal_steps<T: Config>(
        self,
        currency_id: CurrencyId,
        who: AccountId,
        amount: Balance,
    )
        ensures
            ({
                let account = self.account(who, currency_id);
                let issued = self.total_issuance(currency_id) - amount;
                let s = State {
                    issuance: self.issuance.insert(currency_id, issued as Balance),
                    ..self
                };
                let left = AccountData { free: (account.free - amount) as Balance, ..account };
                if amount == 0 || amount + account.frozen > account.free {
                    &&& self.withdrawn::<T>(currency_id, who, amount) == self
                    &&& self.withdraw_fits::<T>(currency_id, who, amount)
                } else {
                    &&& self.withdrawn::<T>(currency_id, who, amount) == s.put_account::<T>(
                        who,
                        currency_id,
                        left,
                    )
                    &&& self.withdraw_fits::<T>(currency_id, who, amount) <==> issued >= 0
                        && s.put_fits::<T>(who, currency_id, left)
                }
            }),
    {
        let s = self.with_issuance(currency_id, self.total_issuance(currency_id) - amount);
        assert(s.account(who, currency_id) == self.account(who, currency_id));
    }

    /// A signed change writes what a deposit or a withdrawal of as much does.
    pub proof fn law_update_balance_steps<T: Config>(
        self,
        currency_id: CurrencyId,
        who: AccountId,
        by_amount: Amount,
        much: Balance,
    )
        requires
            by_amount > 0 ==> much == by_amount,
            Amount::MIN < by_amount < 0 ==> much + by_amount == 0,
            by_amount == Amount::MIN ==> much == Amount::MAX,
            by_amount == 0 ==> much == 0,
        ensures
            self.balance_updated::<T>(currency_id, who, by_amount) == (if by_amount >= 0 {
                self.deposited::<T>(currency_id, who, much)
            } else {
                self.withdrawn::<T>(currency_id, who, much)
            }),
            self.update_balance_fits::<T>(currency_id, who, by_amount) == (if by_amount >= 0 {
                self.deposit_fits::<T>(currency_id, who, much)
            } else {
                self.withdraw_fits::<T>(currency_id, who, much)
            }),
    {
    }
}

// Slashing.
impl State {
    /// A slash takes what it can of the free balance and then, if that does not
    /// do, what it can of the reserved balance, and hands back the rest. It
    /// writes the entry for each that gives something or is asked.
    pub proof fn law_slash_account_steps<T: Config>(
        self,
        currency_id: CurrencyId,
        who: AccountId,
        amount: Balance,
        free_part: int,
        reserved_part: int,
    )
        requires
            is_part(free_part, self.account(who, currency_id).free, amount as int),
            is_part(reserved_part, self.account(who, currency_id).reserved, amount - free_part),
        ensures
            ({
                let account = self.account(who, currency_id);
                let left = AccountData { free: (account.free - free_part) as Balance, ..account };
                let s = if free_part > 0 {
                    self.put_account::<T>(who, currency_id, left)
                } else {
                    self
                };
                let rest = AccountData {
                    reserved: (account.reserved - reserved_part) as Balance,
                    ..s.account(who, currency_id)
                };
                let asked = free_part < amount;
                &&& self.unslashed(currency_id, who, amount) + free_part + reserved_part == amount
                &&& self.slashed_account::<T>(currency_id, who, amount) == (if asked {
                    s.put_account::<T>(who, currency_id, rest)
                } else {
                    s
                })
                &&& self.slash_account_fits::<T>(currency_id, who, amount) <==> {
                    &&& free_part > 0 ==> self.put_fits::<T>(who, currency_id, left)
                    &&& asked ==> s.put_fits::<T>(who, currency_id, rest)
                }
            }),
    {
        assert(self.free_slash(currency_id, who, amount) == free_part);
        assert(self.reserved_slash(currency_id, who, amount) == reserved_part);
    }

    /// A slash takes from the total issuance, after the account, what it took
    /// from the account.
    pub proof fn law_slash_steps<T: Config>(
        self,
        currency_id: CurrencyId,
        who: AccountId,
        amount: Balance,
    )
        ensures
            ({
                let s = self.slashed_account::<T>(currency_id, who, amount);
                let left = s.total_issuance(currency_id) + self.unslashed(currency_id, who, amount)
                    - amount;
                if amount == 0 {
                    &&& self.slashed::<T>(currency_id, who, amount) == self
                    &&& self.slash_fits::<T>(currency_id, who, amount)
                } else {
                    &&& self.slashed::<T>(currency_id, who, amount) == (State {
                        issuance: s.issuance.insert(currency_id, left as Balance),
                        ..s
                    })
                    &&& self.slash_fits::<T>(currency_id, who, amount) <==> left >= 0
                        && self.slash_account_fits::<T>(currency_id, who, amount)
                }
            }),
    {
    }

    /// A slash of the reserved balance writes the entry with what it could take
    /// less in reserve, and then takes as much from the total issuance.
    pub proof fn law_slash_reserved_steps<T: Config>(
        self,
        currency_id: CurrencyId,
        who: AccountId,
        value: Balance,
        part: int,
    )
        requires
            is_part(part, self.account(who, currency_id).reserved, value as int),
        ensures
            ({
                let account = self.account(who, currency_id);
                let less = AccountData {
                    reserved: (account.reserved - part) as Balance,
                    ..account
                };
                let s = self.put_account::<T>(who, currency_id, less);
                let left = s.total_issuance(currency_id) - part;
                &&& self.from_reserve(currency_id, who, value) == part
                &&& if value == 0 {
                    &&& self.reserve_slashed::<T>(currency_id, who, value) == self
                    &&& self.slash_reserved_fits::<T>(currency_id, who, value)
                } else {
                    &&& self.reserve_slashed::<T>(currency_id, who, value) == (State {
                        issuance: s.issuance.insert(currency_id, left as Balance),
                        ..s
                    })
                    &&& self.slash_reserved_fits::<T>(currency_id, who, value) <==> left >= 0
                        && self.put_fits::<T>(who, currency_id, less)
                }
            }),
    {
    }
}

// Reserving.
impl State {
    /// Reserving writes the entry once, with the value moved from what is free
    /// to what is reserved. What cannot be withdrawn is not reserved.
    pub proof fn law_reserve_steps<T: Config>(
        self,
        currency_id: CurrencyId,
        who: AccountId,
        value: Balance,
    )
        ensures
            ({
                let account = self.account(who, currency_id);
                let moved = AccountData {
                    free: (account.free - value) as Balance,
                    reserved: (account.reserved + value) as Balance,
                    frozen: account.frozen,
                };
                if value == 0 || value + account.frozen > account.free {
                    &&& self.reserved::<T>(currency_id, who, value) == self
                    &&& self.reserve_fits::<T>(currency_id, who, value)
                } else {
                    &&& self.reserved::<T>(currency_id, who, value) == self.put_account::<T>(
                        who,
                        currency_id,
                        moved,
                    )
                    &&& self.reserve_fits::<T>(currency_id, who, value) <==> account.reserved
                        + value <= Balance::MAX && self.put_fits::<T>(who, currency_id, moved)
                }
            }),
    {
    }

    /// Unreserving writes the entry once, with what there is of the value moved
    /// from what is reserved to what is free.
    pub proof fn law_unreserve_steps<T: Config>(
        self,
        currency_id: CurrencyId,
        who: AccountId,
        value: Balance,
        part: int,
    )
        requires
            is_part(part, self.account(who, currency_id).reserved, value as int),
        ensures
            ({
                let account = self.account(who, currency_id);
                let moved = AccountData {
                    free: (account.free + part) as Balance,
                    reserved: (account.reserved - part) as Balance,
                    frozen: account.frozen,
                };
                &&& self.from_reserve(currency_id, who, value) == part
                &&& if value == 0 {
                    &&& self.unreserved::<T>(currency_id, who, value) == self
                    &&& self.unreserve_fits::<T>(currency_id, who, value)
                } else {
                    &&& self.unreserved::<T>(currency_id, who, value) == self.put_account::<T>(
                        who,
                        currency_id,
                        moved,
                    )
                    &&& self.unreserve_fits::<T>(currency_id, who, value) <==> account.free + part
                        <= Balance::MAX && self.put_fits::<T>(who, currency_id, moved)
                }
            }),
    {
    }

    /// A repatriation between two accounts writes the entry of the beneficiary
    /// with that much more free or reserved, as is asked, and then the other
    /// with that much less reserved.
    pub proof fn law_repatriate_steps<T: Config>(
        self,
        currency_id: CurrencyId,
        slashed: AccountId,
        beneficiary: AccountId,
        value: Balance,
        status: BalanceStatus,
        part: int,
    )
        requires
            value != 0,
            slashed != beneficiary,
            is_part(part, self.account(slashed, currency_id).reserved, value as int),
        ensures
            ({
                let target = self.account(beneficiary, currency_id);
                let more = if status is Free {
                    AccountData { free: (target.free + part) as Balance, ..target }
                } else {
                    AccountData { reserved: (target.reserved + part) as Balance, ..target }
                };
                let room = if status is Free {
                    target.free + part <= Balance::MAX
                } else {
                    target.reserved + part <= Balance::MAX
                };
                let s = self.put_account::<T>(beneficiary, currency_id, more);
                let less = AccountData {
                    reserved: (self.account(slashed, currency_id).reserved - part) as Balance,
                    ..s.account(slashed, currency_id)
                };
                &&& self.repatriated::<T>(currency_id, slashed, beneficiary, value, status)
                    == s.put_account::<T>(slashed, currency_id, less)
                &&& self.repatriate_fits::<T>(currency_id, slashed, beneficiary, value, status)
                    <==> {
                    &&& room
                    &&& self.put_fits::<T>(beneficiary, currency_id, more)
                    &&& s.put_fits::<T>(slashed, currency_id, less)
                }
            }),
    {
        assert(self.from_reserve(currency_id, slashed, value) == part);
    }

    /// A repatriation of nothing, or to the account itself as a reserve, changes
    /// nothing, and one to the account itself as free balance unreserves.
    pub proof fn law_repatriate_to_oneself<T: Config>(
        self,
        currency_id: CurrencyId,
        slashed: AccountId,
        beneficiary: AccountId,
        value: Balance,
    )
        ensures
            value == 0 || slashed == beneficiary ==> self.repatriated::<T>(
                currency_id,
                slashed,
                beneficiary,
                value,
                BalanceStatus::Reserved,
            ) == self,
            value == 0 || slashed == beneficiary ==> self.repatriate_fits::<T>(
                currency_id,
                slashed,
                beneficiary,
                value,
                BalanceStatus::Reserved,
            ),
            value == 0 || slashed == beneficiary ==> self.repatriated::<T>(
                currency_id,
                slashed,
                beneficiary,
                value,
                BalanceStatus::Free,
            ) == self.unreserved::<T>(currency_id, slashed, value),
            value == 0 || slashed == beneficiary ==> self.repatriate_fits::<T>(
                currency_id,
                slashed,
                beneficiary,
                value,
                BalanceStatus::Free,
            ) == self.unreserve_fits::<T>(currency_id, slashed, value),
    {
    }
}

// Locking.
impl State {
    /// A change of locks writes the entry frozen up to the largest of them, and
    /// then stores the locks, or nothing if there are none. The system is told
    /// if there are any where there were none, or none where there were any.
    pub proof fn law_locks_steps<T: Config>(
        self,
        currency_id: CurrencyId,
        who: AccountId,
        locks: Seq<BalanceLock>,
        frozen: Balance,
    )
        requires
            is_largest(frozen, 0, locks),
        ensures
            ({
                let k = AccountKey { who, currency_id };
                let account = AccountData { frozen, ..self.account(who, currency_id) };
                let s = self.put_account::<T>(who, currency_id, account);
                let t = self.update_locks::<T>(currency_id, who, locks);
                let existed = self.locks.contains_key(k);
                &&& t.accounts == s.accounts
                &&& t.issuance == s.issuance
                &&& t.locks == (if locks.len() == 0 {
                    self.locks.remove(k)
                } else {
                    self.locks.insert(k, locks)
                })
                &&& t.effects == (if locks.len() == 0 && existed {
                    s.effects.push(Effect::DecConsumers(who))
                } else if locks.len() != 0 && !existed {
                    s.effects.push(Effect::IncConsumers(who))
                } else {
                    s.effects
                })
                &&& self.update_locks_fits::<T>(currency_id, who, locks) == self.put_fits::<T>(
                    who,
                    currency_id,
                    account,
                )
            }),
    {
        law_largest_lock_counts(locks);
        if frozen != 0 {
            let i = choose|i: int|
                0 <= i < locks.len() && (#[trigger] locks[i]).amount == frozen;
            assert(locks[i].amount <= largest_lock(locks));
        }
        if locks.len() > 0 {
            let j = choose|j: int|
                0 <= j < locks.len() && (#[trigger] locks[j]).amount == largest_lock(locks);
            assert(locks[j].amount <= frozen);
        }
        assert(frozen == largest_lock(locks));
    }
}

// One currency, with the total issuance left to the imbalances.
impl State {
    /// Burning takes the amount from the total issuance, or all of it, and tells
    /// how much that is. Issuing adds the amount, or all there is room for.
    pub proof fn law_issuance_steps(
        self,
        currency_id: CurrencyId,
        amount: Balance,
        burnt: int,
        issued: int,
    )
        requires
            is_part(burnt, self.total_issuance(currency_id), amount as int),
            is_part(
                issued,
                (Balance::MAX - self.total_issuance(currency_id)) as Balance,
                amount as int,
            ),
        ensures
            self.burnable(currency_id, amount) == burnt,
            self.issuable(currency_id, amount) == issued,
            amount != 0 ==> self.issuance_burnt(currency_id, amount) == (State {
                issuance: self.issuance.insert(
                    currency_id,
                    (self.total_issuance(currency_id) - burnt) as Balance,
                ),
                ..self
            }),
            amount != 0 ==> self.issuance_issued(currency_id, amount) == (State {
                issuance: self.issuance.insert(
                    currency_id,
                    (self.total_issuance(currency_id) + issued) as Balance,
                ),
                ..self
            }),
            amount == 0 ==> self.issuance_burnt(currency_id, amount) == self,
            amount == 0 ==> self.issuance_issued(currency_id, amount) == self,
    {
    }

    /// Settling adds a positive imbalance to the total issuance and takes a
    /// negative one from it, as far as there is room or as much was issued.
    pub proof fn law_settling_steps(
        self,
        currency_id: CurrencyId,
        imbalance: SignedImbalance,
        part: int,
    )
        requires
            match imbalance {
                SignedImbalance::Positive(p) => is_part(
                    part,
                    (Balance::MAX - self.total_issuance(currency_id)) as Balance,
                    p.amount as int,
                ),
                SignedImbalance::Negative(n) => is_part(
                    part,
                    self.total_issuance(currency_id),
                    n.amount as int,
                ),
            },
        ensures
            self.settled(currency_id, imbalance) == (State {
                issuance: self.issuance.insert(
                    currency_id,
                    (self.total_issuance(currency_id) + if imbalance is Positive {
                        part
                    } else {
                        -part
                    }) as Balance,
                ),
                ..self
            }),
    {
    }

    /// Adding to a free balance, taking from it and setting it write the entry
    /// with exactly that much free, if that can be done, and nothing else.
    pub proof fn law_free_steps<T: Config>(
        self,
        currency_id: CurrencyId,
        who: AccountId,
        value: Balance,
    )
        ensures
            ({
                let account = self.account(who, currency_id);
                let more = AccountData { free: (account.free + value) as Balance, ..account };
                let left = AccountData { free: (account.free - value) as Balance, ..account };
                let made = AccountData { free: value, ..account };
                let added = self.free_added::<T>(currency_id, who, value);
                let taken = self.free_taken::<T>(currency_id, who, value);
                &&& if value != 0 && account.free + value <= Balance::MAX {
                    &&& added == self.put_account::<T>(who, currency_id, more)
                    &&& self.add_free_fits::<T>(currency_id, who, value) == self.put_fits::<T>(
                        who,
                        currency_id,
                        more,
                    )
                } else {
                    &&& added == self
                    &&& self.add_free_fits::<T>(currency_id, who, value)
                }
                &&& if value != 0 && value + account.frozen <= account.free {
                    &&& taken == self.put_account::<T>(who, currency_id, left)
                    &&& self.take_free_fits::<T>(currency_id, who, value) == self.put_fits::<T>(
                        who,
                        currency_id,
                        left,
                    )
                } else {
                    &&& taken == self
                    &&& self.take_free_fits::<T>(currency_id, who, value)
                }
                &&& if self.is_stored(who, currency_id) || value + account.reserved
                    >= T::spec_existential_deposit(currency_id) {
                    &&& self.free_made::<T>(currency_id, who, value) == self.put_account::<T>(
                        who,
                        currency_id,
                        made,
                    )
                    &&& self.make_free_fits::<T>(currency_id, who, value) == self.put_fits::<T>(
                        who,
                        currency_id,
                        made,
                    )
                } else {
                    &&& self.free_made::<T>(currency_id, who, value) == self
                    &&& self.make_free_fits::<T>(currency_id, who, value)
                }
            }),
    {
    }

    /// Setting a free balance hands out what makes the old one the new one, and
    /// nothing, on the positive side, if it cannot be set.
    pub proof fn law_made_imbalance<T: Config>(
        self,
        currency_id: CurrencyId,
        who: AccountId,
        value: Balance,
    )
        ensures
            ({
                let account = self.account(who, currency_id);
                let set = self.is_stored(who, currency_id) || value + account.reserved
                    >= T::spec_existential_deposit(currency_id);
                match self.made_imbalance::<T>(currency_id, who, value) {
                    SignedImbalance::Positive(p) => if set {
                        account.free + p.amount == value
                    } else {
                        p.amount == 0
                    },
                    SignedImbalance::Negative(n) => set && value + n.amount == account.free
                        && n.amount > 0,
                }
            }),
    {
    }
}

} // verus!
