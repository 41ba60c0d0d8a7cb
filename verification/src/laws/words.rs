//! What the words mean in which the contracts speak.
use crate::account::AccountId;
use crate::adapter::imbalance_between;
use crate::currency::{magnitude, smaller};
use crate::dispatch::{parties, DispatchError, LookupError, Origin};
use crate::imbalances::{
    negative_offset, positive_offset, saturated, signed_amount, NegativeImbalance, PositiveImbalance,
    SignedImbalance,
};
use crate::lockable::larger;
use crate::serp::distance;
use crate::state::State;
use crate::storage::{key, lists, AccountKey};
use crate::types::{AccountData, Amount, Balance, BalanceLock, CurrencyId, Effect, Event};
use vstd::prelude::*;

verus! {

// Numbers.
/// The smaller of two numbers is one of them, and neither is less.
pub proof fn law_smaller(a: int, b: int)
    ensures
        smaller(a, b) <= a,
        smaller(a, b) <= b,
        smaller(a, b) == a || smaller(a, b) == b,
{
}

/// The larger of two balances is one of them, and neither is more.
pub proof fn law_larger(a: Balance, b: Balance)
    ensures
        larger(a, b) >= a,
        larger(a, b) >= b,
        larger(a, b) == a || larger(a, b) == b,
{
}

/// The distance leads from the lesser of two numbers to the other.
pub proof fn law_distance(a: int, b: int)
    ensures
        distance(a, b) >= 0,
        a + distance(a, b) == b || b + distance(a, b) == a,
{
}

/// A change by an amount goes as far as its opposite, and a change down from
/// nothing by its magnitude comes to the change. The one amount without an
/// opposite goes as far as the largest.
pub proof fn law_magnitude(by_amount: Amount)
    ensures
        by_amount >= 0 ==> magnitude(by_amount) == by_amount,
        by_amount < 0 && by_amount != Amount::MIN ==> magnitude(by_amount) + by_amount == 0,
        by_amount == Amount::MIN ==> magnitude(by_amount) == Amount::MAX,
{
}

/// What is a balance stays, what is less than nothing becomes nothing, and what
/// is too much becomes the largest balance.
pub proof fn law_saturated(value: int)
    ensures
        0 <= value <= Balance::MAX ==> saturated(value) == value,
        value < 0 ==> saturated(value) == 0,
        value > Balance::MAX ==> saturated(value) == Balance::MAX,
{
}

// Imbalances.
/// A positive imbalance counts as what was added, a negative one as what was
/// taken.
pub proof fn law_signed_amount(positive: PositiveImbalance, negative: NegativeImbalance)
    ensures
        signed_amount(SignedImbalance::Positive(positive)) == positive.amount,
        signed_amount(SignedImbalance::Negative(negative)) + negative.amount == 0,
{
}

/// Of two opposite imbalances the larger one is left, less the smaller one. If
/// they are the same, nothing is left on the side that was offset.
pub proof fn law_offset(positive: PositiveImbalance, negative: NegativeImbalance)
    ensures
        positive_offset(positive, negative) is Ok <==> negative.amount <= positive.amount,
        positive_offset(positive, negative) matches Ok(p) ==> p.amount + negative.amount
            == positive.amount,
        positive_offset(positive, negative) matches Err(n) ==> n.amount + positive.amount
            == negative.amount,
        negative_offset(negative, positive) is Ok <==> positive.amount <= negative.amount,
        negative_offset(negative, positive) matches Ok(n) ==> n.amount + positive.amount
            == negative.amount,
        negative_offset(negative, positive) matches Err(p) ==> p.amount + negative.amount
            == positive.amount,
{
}

/// A balance that grows leaves a positive imbalance, one that shrinks a negative
/// one, of as much as it grows or shrinks.
pub proof fn law_imbalance_between(free: Balance, value: Balance)
    ensures
        imbalance_between(free, value) is Positive <==> free <= value,
        free + signed_amount(imbalance_between(free, value)) == value,
{
}

// Entries.
/// An entry holds what is free and what is reserved, whatever is frozen. Its
/// total is that, or the largest balance where that is no balance.
pub proof fn law_total(account: AccountData)
    ensures
        account.holding() == account.free + account.reserved,
        account.free + account.reserved <= Balance::MAX ==> account.spec_total() == account.free
            + account.reserved,
        account.free + account.reserved > Balance::MAX ==> account.spec_total() == Balance::MAX,
        AccountData::empty().free == 0,
        AccountData::empty().reserved == 0,
        AccountData::empty().frozen == 0,
{
}

/// An account belongs to a module if it spells `modl`, eight bytes and zeroes.
pub proof fn law_module_accounts(who: AccountId)
    ensures
        who.is_module() <==> who.0@.take(4) == seq![0x6du8, 0x6fu8, 0x64u8, 0x6cu8] && forall|i: int|
            12 <= i < 32 ==> who.0@[i] == 0,
{
    let tag = seq![0x6du8, 0x6fu8, 0x64u8, 0x6cu8];
    let bytes = who.0@;
    if who.is_module() {
        assert(bytes.take(4) =~= tag);
    }
    if bytes.take(4) == tag {
        assert(bytes.take(4)[0] == tag[0]);
        assert(bytes.take(4)[1] == tag[1]);
        assert(bytes.take(4)[2] == tag[2]);
        assert(bytes.take(4)[3] == tag[3]);
        assert(bytes[0] == 0x6d && bytes[1] == 0x6f && bytes[2] == 0x64 && bytes[3] == 0x6c);
    }
}

// The ledger.
impl State {
    /// What is read of a ledger is what is stored in it, and nothing where
    /// nothing is stored.
    pub proof fn law_reading(self, who: AccountId, currency_id: CurrencyId)
        ensures
            ({
                let k = AccountKey { who, currency_id };
                &&& key(who, currency_id) == k
                &&& self.is_stored(who, currency_id) <==> self.accounts.contains_key(k)
                &&& self.accounts.contains_key(k) ==> self.account(who, currency_id)
                    == self.accounts[k]
                &&& !self.accounts.contains_key(k) ==> self.account(who, currency_id) == (
                AccountData { free: 0, reserved: 0, frozen: 0 })
                &&& self.issuance.contains_key(currency_id) ==> self.total_issuance(currency_id)
                    == self.issuance[currency_id]
                &&& !self.issuance.contains_key(currency_id) ==> self.total_issuance(currency_id)
                    == 0
                &&& self.locks.contains_key(k) ==> self.locks_of(who, currency_id) == self.locks[k]
                &&& !self.locks.contains_key(k) ==> self.locks_of(who, currency_id)
                    == Seq::<BalanceLock>::empty()
            }),
    {
    }

    /// A walk goes through the currencies of an account: it comes to each under
    /// which an entry is stored, to no other, and to none twice.
    pub proof fn law_walks(self, who: AccountId, walk: Seq<CurrencyId>)
        ensures
            self.walks(who, walk) <==> {
                &&& forall|c: CurrencyId|
                    self.accounts.contains_key(AccountKey { who, currency_id: c })
                        <==> #[trigger] walk.contains(c)
                &&& forall|i: int, j: int|
                    0 <= i < walk.len() && 0 <= j < walk.len() && walk[i] == walk[j] ==> i == j
            },
    {
        assert forall|c: CurrencyId| #[trigger]
            walk.contains(c) implies self.accounts.contains_key(AccountKey { who, currency_id: c })
            == self.is_stored(who, c) by {}
        if self.walks(who, walk) {
            assert forall|c: CurrencyId|
                self.accounts.contains_key(AccountKey { who, currency_id: c })
                    <==> #[trigger] walk.contains(c) by {
                assert(self.is_stored(who, c) == self.accounts.contains_key(
                    AccountKey { who, currency_id: c },
                ));
            }
        }
    }

    /// A ledger in which nothing was written stores nothing.
    pub proof fn law_empty_stores_nothing()
        ensures
            State::empty().accounts == Map::<AccountKey, AccountData>::empty(),
            State::empty().issuance == Map::<CurrencyId, Balance>::empty(),
            State::empty().locks == Map::<AccountKey, Seq<BalanceLock>>::empty(),
            State::empty().effects == Seq::<Effect>::empty(),
    {
    }

    /// An event comes after the work that there is, and a total issuance is
    /// stored under its currency. Neither changes anything else.
    pub proof fn law_notes(self, event: Event, currency_id: CurrencyId, amount: Balance)
        ensures
            self.with_event(event) == (State {
                effects: self.effects.push(Effect::Deposit(event)),
                ..self
            }),
            self.with_issuance(currency_id, amount as int) == (State {
                issuance: self.issuance.insert(currency_id, amount),
                ..self
            }),
    {
    }
}

/// A map of lists holds under each key what the list there holds, in its order.
pub proof fn law_lists<K, E>(m: Map<K, Vec<E>>, k: K)
    ensures
        lists(m).contains_key(k) <==> m.contains_key(k),
        m.contains_key(k) ==> lists(m)[k] == m[k]@,
{
}

// Calls.
/// A call has two accounts exactly if it is signed and its address leads to an
/// account: the one that signed it and the one it leads to. A call that is not
/// signed fails for that, whatever its address.
pub proof fn law_parties(origin: Origin, dest: Result<AccountId, LookupError>)
    ensures
        parties(origin, dest) matches Ok((from, to)) ==> origin == Origin::Signed(from) && dest
            == Ok::<AccountId, LookupError>(to),
        origin is Signed && dest is Ok ==> parties(origin, dest) is Ok,
        !(origin is Signed) ==> parties(origin, dest) == Err::<(AccountId, AccountId), _>(
            DispatchError::BadOrigin,
        ),
        origin is Signed && dest is Err ==> parties(origin, dest) == Err::<
            (AccountId, AccountId),
            _,
        >(DispatchError::CannotLookup),
{
}

} // verus!
