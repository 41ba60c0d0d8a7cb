//! What a call of each operation on one currency, or on an imbalance, returns
//! and which ledger it leaves behind.
use crate::account::AccountId;
use crate::adapter::CurrencyAdapter;
use crate::config::Config;
use crate::imbalances::{NegativeImbalance, PositiveImbalance, SignedImbalance};
use crate::lockable::{locks_extended, locks_with, locks_without};
use crate::pallet::Pallet;
use crate::types::{Balance, BalanceStatus, CurrencyId, Error, LockIdentifier};
use vstd::prelude::*;

verus! {

// Imbalances.
/// A positive imbalance is of what it is made of. Only one of nothing can be given
/// up, a part of it is no more than is asked for and leaves the rest, two of
/// them add up, and an opposite one is taken off, or leaves what it is more.
pub proof fn law_positive_imbalance_is_used(
    amount: Balance,
    made: PositiveImbalance,
    none: PositiveImbalance,
    imbalance: PositiveImbalance,
    given_up: Result<(), PositiveImbalance>,
    parts: (PositiveImbalance, PositiveImbalance),
    other: PositiveImbalance,
    both: PositiveImbalance,
    opposite: NegativeImbalance,
    left: Result<PositiveImbalance, NegativeImbalance>,
    peeked: Balance,
)
    requires
        call_ensures(PositiveImbalance::new, (amount,), made),
        call_ensures(PositiveImbalance::zero, (), none),
        call_ensures(PositiveImbalance::drop_zero, (imbalance,), given_up),
        call_ensures(PositiveImbalance::split, (imbalance, amount), parts),
        call_ensures(PositiveImbalance::merge, (imbalance, other), both),
        call_ensures(PositiveImbalance::offset, (imbalance, opposite), left),
        call_ensures(PositiveImbalance::peek, (&imbalance,), peeked),
    ensures
        made.amount == amount,
        none.amount == 0,
        given_up is Ok <==> imbalance.amount == 0,
        given_up matches Err(same) ==> same.amount == imbalance.amount,
        parts.0.amount <= amount,
        parts.0.amount == amount || parts.1.amount == 0,
        parts.0.amount + parts.1.amount == imbalance.amount,
        imbalance.amount + other.amount <= Balance::MAX ==> both.amount == imbalance.amount
            + other.amount,
        imbalance.amount + other.amount > Balance::MAX ==> both.amount == Balance::MAX,
        left is Ok <==> opposite.amount <= imbalance.amount,
        left matches Ok(rest) ==> rest.amount + opposite.amount == imbalance.amount,
        left matches Err(rest) ==> rest.amount + imbalance.amount == opposite.amount,
        peeked == imbalance.amount,
{
}

/// A positive imbalance takes up another.
pub proof fn law_positive_imbalance_grows(
    imbalance: &mut PositiveImbalance,
    other: PositiveImbalance,
)
    requires
        call_ensures(PositiveImbalance::subsume, (imbalance, other), ()),
    ensures
        old(imbalance).amount + other.amount <= Balance::MAX ==> final(imbalance).amount == old(
            imbalance
        ).amount + other.amount,
        old(imbalance).amount + other.amount > Balance::MAX ==> final(imbalance).amount
            == Balance::MAX,
{
}

/// A negative imbalance is of what it is made of. Only one of nothing can be given
/// up, a part of it is no more than is asked for and leaves the rest, two of
/// them add up, and an opposite one is taken off, or leaves what it is more.
pub proof fn law_negative_imbalance_is_used(
    amount: Balance,
    made: NegativeImbalance,
    none: NegativeImbalance,
    imbalance: NegativeImbalance,
    given_up: Result<(), NegativeImbalance>,
    parts: (NegativeImbalance, NegativeImbalance),
    other: NegativeImbalance,
    both: NegativeImbalance,
    opposite: PositiveImbalance,
    left: Result<NegativeImbalance, PositiveImbalance>,
    peeked: Balance,
)
    requires
        call_ensures(NegativeImbalance::new, (amount,), made),
        call_ensures(NegativeImbalance::zero, (), none),
        call_ensures(NegativeImbalance::drop_zero, (imbalance,), given_up),
        call_ensures(NegativeImbalance::split, (imbalance, amount), parts),
        call_ensures(NegativeImbalance::merge, (imbalance, other), both),
        call_ensures(NegativeImbalance::offset, (imbalance, opposite), left),
        call_ensures(NegativeImbalance::peek, (&imbalance,), peeked),
    ensures
        made.amount == amount,
        none.amount == 0,
        given_up is Ok <==> imbalance.amount == 0,
        given_up matches Err(same) ==> same.amount == imbalance.amount,
        parts.0.amount <= amount,
        parts.0.amount == amount || parts.1.amount == 0,
        parts.0.amount + parts.1.amount == imbalance.amount,
        imbalance.amount + other.amount <= Balance::MAX ==> both.amount == imbalance.amount
            + other.amount,
        imbalance.amount + other.amount > Balance::MAX ==> both.amount == Balance::MAX,
        left is Ok <==> opposite.amount <= imbalance.amount,
        left matches Ok(rest) ==> rest.amount + opposite.amount == imbalance.amount,
        left matches Err(rest) ==> rest.amount + imbalance.amount == opposite.amount,
        peeked == imbalance.amount,
{
}

/// A negative imbalance takes up another.
pub proof fn law_negative_imbalance_grows(
    imbalance: &mut NegativeImbalance,
    other: NegativeImbalance,
)
    requires
        call_ensures(NegativeImbalance::subsume, (imbalance, other), ()),
    ensures
        old(imbalance).amount + other.amount <= Balance::MAX ==> final(imbalance).amount == old(
            imbalance
        ).amount + other.amount,
        old(imbalance).amount + other.amount > Balance::MAX ==> final(imbalance).amount
            == Balance::MAX,
{
}

/// Settling accounts for an imbalance in the total issuance.
pub proof fn law_settling_is_called<T: Config>(
    p: &mut Pallet<T>,
    currency_id: CurrencyId,
    imbalance: SignedImbalance,
)
    ensures
        call_requires(Pallet::<T>::settle, (p, currency_id, imbalance)),
        call_ensures(Pallet::<T>::settle, (p, currency_id, imbalance), ()) ==> final(p)@ == old(
            p
        )@.settled(currency_id, imbalance),
{
}

// One currency.
/// What is read of one currency is what is read of the ledger under it.
pub proof fn law_token_is_read<T: Config>(
    token: &CurrencyAdapter,
    p: &Pallet<T>,
    who: &AccountId,
    value: Balance,
    total: Balance,
    free: Balance,
    reserved: Balance,
    issued: Balance,
    minimum: Balance,
    can_slash: bool,
    can_reserve: bool,
    withdrawn: Result<(), Error>,
)
    requires
        call_ensures(CurrencyAdapter::total_balance::<T>, (token, p, who), total),
        call_ensures(CurrencyAdapter::free_balance::<T>, (token, p, who), free),
        call_ensures(CurrencyAdapter::reserved_balance::<T>, (token, p, who), reserved),
        call_ensures(CurrencyAdapter::total_issuance::<T>, (token, p), issued),
        call_ensures(CurrencyAdapter::minimum_balance::<T>, (token,), minimum),
        call_ensures(CurrencyAdapter::can_slash::<T>, (token, p, who, value), can_slash),
        call_ensures(CurrencyAdapter::can_reserve::<T>, (token, p, who, value), can_reserve),
        call_ensures(CurrencyAdapter::ensure_can_withdraw::<T>, (token, p, who, value), withdrawn),
    ensures
        ({
            let account = p@.account(*who, token.currency_id);
            &&& free == account.free
            &&& reserved == account.reserved
            &&& free + reserved <= Balance::MAX ==> total == free + reserved
            &&& free + reserved > Balance::MAX ==> total == Balance::MAX
            &&& issued == p@.total_issuance(token.currency_id)
            &&& minimum == T::spec_existential_deposit(token.currency_id)
            &&& can_slash <==> value <= account.free
            &&& can_reserve <==> value == 0 || value + account.frozen <= account.free
            &&& withdrawn is Ok <==> can_reserve
            &&& withdrawn is Err ==> withdrawn == Err::<(), Error>(
                if value > account.free {
                    Error::BalanceTooLow
                } else {
                    Error::LiquidityRestrictions
                },
            )
        }),
{
}

/// Burning hands out what it takes from the total issuance, which is all that
/// is asked for or all that there is. Issuing hands out what it adds, which is
/// all that is asked for or all that there is room for.
pub proof fn law_token_is_burnt_and_issued<T: Config>(
    token: &CurrencyAdapter,
    p: &mut Pallet<T>,
    q: &mut Pallet<T>,
    amount: Balance,
    burnt: PositiveImbalance,
    issued: NegativeImbalance,
)
    ensures
        call_requires(CurrencyAdapter::burn::<T>, (token, p, amount)),
        call_requires(CurrencyAdapter::issue::<T>, (token, q, amount)),
        call_ensures(CurrencyAdapter::burn::<T>, (token, p, amount), burnt) ==> {
            let there = old(p)@.total_issuance(token.currency_id);
            &&& burnt.amount <= amount
            &&& burnt.amount == amount || burnt.amount == there
            &&& final(p)@.total_issuance(token.currency_id) + burnt.amount == there
            &&& final(p)@ == old(p)@.issuance_burnt(token.currency_id, amount)
        },
        call_ensures(CurrencyAdapter::issue::<T>, (token, q, amount), issued) ==> {
            let there = old(q)@.total_issuance(token.currency_id);
            let then = final(q)@.total_issuance(token.currency_id);
            &&& issued.amount <= amount
            &&& issued.amount == amount || then == Balance::MAX
            &&& then == there + issued.amount
            &&& final(q)@ == old(q)@.issuance_issued(token.currency_id, amount)
        },
{
}

/// Adding to a free balance hands out what it adds, or fails, or hands out
/// nothing, if the sum is no balance.
pub proof fn law_token_is_deposited<T: Config>(
    token: &CurrencyAdapter,
    p: &mut Pallet<T>,
    q: &mut Pallet<T>,
    who: &AccountId,
    value: Balance,
    r: Result<PositiveImbalance, Error>,
    created: PositiveImbalance,
)
    ensures
        old(p)@.add_free_fits::<T>(token.currency_id, *who, value) ==> call_requires(
            CurrencyAdapter::deposit_into_existing::<T>,
            (token, p, who, value),
        ),
        old(q)@.add_free_fits::<T>(token.currency_id, *who, value) ==> call_requires(
            CurrencyAdapter::deposit_creating::<T>,
            (token, q, who, value),
        ),
        call_ensures(CurrencyAdapter::deposit_into_existing::<T>, (token, p, who, value), r) ==> {
            let free = old(p)@.account(*who, token.currency_id).free;
            &&& r is Ok <==> free + value <= Balance::MAX
            &&& r matches Ok(added) ==> added.amount == value
            &&& r matches Err(e) ==> e == Error::TotalIssuanceOverflow && final(p)@ == old(p)@
            &&& final(p)@ == old(p)@.free_added::<T>(token.currency_id, *who, value)
        },
        call_ensures(CurrencyAdapter::deposit_creating::<T>, (token, q, who, value), created) ==> {
            let free = old(q)@.account(*who, token.currency_id).free;
            &&& free + value <= Balance::MAX ==> created.amount == value
            &&& free + value > Balance::MAX ==> created.amount == 0 && final(q)@ == old(q)@
            &&& final(q)@ == old(q)@.free_added::<T>(token.currency_id, *who, value)
        },
{
}

/// Taking from a free balance hands out what it takes, or fails as a withdrawal
/// does. A slash hands out what it takes and hands back what it cannot take.
pub proof fn law_token_is_taken<T: Config>(
    token: &CurrencyAdapter,
    p: &mut Pallet<T>,
    q: &mut Pallet<T>,
    who: &AccountId,
    value: Balance,
    r: Result<NegativeImbalance, Error>,
    slashed: (NegativeImbalance, Balance),
)
    ensures
        old(p)@.take_free_fits::<T>(token.currency_id, *who, value) ==> call_requires(
            CurrencyAdapter::withdraw::<T>,
            (token, p, who, value),
        ),
        (value == 0 || old(q)@.slash_account_fits::<T>(token.currency_id, *who, value))
            ==> call_requires(CurrencyAdapter::slash::<T>, (token, q, who, value)),
        call_ensures(CurrencyAdapter::withdraw::<T>, (token, p, who, value), r) ==> {
            let account = old(p)@.account(*who, token.currency_id);
            &&& r is Ok <==> value == 0 || value + account.frozen <= account.free
            &&& r matches Ok(taken) ==> taken.amount == value
            &&& r matches Err(e) ==> final(p)@ == old(p)@ && e == (if value > account.free {
                Error::BalanceTooLow
            } else {
                Error::LiquidityRestrictions
            })
            &&& final(p)@ == old(p)@.free_taken::<T>(token.currency_id, *who, value)
        },
        call_ensures(CurrencyAdapter::slash::<T>, (token, q, who, value), slashed) ==> {
            let account = old(q)@.account(*who, token.currency_id);
            &&& slashed.0.amount + slashed.1 == value
            &&& value <= account.free + account.reserved ==> slashed.1 == 0
            &&& value > account.free + account.reserved ==> slashed.0.amount == account.free
                + account.reserved
            &&& value == 0 ==> final(q)@ == old(q)@
            &&& value != 0 ==> final(q)@ == old(q)@.slashed_account::<T>(
                token.currency_id,
                *who,
                value,
            )
        },
{
}

/// Setting a free balance hands out by how much it changes. It is not set where
/// no entry is stored and the existential deposit is not reached.
pub proof fn law_token_is_set<T: Config>(
    token: &CurrencyAdapter,
    p: &mut Pallet<T>,
    who: &AccountId,
    value: Balance,
    r: SignedImbalance,
)
    ensures
        old(p)@.make_free_fits::<T>(token.currency_id, *who, value) ==> call_requires(
            CurrencyAdapter::make_free_balance_be::<T>,
            (token, p, who, value),
        ),
        call_ensures(CurrencyAdapter::make_free_balance_be::<T>, (token, p, who, value), r) ==> {
            let account = old(p)@.account(*who, token.currency_id);
            let set = old(p)@.is_stored(*who, token.currency_id) || value + account.reserved
                >= T::spec_existential_deposit(token.currency_id);
            &&& !set ==> final(p)@ == old(p)@
            &&& final(p)@ == old(p)@.free_made::<T>(token.currency_id, *who, value)
            &&& match r {
                SignedImbalance::Positive(more) => if set {
                    account.free + more.amount == value
                } else {
                    more.amount == 0
                },
                SignedImbalance::Negative(less) => set && less.amount > 0 && value + less.amount
                    == account.free,
            }
        },
{
}

/// A transfer of one currency is one of the ledger under it.
pub proof fn law_token_is_transferred<T: Config>(
    token: &CurrencyAdapter,
    p: &mut Pallet<T>,
    source: &AccountId,
    dest: &AccountId,
    value: Balance,
    r: Result<(), Error>,
)
    ensures
        old(p)@.transfer_fits::<T>(token.currency_id, *source, *dest, value) ==> call_requires(
            CurrencyAdapter::transfer::<T>,
            (token, p, source, dest, value),
        ),
        call_ensures(CurrencyAdapter::transfer::<T>, (token, p, source, dest, value), r) ==> {
            let from = old(p)@.account(*source, token.currency_id);
            let to = old(p)@.account(*dest, token.currency_id);
            &&& r is Ok <==> value == 0 || *source == *dest || (value + from.frozen <= from.free
                && to.free + value <= Balance::MAX)
            &&& r == old(p)@.transfer_outcome(token.currency_id, *source, *dest, value)
            &&& final(p)@ == old(p)@.transferred::<T>(token.currency_id, *source, *dest, value)
        },
{
}

/// Reserving and unreserving one currency are those of the ledger under it.
pub proof fn law_token_is_reserved<T: Config>(
    token: &CurrencyAdapter,
    p: &mut Pallet<T>,
    q: &mut Pallet<T>,
    who: &AccountId,
    value: Balance,
    r: Result<(), Error>,
    left: Balance,
)
    ensures
        old(p)@.reserve_fits::<T>(token.currency_id, *who, value) ==> call_requires(
            CurrencyAdapter::reserve::<T>,
            (token, p, who, value),
        ),
        old(q)@.unreserve_fits::<T>(token.currency_id, *who, value) ==> call_requires(
            CurrencyAdapter::unreserve::<T>,
            (token, q, who, value),
        ),
        call_ensures(CurrencyAdapter::reserve::<T>, (token, p, who, value), r) ==> {
            let account = old(p)@.account(*who, token.currency_id);
            &&& r is Ok <==> value == 0 || value + account.frozen <= account.free
            &&& r == old(p)@.withdrawal(token.currency_id, *who, value)
            &&& final(p)@ == old(p)@.reserved::<T>(token.currency_id, *who, value)
        },
        call_ensures(CurrencyAdapter::unreserve::<T>, (token, q, who, value), left) ==> {
            let reserved = old(q)@.account(*who, token.currency_id).reserved;
            &&& value <= reserved ==> left == 0
            &&& value > reserved ==> left + reserved == value
            &&& final(q)@ == old(q)@.unreserved::<T>(token.currency_id, *who, value)
        },
{
}

/// Slashing and repatriating the reserve of one currency are those of the ledger
/// under it. A slash of the reserve hands out no imbalance.
pub proof fn law_token_reserve_is_taken<T: Config>(
    token: &CurrencyAdapter,
    p: &mut Pallet<T>,
    q: &mut Pallet<T>,
    who: &AccountId,
    beneficiary: &AccountId,
    value: Balance,
    status: BalanceStatus,
    slashed: (NegativeImbalance, Balance),
    moved: Result<Balance, Error>,
)
    ensures
        old(p)@.slash_reserved_fits::<T>(token.currency_id, *who, value) ==> call_requires(
            CurrencyAdapter::slash_reserved::<T>,
            (token, p, who, value),
        ),
        old(q)@.repatriate_fits::<T>(token.currency_id, *who, *beneficiary, value, status)
            ==> call_requires(
            CurrencyAdapter::repatriate_reserved::<T>,
            (token, q, who, beneficiary, value, status),
        ),
        call_ensures(CurrencyAdapter::slash_reserved::<T>, (token, p, who, value), slashed) ==> {
            let reserved = old(p)@.account(*who, token.currency_id).reserved;
            &&& slashed.0.amount == 0
            &&& value <= reserved ==> slashed.1 == 0
            &&& value > reserved ==> slashed.1 + reserved == value
            &&& final(p)@ == old(p)@.reserve_slashed::<T>(token.currency_id, *who, value)
        },
        call_ensures(
            CurrencyAdapter::repatriate_reserved::<T>,
            (token, q, who, beneficiary, value, status),
            moved,
        ) ==> {
            let reserved = old(q)@.account(*who, token.currency_id).reserved;
            &&& moved is Ok
            &&& value <= reserved ==> moved->Ok_0 == 0
            &&& value > reserved ==> moved->Ok_0 + reserved == value
            &&& final(q)@ == old(q)@.repatriated::<T>(
                token.currency_id,
                *who,
                *beneficiary,
                value,
                status,
            )
        },
{
}

/// Locking one currency is locking the ledger under it.
pub proof fn law_token_is_locked<T: Config>(
    token: &CurrencyAdapter,
    p: &mut Pallet<T>,
    q: &mut Pallet<T>,
    s: &mut Pallet<T>,
    id: LockIdentifier,
    who: &AccountId,
    amount: Balance,
)
    ensures
        ({
            let locks = locks_with(old(p)@.locks_of(*who, token.currency_id), id, amount);
            &&& (amount == 0 || old(p)@.update_locks_fits::<T>(token.currency_id, *who, locks))
                ==> call_requires(CurrencyAdapter::set_lock::<T>, (token, p, id, who, amount))
            &&& call_ensures(CurrencyAdapter::set_lock::<T>, (token, p, id, who, amount), ()) ==> {
                &&& amount == 0 ==> final(p)@ == old(p)@
                &&& amount != 0 ==> final(p)@ == old(p)@.update_locks::<T>(
                    token.currency_id,
                    *who,
                    locks,
                )
            }
        }),
        ({
            let locks = locks_extended(old(q)@.locks_of(*who, token.currency_id), id, amount);
            &&& (amount == 0 || old(q)@.update_locks_fits::<T>(token.currency_id, *who, locks))
                ==> call_requires(CurrencyAdapter::extend_lock::<T>, (token, q, id, who, amount))
            &&& call_ensures(CurrencyAdapter::extend_lock::<T>, (token, q, id, who, amount), ())
                ==> {
                &&& amount == 0 ==> final(q)@ == old(q)@
                &&& amount != 0 ==> final(q)@ == old(q)@.update_locks::<T>(
                    token.currency_id,
                    *who,
                    locks,
                )
            }
        }),
        ({
            let locks = locks_without(old(s)@.locks_of(*who, token.currency_id), id);
            &&& old(s)@.update_locks_fits::<T>(token.currency_id, *who, locks) ==> call_requires(
                CurrencyAdapter::remove_lock::<T>,
                (token, s, id, who),
            )
            &&& call_ensures(CurrencyAdapter::remove_lock::<T>, (token, s, id, who), ()) ==> final(
                s
            )@ == old(s)@.update_locks::<T>(token.currency_id, *who, locks)
        }),
{
}

} // verus!
