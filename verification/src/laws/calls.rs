//! What a call of each operation returns and which ledger it leaves behind.
use crate::account::AccountId;
use crate::config::Config;
use crate::currency::magnitude;
use crate::dispatch::{ensure_signed, DispatchError, LookupError, Origin};
use crate::dust::{BurnDust, TransferDust};
use crate::genesis::{GenesisConfig, GenesisError};
use crate::laws::quotes::law_target_supply;
use crate::lockable::{locks_extended, locks_with, locks_without};
use crate::pallet::Pallet;
use crate::state::State;
use crate::storage::AccountKey;
use crate::types::{
    AccountData, Amount, Balance, BalanceLock, BalanceStatus, BlockNumber, CurrencyId, Effect,
    Error, Event, LockIdentifier,
};
use vstd::prelude::*;

verus! {

// Reading.
/// An entry is read as it is stored, and is empty where none is.
pub proof fn law_entry_is_read<T: Config>(
    p: &Pallet<T>,
    who: &AccountId,
    currency_id: CurrencyId,
    stored: Option<AccountData>,
    account: AccountData,
    locks: Vec<BalanceLock>,
)
    requires
        call_ensures(Pallet::<T>::stored_account, (p, who, currency_id), stored),
        call_ensures(Pallet::<T>::accounts, (p, who, currency_id), account),
        call_ensures(Pallet::<T>::locks, (p, who, currency_id), locks),
    ensures
        ({
            let k = AccountKey { who: *who, currency_id };
            &&& stored is Some <==> p@.accounts.contains_key(k)
            &&& stored is Some ==> stored->0 == p@.accounts[k] && account == stored->0
            &&& stored is None ==> account.free == 0 && account.reserved == 0 && account.frozen == 0
            &&& p@.locks.contains_key(k) ==> locks@ == p@.locks[k]
            &&& !p@.locks.contains_key(k) ==> locks@.len() == 0
        }),
{
}

/// The balances of an account are those in its entry, the total both together
/// or the largest balance, and the total issuance is what was written last.
pub proof fn law_balances_are_read<T: Config>(
    p: &Pallet<T>,
    currency_id: CurrencyId,
    who: &AccountId,
    free: Balance,
    reserved: Balance,
    total: Balance,
    issued: Balance,
)
    requires
        call_ensures(Pallet::<T>::free_balance, (p, currency_id, who), free),
        call_ensures(Pallet::<T>::reserved_balance, (p, currency_id, who), reserved),
        call_ensures(Pallet::<T>::total_balance, (p, currency_id, who), total),
        call_ensures(Pallet::<T>::total_issuance, (p, currency_id), issued),
    ensures
        free == p@.account(*who, currency_id).free,
        reserved == p@.account(*who, currency_id).reserved,
        free + reserved <= Balance::MAX ==> total == free + reserved,
        free + reserved > Balance::MAX ==> total == Balance::MAX,
        p@.issuance.contains_key(currency_id) ==> issued == p@.issuance[currency_id],
        !p@.issuance.contains_key(currency_id) ==> issued == 0,
{
}

/// The parameters that a ledger tells are those of the runtime.
pub proof fn law_parameters_are_read<T: Config>(
    currency_id: CurrencyId,
    base_unit: Balance,
    minimum: Balance,
)
    requires
        call_ensures(Pallet::<T>::base_unit, (currency_id,), base_unit),
        call_ensures(Pallet::<T>::minimum_balance, (currency_id,), minimum),
    ensures
        base_unit == T::spec_base_unit(currency_id),
        minimum == T::spec_existential_deposit(currency_id),
{
}

/// What can be withdrawn, and so reserved, leaves no less free than is frozen.
/// What can be slashed is no more than is free.
pub proof fn law_what_can_be_taken<T: Config>(
    p: &Pallet<T>,
    currency_id: CurrencyId,
    who: &AccountId,
    amount: Balance,
    withdrawn: Result<(), Error>,
    reserved: bool,
    slashed: bool,
)
    requires
        call_ensures(Pallet::<T>::ensure_can_withdraw, (p, currency_id, who, amount), withdrawn),
        call_ensures(Pallet::<T>::can_reserve, (p, currency_id, who, amount), reserved),
        call_ensures(Pallet::<T>::can_slash, (p, currency_id, who, amount), slashed),
    ensures
        ({
            let account = p@.account(*who, currency_id);
            &&& withdrawn is Ok <==> amount == 0 || amount + account.frozen <= account.free
            &&& withdrawn is Err ==> withdrawn == Err::<(), Error>(
                if amount > account.free {
                    Error::BalanceTooLow
                } else {
                    Error::LiquidityRestrictions
                },
            )
            &&& reserved <==> withdrawn is Ok
            &&& slashed <==> amount <= account.free
        }),
{
}

/// The currencies of an account are those under which an entry is stored for
/// it, each once.
pub proof fn law_currencies_are_read<T: Config>(
    p: &Pallet<T>,
    who: &AccountId,
    currencies: Vec<CurrencyId>,
)
    requires
        call_ensures(Pallet::<T>::currencies_of, (p, who), currencies),
    ensures
        forall|c: CurrencyId| #[trigger]
            currencies@.contains(c) <==> p@.accounts.contains_key(
                AccountKey { who: *who, currency_id: c },
            ),
        currencies@.no_duplicates(),
{
    assert forall|c: CurrencyId| #[trigger]
        currencies@.contains(c) <==> p@.accounts.contains_key(
            AccountKey { who: *who, currency_id: c },
        ) by {
        assert(currencies@.contains(c) <==> p@.is_stored(*who, c));
    }
}

// Handing over.
/// A ledger starts with nothing in it, and a duplicate of one is the same.
pub proof fn law_new_ledger<T: Config>(new: Pallet<T>, p: &Pallet<T>, copy: Pallet<T>)
    requires
        call_ensures(Pallet::<T>::new, (), new),
        call_ensures(Pallet::<T>::duplicate, (p,), copy),
    ensures
        new@.accounts == Map::<AccountKey, AccountData>::empty(),
        new@.issuance == Map::<CurrencyId, Balance>::empty(),
        new@.locks == Map::<AccountKey, Seq<BalanceLock>>::empty(),
        new@.effects == Seq::<Effect>::empty(),
        copy@ == p@,
{
}

/// What is taken over is stored under its key, and nothing else changes, nor is
/// the system told.
pub proof fn law_loading<T: Config>(
    p: &mut Pallet<T>,
    q: &mut Pallet<T>,
    s: &mut Pallet<T>,
    who: &AccountId,
    currency_id: CurrencyId,
    account: AccountData,
    amount: Balance,
    locks: Vec<BalanceLock>,
)
    requires
        call_ensures(Pallet::<T>::load_account, (p, who, currency_id, account), ()),
        call_ensures(Pallet::<T>::load_issuance, (q, currency_id, amount), ()),
        call_ensures(Pallet::<T>::load_locks, (s, who, currency_id, locks), ()),
    ensures
        ({
            let k = AccountKey { who: *who, currency_id };
            &&& final(p)@ == (State { accounts: old(p)@.accounts.insert(k, account), ..old(p)@ })
            &&& final(q)@ == (State {
                issuance: old(q)@.issuance.insert(currency_id, amount),
                ..old(q)@
            })
            &&& final(s)@ == (State { locks: old(s)@.locks.insert(k, locks@), ..old(s)@ })
        }),
{
}

/// The work for the system is handed over once.
pub proof fn law_effects_are_taken<T: Config>(p: &mut Pallet<T>, effects: Vec<Effect>)
    requires
        call_ensures(Pallet::<T>::take_effects, (p,), effects),
    ensures
        effects@ == old(p)@.effects,
        final(p)@.effects.len() == 0,
        final(p)@.accounts == old(p)@.accounts,
        final(p)@.issuance == old(p)@.issuance,
        final(p)@.locks == old(p)@.locks,
{
}

// Moving, issuing and taking back.
/// A transfer can be called wherever it fits, succeeds exactly if the amount can
/// be withdrawn from the sender and added to the recipient, and does nothing if
/// it fails, or is of nothing, or to oneself.
pub proof fn law_transfer_is_called<T: Config>(
    p: &mut Pallet<T>,
    currency_id: CurrencyId,
    from: &AccountId,
    to: &AccountId,
    amount: Balance,
    r: Result<(), Error>,
)
    ensures
        old(p)@.transfer_fits::<T>(currency_id, *from, *to, amount) ==> call_requires(
            Pallet::<T>::currency_transfer,
            (p, currency_id, from, to, amount),
        ),
        call_ensures(Pallet::<T>::currency_transfer, (p, currency_id, from, to, amount), r) ==> {
            let source = old(p)@.account(*from, currency_id);
            let target = old(p)@.account(*to, currency_id);
            let idle = amount == 0 || *from == *to;
            &&& r is Ok <==> idle || (amount + source.frozen <= source.free && target.free + amount
                <= Balance::MAX)
            &&& r is Err ==> r == Err::<(), Error>(
                if amount > source.free {
                    Error::BalanceTooLow
                } else if amount + source.frozen > source.free {
                    Error::LiquidityRestrictions
                } else {
                    Error::BalanceOverflow
                },
            )
            &&& r is Err || idle ==> final(p)@ == old(p)@
            &&& final(p)@ == old(p)@.transferred::<T>(currency_id, *from, *to, amount)
        },
{
}

/// A deposit succeeds exactly if the total issuance can take it, and does
/// nothing if it fails or is of nothing.
pub proof fn law_deposit_is_called<T: Config>(
    p: &mut Pallet<T>,
    currency_id: CurrencyId,
    who: &AccountId,
    amount: Balance,
    r: Result<(), Error>,
)
    ensures
        old(p)@.deposit_fits::<T>(currency_id, *who, amount) ==> call_requires(
            Pallet::<T>::deposit,
            (p, currency_id, who, amount),
        ),
        call_ensures(Pallet::<T>::deposit, (p, currency_id, who, amount), r) ==> {
            &&& r == (if old(p)@.total_issuance(currency_id) + amount <= Balance::MAX {
                Ok(())
            } else {
                Err::<(), Error>(Error::TotalIssuanceOverflow)
            })
            &&& r is Err || amount == 0 ==> final(p)@ == old(p)@
            &&& final(p)@ == old(p)@.deposited::<T>(currency_id, *who, amount)
        },
{
}

/// A withdrawal succeeds exactly if it leaves no less free than is frozen, and
/// does nothing if it fails or is of nothing.
pub proof fn law_withdrawal_is_called<T: Config>(
    p: &mut Pallet<T>,
    currency_id: CurrencyId,
    who: &AccountId,
    amount: Balance,
    r: Result<(), Error>,
)
    ensures
        old(p)@.withdraw_fits::<T>(currency_id, *who, amount) ==> call_requires(
            Pallet::<T>::withdraw,
            (p, currency_id, who, amount),
        ),
        call_ensures(Pallet::<T>::withdraw, (p, currency_id, who, amount), r) ==> {
            let account = old(p)@.account(*who, currency_id);
            &&& r is Ok <==> amount == 0 || amount + account.frozen <= account.free
            &&& r is Err ==> r == Err::<(), Error>(
                if amount > account.free {
                    Error::BalanceTooLow
                } else {
                    Error::LiquidityRestrictions
                },
            )
            &&& r is Err || amount == 0 ==> final(p)@ == old(p)@
            &&& final(p)@ == old(p)@.withdrawn::<T>(currency_id, *who, amount)
        },
{
}

/// A signed change does what a deposit or a withdrawal of as much does.
pub proof fn law_update_balance_is_called<T: Config>(
    p: &mut Pallet<T>,
    currency_id: CurrencyId,
    who: &AccountId,
    by_amount: Amount,
    r: Result<(), Error>,
)
    ensures
        ({
            &&& by_amount > 0 ==> old(p)@.deposit_fits::<T>(currency_id, *who, magnitude(by_amount))
            &&& by_amount < 0 ==> old(p)@.withdraw_fits::<T>(
                currency_id,
                *who,
                magnitude(by_amount),
            )
        }) ==> call_requires(Pallet::<T>::update_balance, (p, currency_id, who, by_amount)),
        call_ensures(Pallet::<T>::update_balance, (p, currency_id, who, by_amount), r) ==> {
            let much = magnitude(by_amount);
            &&& by_amount == 0 ==> r is Ok && final(p)@ == old(p)@
            &&& by_amount > 0 ==> r == old(p)@.deposit_outcome(currency_id, much) && final(p)@
                == old(p)@.deposited::<T>(currency_id, *who, much)
            &&& by_amount < 0 ==> r == old(p)@.withdrawal(currency_id, *who, much) && final(p)@
                == old(p)@.withdrawn::<T>(currency_id, *who, much)
        },
{
}

/// A slash hands back what the account was short of, free and reserved together.
pub proof fn law_slash_is_called<T: Config>(
    p: &mut Pallet<T>,
    currency_id: CurrencyId,
    who: &AccountId,
    amount: Balance,
    r: Balance,
)
    ensures
        old(p)@.slash_fits::<T>(currency_id, *who, amount) ==> call_requires(
            Pallet::<T>::slash,
            (p, currency_id, who, amount),
        ),
        call_ensures(Pallet::<T>::slash, (p, currency_id, who, amount), r) ==> {
            let account = old(p)@.account(*who, currency_id);
            &&& amount <= account.free + account.reserved ==> r == 0
            &&& amount > account.free + account.reserved ==> r + account.free + account.reserved
                == amount
            &&& amount == 0 ==> final(p)@ == old(p)@
            &&& final(p)@ == old(p)@.slashed::<T>(currency_id, *who, amount)
        },
{
}

// Reserving.
/// Reserving succeeds exactly if as much can be withdrawn, and does nothing if
/// it fails or is of nothing.
pub proof fn law_reserve_is_called<T: Config>(
    p: &mut Pallet<T>,
    currency_id: CurrencyId,
    who: &AccountId,
    value: Balance,
    r: Result<(), Error>,
)
    ensures
        old(p)@.reserve_fits::<T>(currency_id, *who, value) ==> call_requires(
            Pallet::<T>::reserve,
            (p, currency_id, who, value),
        ),
        call_ensures(Pallet::<T>::reserve, (p, currency_id, who, value), r) ==> {
            let account = old(p)@.account(*who, currency_id);
            &&& r is Ok <==> value == 0 || value + account.frozen <= account.free
            &&& r is Err ==> r == Err::<(), Error>(
                if value > account.free {
                    Error::BalanceTooLow
                } else {
                    Error::LiquidityRestrictions
                },
            )
            &&& r is Err || value == 0 ==> final(p)@ == old(p)@
            &&& final(p)@ == old(p)@.reserved::<T>(currency_id, *who, value)
        },
{
}

/// Unreserving and slashing a reserve hand back what was not in reserve.
pub proof fn law_reserve_is_taken<T: Config>(
    p: &mut Pallet<T>,
    q: &mut Pallet<T>,
    currency_id: CurrencyId,
    who: &AccountId,
    value: Balance,
    r: Balance,
)
    ensures
        old(p)@.unreserve_fits::<T>(currency_id, *who, value) ==> call_requires(
            Pallet::<T>::unreserve,
            (p, currency_id, who, value),
        ),
        old(q)@.slash_reserved_fits::<T>(currency_id, *who, value) ==> call_requires(
            Pallet::<T>::slash_reserved,
            (q, currency_id, who, value),
        ),
        call_ensures(Pallet::<T>::unreserve, (p, currency_id, who, value), r) ==> {
            let reserved = old(p)@.account(*who, currency_id).reserved;
            &&& value <= reserved ==> r == 0
            &&& value > reserved ==> r + reserved == value
            &&& final(p)@ == old(p)@.unreserved::<T>(currency_id, *who, value)
        },
        call_ensures(Pallet::<T>::slash_reserved, (q, currency_id, who, value), r) ==> {
            let reserved = old(q)@.account(*who, currency_id).reserved;
            &&& value <= reserved ==> r == 0
            &&& value > reserved ==> r + reserved == value
            &&& final(q)@ == old(q)@.reserve_slashed::<T>(currency_id, *who, value)
        },
{
}

/// A repatriation always succeeds, and hands back what was not in reserve.
pub proof fn law_repatriation_is_called<T: Config>(
    p: &mut Pallet<T>,
    currency_id: CurrencyId,
    slashed: &AccountId,
    beneficiary: &AccountId,
    value: Balance,
    status: BalanceStatus,
    r: Result<Balance, Error>,
)
    ensures
        old(p)@.repatriate_fits::<T>(currency_id, *slashed, *beneficiary, value, status)
            ==> call_requires(
            Pallet::<T>::repatriate_reserved,
            (p, currency_id, slashed, beneficiary, value, status),
        ),
        call_ensures(
            Pallet::<T>::repatriate_reserved,
            (p, currency_id, slashed, beneficiary, value, status),
            r,
        ) ==> {
            let reserved = old(p)@.account(*slashed, currency_id).reserved;
            &&& r is Ok
            &&& value <= reserved ==> r->Ok_0 == 0
            &&& value > reserved ==> r->Ok_0 + reserved == value
            &&& final(p)@ == old(p)@.repatriated::<T>(
                currency_id,
                *slashed,
                *beneficiary,
                value,
                status,
            )
        },
{
}

// Locking.
/// Setting and extending a lock always succeed, and do nothing if the amount is
/// zero.
pub proof fn law_locking_is_called<T: Config>(
    p: &mut Pallet<T>,
    q: &mut Pallet<T>,
    id: LockIdentifier,
    currency_id: CurrencyId,
    who: &AccountId,
    amount: Balance,
    r: Result<(), Error>,
)
    ensures
        ({
            let locks = locks_with(old(p)@.locks_of(*who, currency_id), id, amount);
            &&& (amount == 0 || old(p)@.update_locks_fits::<T>(currency_id, *who, locks))
                ==> call_requires(Pallet::<T>::set_lock, (p, id, currency_id, who, amount))
            &&& call_ensures(Pallet::<T>::set_lock, (p, id, currency_id, who, amount), r) ==> {
                &&& r is Ok
                &&& amount == 0 ==> final(p)@ == old(p)@
                &&& amount != 0 ==> final(p)@ == old(p)@.update_locks::<T>(currency_id, *who, locks)
            }
        }),
        ({
            let locks = locks_extended(old(q)@.locks_of(*who, currency_id), id, amount);
            &&& (amount == 0 || old(q)@.update_locks_fits::<T>(currency_id, *who, locks))
                ==> call_requires(Pallet::<T>::extend_lock, (q, id, currency_id, who, amount))
            &&& call_ensures(Pallet::<T>::extend_lock, (q, id, currency_id, who, amount), r) ==> {
                &&& r is Ok
                &&& amount == 0 ==> final(q)@ == old(q)@
                &&& amount != 0 ==> final(q)@ == old(q)@.update_locks::<T>(currency_id, *who, locks)
            }
        }),
{
}

/// Removing a lock always succeeds.
pub proof fn law_unlocking_is_called<T: Config>(
    p: &mut Pallet<T>,
    id: LockIdentifier,
    currency_id: CurrencyId,
    who: &AccountId,
    r: Result<(), Error>,
)
    ensures
        ({
            let locks = locks_without(old(p)@.locks_of(*who, currency_id), id);
            &&& old(p)@.update_locks_fits::<T>(currency_id, *who, locks) ==> call_requires(
                Pallet::<T>::remove_lock,
                (p, id, currency_id, who),
            )
            &&& call_ensures(Pallet::<T>::remove_lock, (p, id, currency_id, who), r) ==> r is Ok
                && final(p)@ == old(p)@.update_locks::<T>(currency_id, *who, locks)
        }),
{
}

// The elastic supply.
/// The change that a price asks for leads from the supply to how many times the
/// base unit goes into what the supply is worth at that price.
pub proof fn law_supply_change_is_called<T: Config>(
    p: &Pallet<T>,
    currency_id: CurrencyId,
    new_price: Balance,
    r: Balance,
    target: int,
)
    requires
        call_ensures(Pallet::<T>::supply_change, (p, currency_id, new_price), r),
        T::spec_base_unit(currency_id) != 0,
        target * T::spec_base_unit(currency_id) <= new_price * p@.total_issuance(currency_id) < (
        target + 1) * T::spec_base_unit(currency_id),
    ensures
        new_price * p@.total_issuance(currency_id) <= Balance::MAX ==> call_requires(
            Pallet::<T>::supply_change,
            (p, currency_id, new_price),
        ),
        target >= p@.total_issuance(currency_id) ==> p@.total_issuance(currency_id) + r == target,
        target <= p@.total_issuance(currency_id) ==> target + r == p@.total_issuance(currency_id),
{
    law_target_supply(
        p@.total_issuance(currency_id) as int,
        new_price as int,
        T::spec_base_unit(currency_id) as int,
        target,
    );
}

/// Expanding and contracting always succeed.
pub proof fn law_supply_is_changed<T: Config>(
    p: &mut Pallet<T>,
    q: &mut Pallet<T>,
    native_currency_id: CurrencyId,
    stable_currency_id: CurrencyId,
    by: Balance,
    quote_price: Balance,
    r: Result<(), Error>,
)
    ensures
        old(p)@.expand_fits::<T>(native_currency_id, stable_currency_id, by, quote_price)
            ==> call_requires(
            Pallet::<T>::expand_supply,
            (p, native_currency_id, stable_currency_id, by, quote_price),
        ),
        old(q)@.contract_fits::<T>(native_currency_id, stable_currency_id, by, quote_price)
            ==> call_requires(
            Pallet::<T>::contract_supply,
            (q, native_currency_id, stable_currency_id, by, quote_price),
        ),
        call_ensures(
            Pallet::<T>::expand_supply,
            (p, native_currency_id, stable_currency_id, by, quote_price),
            r,
        ) ==> r is Ok && final(p)@ == old(p)@.expanded::<T>(
            native_currency_id,
            stable_currency_id,
            by,
            quote_price,
        ),
        call_ensures(
            Pallet::<T>::contract_supply,
            (q, native_currency_id, stable_currency_id, by, quote_price),
            r,
        ) ==> r is Ok && final(q)@ == old(q)@.contracted::<T>(
            native_currency_id,
            stable_currency_id,
            by,
            quote_price,
        ),
{
}

/// An adjustment always succeeds. With a block it takes place exactly if the
/// frequency of adjustments adds nothing to the number of the block.
pub proof fn law_adjustment_is_called<T: Config>(
    p: &mut Pallet<T>,
    q: &mut Pallet<T>,
    now: BlockNumber,
    stable_currency_id: CurrencyId,
    stable_currency_price: Balance,
    native_currency_id: CurrencyId,
    native_currency_price: Balance,
    r: Result<(), Error>,
)
    ensures
        old(p)@.adjust_fits::<T>(
            stable_currency_id,
            stable_currency_price,
            native_currency_id,
            native_currency_price,
        ) ==> call_requires(
            Pallet::<T>::serp_elast,
            (
                p,
                stable_currency_id,
                stable_currency_price,
                native_currency_id,
                native_currency_price,
            ),
        ),
        call_ensures(
            Pallet::<T>::serp_elast,
            (
                p,
                stable_currency_id,
                stable_currency_price,
                native_currency_id,
                native_currency_price,
            ),
            r,
        ) ==> r is Ok && final(p)@ == old(p)@.adjusted::<T>(
            stable_currency_id,
            stable_currency_price,
            native_currency_id,
            native_currency_price,
        ),
        ({
            &&& now + T::spec_adjustment_frequency() <= BlockNumber::MAX
            &&& now + T::spec_adjustment_frequency() == now ==> old(q)@.adjust_fits::<T>(
                stable_currency_id,
                stable_currency_price,
                native_currency_id,
                native_currency_price,
            )
        }) ==> call_requires(
            Pallet::<T>::on_serp_block,
            (
                q,
                now,
                stable_currency_id,
                stable_currency_price,
                native_currency_id,
                native_currency_price,
            ),
        ),
        call_ensures(
            Pallet::<T>::on_serp_block,
            (
                q,
                now,
                stable_currency_id,
                stable_currency_price,
                native_currency_id,
                native_currency_price,
            ),
            r,
        ) ==> {
            &&& r is Ok
            &&& now + T::spec_adjustment_frequency() == now ==> final(q)@ == old(q)@.adjusted::<T>(
                stable_currency_id,
                stable_currency_price,
                native_currency_id,
                native_currency_price,
            )
            &&& now + T::spec_adjustment_frequency() != now ==> final(q)@ == old(q)@
        },
{
}

// Calls of a user.
/// Only a signature tells who makes a call.
pub proof fn law_signature_is_needed(origin: Origin, r: Result<AccountId, DispatchError>)
    requires
        call_ensures(ensure_signed, (origin,), r),
    ensures
        r matches Ok(who) ==> origin == Origin::Signed(who),
        r is Err <==> !(origin is Signed),
        r is Err ==> r == Err::<AccountId, DispatchError>(DispatchError::BadOrigin),
{
}

/// A call that transfers moves the amount, or all that is free, from the account
/// that signed it to the one that the address leads to, and announces it. If it
/// is not signed, or leads nowhere, or the transfer fails, it says so and does
/// nothing.
pub proof fn law_user_transfers<T: Config>(
    p: &mut Pallet<T>,
    q: &mut Pallet<T>,
    origin: Origin,
    dest: Result<AccountId, LookupError>,
    currency_id: CurrencyId,
    amount: Balance,
    r: Result<(), DispatchError>,
)
    ensures
        call_ensures(Pallet::<T>::transfer, (p, origin, dest, currency_id, amount), r) ==> {
            &&& !(origin is Signed) ==> r == Err::<(), DispatchError>(DispatchError::BadOrigin)
            &&& origin is Signed && dest is Err ==> r == Err::<(), DispatchError>(
                DispatchError::CannotLookup,
            )
            &&& r is Err ==> final(p)@ == old(p)@
            &&& origin is Signed && dest is Ok ==> {
                let (from, to) = (origin->Signed_0, dest->Ok_0);
                let source = old(p)@.account(from, currency_id);
                let target = old(p)@.account(to, currency_id);
                &&& r is Ok <==> amount == 0 || from == to || (amount + source.frozen <= source.free
                    && target.free + amount <= Balance::MAX)
                &&& r is Err ==> r == Err::<(), DispatchError>(
                    DispatchError::Module(
                        if amount > source.free {
                            Error::BalanceTooLow
                        } else if amount + source.frozen > source.free {
                            Error::LiquidityRestrictions
                        } else {
                            Error::BalanceOverflow
                        },
                    ),
                )
                &&& r is Ok ==> {
                    let t = old(p)@.transferred::<T>(currency_id, from, to, amount);
                    final(p)@ == (State {
                        effects: t.effects.push(
                            Effect::Deposit(Event::Transferred(currency_id, from, to, amount)),
                        ),
                        ..t
                    })
                }
            }
        },
        call_ensures(Pallet::<T>::transfer_all, (q, origin, dest, currency_id), r) ==> {
            &&& !(origin is Signed) ==> r == Err::<(), DispatchError>(DispatchError::BadOrigin)
            &&& origin is Signed && dest is Err ==> r == Err::<(), DispatchError>(
                DispatchError::CannotLookup,
            )
            &&& r is Err ==> final(q)@ == old(q)@
            &&& origin is Signed && dest is Ok ==> {
                let (from, to) = (origin->Signed_0, dest->Ok_0);
                let source = old(q)@.account(from, currency_id);
                let target = old(q)@.account(to, currency_id);
                &&& r is Ok <==> source.free == 0 || from == to || (source.frozen == 0
                    && target.free + source.free <= Balance::MAX)
                &&& r is Err ==> r == Err::<(), DispatchError>(
                    DispatchError::Module(
                        if source.frozen != 0 {
                            Error::LiquidityRestrictions
                        } else {
                            Error::BalanceOverflow
                        },
                    ),
                )
                &&& r is Ok ==> {
                    let t = old(q)@.transferred::<T>(currency_id, from, to, source.free);
                    final(q)@ == (State {
                        effects: t.effects.push(
                            Effect::Deposit(
                                Event::Transferred(currency_id, from, to, source.free),
                            ),
                        ),
                        ..t
                    })
                }
            }
        },
{
}

/// A call that transfers may be made wherever it does not come to a transfer
/// that does not fit.
pub proof fn law_user_may_transfer<T: Config>(
    p: &mut Pallet<T>,
    q: &mut Pallet<T>,
    origin: Origin,
    dest: Result<AccountId, LookupError>,
    currency_id: CurrencyId,
    amount: Balance,
)
    ensures
        (origin is Signed && dest is Ok ==> old(p)@.transfer_fits::<T>(
            currency_id,
            origin->Signed_0,
            dest->Ok_0,
            amount,
        )) ==> call_requires(Pallet::<T>::transfer, (p, origin, dest, currency_id, amount)),
        (origin is Signed && dest is Ok ==> old(q)@.transfer_fits::<T>(
            currency_id,
            origin->Signed_0,
            dest->Ok_0,
            old(q)@.account(origin->Signed_0, currency_id).free,
        )) ==> call_requires(Pallet::<T>::transfer_all, (q, origin, dest, currency_id)),
{
}

// Merging, dust and the start.
/// A merge in an order does what it says, and one in no order does it in some
/// order of the currencies of the account.
pub proof fn law_merge_is_called<T: Config>(
    p: &mut Pallet<T>,
    q: &mut Pallet<T>,
    source: &AccountId,
    dest: &AccountId,
    walk: &Vec<CurrencyId>,
    r: Result<(), Error>,
)
    ensures
        old(p)@.merge_fits::<T>(*source, *dest, walk@) ==> call_requires(
            Pallet::<T>::merge_account_in_order,
            (p, source, dest, walk),
        ),
        call_ensures(Pallet::<T>::merge_account_in_order, (p, source, dest, walk), r) ==> {
            &&& r == old(p)@.merge_outcome::<T>(*source, *dest, walk@)
            &&& r is Err ==> final(p)@ == old(p)@
            &&& final(p)@ == old(p)@.merged::<T>(*source, *dest, walk@)
        },
        (forall|w: Seq<CurrencyId>| #[trigger]
            old(q)@.walks(*source, w) ==> old(q)@.merge_fits::<T>(*source, *dest, w))
            ==> call_requires(Pallet::<T>::merge_account, (q, source, dest)),
        call_ensures(Pallet::<T>::merge_account, (q, source, dest), r) ==> {
            &&& r is Err ==> final(q)@ == old(q)@
            &&& exists|w: Seq<CurrencyId>| #[trigger]
                old(q)@.walks(*source, w) && r == old(q)@.merge_outcome::<T>(*source, *dest, w)
                    && final(q)@ == old(q)@.merged::<T>(*source, *dest, w)
        },
{
}

/// Handling dust moves or burns the amount.
pub proof fn law_dust_is_handled<T: Config>(
    p: &mut Pallet<T>,
    q: &mut Pallet<T>,
    transfers: &TransferDust,
    burns: &BurnDust,
    who: &AccountId,
    currency_id: CurrencyId,
    amount: Balance,
)
    ensures
        old(p)@.transfer_fits::<T>(currency_id, *who, transfers.receiver, amount) ==> call_requires(
            TransferDust::on_dust::<T>,
            (transfers, p, who, currency_id, amount),
        ),
        old(q)@.withdraw_fits::<T>(currency_id, *who, amount) ==> call_requires(
            BurnDust::on_dust::<T>,
            (burns, q, who, currency_id, amount),
        ),
        call_ensures(TransferDust::on_dust::<T>, (transfers, p, who, currency_id, amount), ())
            ==> final(p)@ == old(p)@.transferred::<T>(
            currency_id,
            *who,
            transfers.receiver,
            amount,
        ),
        call_ensures(BurnDust::on_dust::<T>, (burns, q, who, currency_id, amount), ()) ==> final(q)@
            == old(q)@.withdrawn::<T>(currency_id, *who, amount),
{
}

/// What a ledger can start with, it starts with.
pub proof fn law_start_is_called<T: Config>(
    config: &GenesisConfig,
    p: &Pallet<T>,
    q: &mut Pallet<T>,
    r: Result<(), GenesisError>,
)
    ensures
        call_requires(GenesisConfig::validate::<T>, (config, p)),
        call_ensures(GenesisConfig::validate::<T>, (config, p), r) ==> r == p@.genesis_outcome::<T>(
            config.endowed_accounts@,
        ),
        (old(q)@.genesis_outcome::<T>(
            config.endowed_accounts@,
        ) is Ok) ==> call_requires(GenesisConfig::build::<T>, (config, q)),
        call_ensures(GenesisConfig::build::<T>, (config, q), ()) ==> final(q)@ == old(q)@.endowed::<
            T,
        >(config.endowed_accounts@),
{
}

} // verus!
