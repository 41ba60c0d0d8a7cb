//! What is asked before an operation is called is whether it may be.
use crate::account::AccountId;
use crate::adapter::CurrencyAdapter;
use crate::config::Config;
use crate::lockable::{locks_extended, locks_with, locks_without};
use crate::pallet::Pallet;
use crate::types::{Amount, Balance, BalanceStatus, BlockNumber, CurrencyId, LockIdentifier};
use vstd::prelude::*;

verus! {

/// What is asked of a transfer, a deposit, a withdrawal and a signed change before
/// it is called is whether it fits.
pub proof fn law_balances_are_guarded<T: Config>(
    p: &Pallet<T>,
    currency_id: CurrencyId,
    who: &AccountId,
    to: &AccountId,
    amount: Balance,
    by_amount: Amount,
    r: bool,
)
    ensures
        call_ensures(Pallet::<T>::transfer_has_room, (p, currency_id, who, to, amount), r) ==> (r
            <==> p@.transfer_fits::<T>(currency_id, *who, *to, amount)),
        call_ensures(Pallet::<T>::deposit_has_room, (p, currency_id, who, amount), r) ==> (r
            <==> p@.deposit_fits::<T>(currency_id, *who, amount)),
        call_ensures(Pallet::<T>::withdraw_has_room, (p, currency_id, who, amount), r) ==> (r
            <==> p@.withdraw_fits::<T>(currency_id, *who, amount)),
        call_ensures(Pallet::<T>::update_balance_has_room, (p, currency_id, who, by_amount), r)
            ==> (r <==> p@.update_balance_fits::<T>(currency_id, *who, by_amount)),
        call_ensures(Pallet::<T>::slash_has_room, (p, currency_id, who, amount), r) ==> (r
            <==> p@.slash_fits::<T>(currency_id, *who, amount)),
{
}

/// So it is with what is done to reserves.
pub proof fn law_reserves_are_guarded<T: Config>(
    p: &Pallet<T>,
    currency_id: CurrencyId,
    who: &AccountId,
    beneficiary: &AccountId,
    value: Balance,
    status: BalanceStatus,
    r: bool,
)
    ensures
        call_ensures(Pallet::<T>::slash_reserved_has_room, (p, currency_id, who, value), r) ==> (r
            <==> p@.slash_reserved_fits::<T>(currency_id, *who, value)),
        call_ensures(Pallet::<T>::reserve_has_room, (p, currency_id, who, value), r) ==> (r
            <==> p@.reserve_fits::<T>(currency_id, *who, value)),
        call_ensures(Pallet::<T>::unreserve_has_room, (p, currency_id, who, value), r) ==> (r
            <==> p@.unreserve_fits::<T>(currency_id, *who, value)),
        call_ensures(
            Pallet::<T>::repatriate_has_room,
            (p, currency_id, who, beneficiary, value, status),
            r,
        ) ==> (r <==> p@.repatriate_fits::<T>(currency_id, *who, *beneficiary, value, status)),
{
}

/// So it is with what is done to locks, of which one of nothing may always be
/// set or extended.
pub proof fn law_locks_are_guarded<T: Config>(
    p: &Pallet<T>,
    id: LockIdentifier,
    currency_id: CurrencyId,
    who: &AccountId,
    amount: Balance,
    r: bool,
)
    ensures
        ({
            let locks = p@.locks_of(*who, currency_id);
            let set = locks_with(locks, id, amount);
            let extended = locks_extended(locks, id, amount);
            let removed = locks_without(locks, id);
            &&& call_ensures(Pallet::<T>::set_lock_has_room, (p, id, currency_id, who, amount), r)
                ==> (r <==> amount == 0 || p@.update_locks_fits::<T>(currency_id, *who, set))
            &&& call_ensures(
                Pallet::<T>::extend_lock_has_room,
                (p, id, currency_id, who, amount),
                r,
            ) ==> (r <==> amount == 0 || p@.update_locks_fits::<T>(currency_id, *who, extended))
            &&& call_ensures(Pallet::<T>::remove_lock_has_room, (p, id, currency_id, who), r) ==> (
            r <==> p@.update_locks_fits::<T>(currency_id, *who, removed))
        }),
{
}

/// So it is with a change of the supply.
pub proof fn law_supply_changes_are_guarded<T: Config>(
    p: &Pallet<T>,
    native_currency_id: CurrencyId,
    stable_currency_id: CurrencyId,
    by: Balance,
    price: Balance,
    r: bool,
)
    ensures
        call_ensures(
            Pallet::<T>::expand_has_room,
            (p, native_currency_id, stable_currency_id, by, price),
            r,
        ) ==> (r <==> p@.expand_fits::<T>(native_currency_id, stable_currency_id, by, price)),
        call_ensures(
            Pallet::<T>::contract_has_room,
            (p, native_currency_id, stable_currency_id, by, price),
            r,
        ) ==> (r <==> p@.contract_fits::<T>(native_currency_id, stable_currency_id, by, price)),
        call_ensures(Pallet::<T>::supply_change_has_room, (p, stable_currency_id, price), r) ==> (r
            <==> T::spec_base_unit(stable_currency_id) != 0 && price * p@.total_issuance(
            stable_currency_id,
        ) <= Balance::MAX),
{
}

/// So it is with an adjustment, and with a block, whose number the frequency of
/// adjustments may not take beyond the largest.
pub proof fn law_adjustments_are_guarded<T: Config>(
    p: &Pallet<T>,
    now: BlockNumber,
    stable_currency_id: CurrencyId,
    stable_currency_price: Balance,
    native_currency_id: CurrencyId,
    native_currency_price: Balance,
    r: bool,
)
    ensures
        ({
            let fits = p@.adjust_fits::<T>(
                stable_currency_id,
                stable_currency_price,
                native_currency_id,
                native_currency_price,
            );
            let frequency = T::spec_adjustment_frequency();
            &&& call_ensures(
                Pallet::<T>::adjust_has_room,
                (
                    p,
                    stable_currency_id,
                    stable_currency_price,
                    native_currency_id,
                    native_currency_price,
                ),
                r,
            ) ==> (r <==> fits)
            &&& call_ensures(
                Pallet::<T>::serp_block_has_room,
                (
                    p,
                    now,
                    stable_currency_id,
                    stable_currency_price,
                    native_currency_id,
                    native_currency_price,
                ),
                r,
            ) ==> (r <==> now + frequency <= BlockNumber::MAX && (frequency == 0 ==> fits))
        }),
{
}

/// So it is with what is done to one currency, and with a merge.
pub proof fn law_tokens_and_merges_are_guarded<T: Config>(
    token: &CurrencyAdapter,
    p: &Pallet<T>,
    who: &AccountId,
    dest: &AccountId,
    value: Balance,
    walk: &Vec<CurrencyId>,
    r: bool,
)
    ensures
        call_ensures(CurrencyAdapter::slash_has_room::<T>, (token, p, who, value), r) ==> (r <==> (
        value == 0 || p@.slash_account_fits::<T>(token.currency_id, *who, value))),
        call_ensures(CurrencyAdapter::deposit_has_room::<T>, (token, p, who, value), r) ==> (r
            <==> p@.add_free_fits::<T>(token.currency_id, *who, value)),
        call_ensures(CurrencyAdapter::withdraw_has_room::<T>, (token, p, who, value), r) ==> (r
            <==> p@.take_free_fits::<T>(token.currency_id, *who, value)),
        call_ensures(CurrencyAdapter::make_free_has_room::<T>, (token, p, who, value), r) ==> (r
            <==> p@.make_free_fits::<T>(token.currency_id, *who, value)),
        call_ensures(Pallet::<T>::merge_has_room, (p, who, dest, walk), r) ==> (r
            <==> p@.merge_fits::<T>(*who, *dest, walk@)),
{
}

} // verus!
