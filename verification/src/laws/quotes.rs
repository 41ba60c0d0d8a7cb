//! What a change of the supply costs, and what it does, in the figures that it
//! is made of.
use crate::config::Config;
use crate::serp::{
    contraction_weight, distance, expansion_weight, lemma_payment_not_negative, lemma_target_supply,
    payment, payment_fits, quote_of, target_supply,
};
use crate::state::State;
use crate::types::{AccountData, Balance, CurrencyId};
use vstd::arithmetic::div_mod::{
    lemma_div_denominator, lemma_div_is_ordered, lemma_div_is_ordered_by_denominator,
    lemma_div_multiples_vanish_quotient, lemma_div_pos_is_pos, lemma_fundamental_div_mod,
    lemma_fundamental_div_mod_converse,
};
use vstd::prelude::*;

verus! {

/// Whether a number goes into another so many whole times.
pub open spec fn goes_into(d: int, x: int, times: int) -> bool {
    times * d <= x < (times + 1) * d
}

/// There is one number of times.
proof fn lemma_goes_into(d: int, x: int, times: int)
    requires
        0 < d,
        goes_into(d, x, times),
    ensures
        x / d == times,
{
    assert((times + 1) * d == times * d + d) by (nonlinear_arith);
    lemma_fundamental_div_mod_converse(x, d, times, x - times * d);
}

/// Every number goes into every other some number of times.
pub proof fn law_goes_into(d: int, x: int)
    requires
        0 < d,
    ensures
        exists|times: int| goes_into(d, x, times),
{
    lemma_fundamental_div_mod(x, d);
    let times = x / d;
    assert(times * d == d * times) by (nonlinear_arith);
    assert((times + 1) * d == times * d + d) by (nonlinear_arith);
    assert(goes_into(d, x, times));
}

/// A quote counts how many times the change goes into the supply, and each time
/// as often as the multiple says.
pub proof fn law_quote(supply: int, change: int, multiple: int, times: int)
    requires
        0 < change,
        goes_into(change, supply, times),
    ensures
        quote_of(supply, change, multiple) == times * multiple,
{
    lemma_goes_into(change, supply, times);
}

/// The weight of an expansion and its quote make a hundred percent. So do the
/// weight of a contraction and its quote, but that a quote over a hundred
/// percent is added to them.
pub proof fn law_weights(percent: int, quote: int)
    ensures
        expansion_weight(percent, quote) + quote == percent,
        quote <= percent ==> contraction_weight(percent, quote) + quote == percent,
        quote > percent ==> contraction_weight(percent, quote) == percent + quote,
{
}

/// A payment is how many times the supply goes into the weighed price, where the
/// price counts by whole hundreds of percents. The base unit makes no difference.
pub proof fn law_payment(
    quote_price: int,
    percent: int,
    weight: int,
    base_unit: int,
    supply: int,
    nominal: int,
    pay: int,
)
    requires
        0 <= quote_price,
        0 < percent,
        0 <= weight,
        0 < base_unit,
        0 < supply,
        goes_into(percent, quote_price, nominal),
        pay * supply <= nominal * weight < (pay + 1) * supply,
    ensures
        payment(quote_price, percent, weight, base_unit, supply) == pay,
{
    lemma_goes_into(percent, quote_price, nominal);
    lemma_div_pos_is_pos(quote_price, percent);
    let x = nominal * weight;
    assert(0 <= x) by (nonlinear_arith)
        requires
            x == nominal * weight,
            0 <= nominal,
            0 <= weight,
    ;
    assert(goes_into(supply, x, pay));
    lemma_goes_into(supply, x, pay);
    assert(0 <= x * base_unit) by (nonlinear_arith)
        requires
            0 <= x,
            0 < base_unit,
    ;
    lemma_div_denominator(x * base_unit, supply, base_unit);
    lemma_div_multiples_vanish_quotient(base_unit, x, supply);
    assert(x * base_unit == base_unit * x) by (nonlinear_arith);
    assert(supply * base_unit == base_unit * supply) by (nonlinear_arith);
}

/// Whether a payment can be computed: nothing is divided by nothing, the weight
/// is not less than nothing, and the weighed price is a balance, also in base
/// units.
pub proof fn law_payment_fits(
    quote_price: int,
    percent: int,
    weight: int,
    base_unit: int,
    supply: int,
    nominal: int,
)
    requires
        0 < percent,
        goes_into(percent, quote_price, nominal),
    ensures
        payment_fits(quote_price, percent, weight, base_unit, supply) <==> {
            &&& base_unit != 0
            &&& supply != 0
            &&& weight >= 0
            &&& nominal * weight <= Balance::MAX
            &&& nominal * weight * base_unit <= Balance::MAX
        },
        !payment_fits(quote_price, 0, weight, base_unit, supply),
{
    lemma_goes_into(percent, quote_price, nominal);
}

/// The supply that a price asks for is how many times the base unit goes into
/// what the supply is worth at that price.
pub proof fn law_target_supply(supply: int, price: int, base_unit: int, target: int)
    requires
        0 < base_unit,
        goes_into(base_unit, price * supply, target),
    ensures
        target_supply(supply, price, base_unit) == target,
{
    lemma_goes_into(base_unit, price * supply, target);
}

// Expanding.
impl State {
    /// An expansion takes a payment from the native reserve of the serpers and
    /// from the native supply, and adds the amount to their stable reserve and
    /// to the stable supply. With `nominal` the hundreds of percents of the
    /// price and `times` how often the amount goes into the supply, the payment
    /// is how often the supply goes into `nominal` times what the quote,
    /// `times` the multiple, leaves of a hundred percent.
    pub proof fn law_expansion_pays<T: Config>(
        self,
        native_currency_id: CurrencyId,
        stable_currency_id: CurrencyId,
        expand_by: Balance,
        quote_price: Balance,
        nominal: int,
        times: int,
        pay: int,
    )
        requires
            expand_by != 0,
            T::spec_percent() != 0,
            T::spec_base_unit(stable_currency_id) != 0,
            self.total_issuance(stable_currency_id) != 0,
            nominal * T::spec_percent() <= quote_price < (nominal + 1) * T::spec_percent(),
            times * expand_by <= self.total_issuance(stable_currency_id) < (times + 1) * expand_by,
            times * T::spec_serp_quote_multiple() <= T::spec_percent(),
            pay * self.total_issuance(stable_currency_id) <= nominal * (T::spec_percent() - times
                * T::spec_serp_quote_multiple()) < (pay + 1) * self.total_issuance(
                stable_currency_id,
            ),
        ensures
            ({
                let serpers = T::spec_serper_acc();
                let weight = T::spec_percent() - times * T::spec_serp_quote_multiple();
                let native = self.account(serpers, native_currency_id);
                let less = AccountData { reserved: (native.reserved - pay) as Balance, ..native };
                let s = self.put_account::<T>(serpers, native_currency_id, less);
                let reserve = self.account(serpers, stable_currency_id).reserved + expand_by;
                let more = AccountData {
                    reserved: reserve as Balance,
                    ..s.account(serpers, stable_currency_id)
                };
                let u = s.put_account::<T>(serpers, stable_currency_id, more);
                let native_supply = u.total_issuance(native_currency_id) - pay;
                let stable_supply = expand_by + if native_currency_id == stable_currency_id {
                    native_supply
                } else {
                    u.total_issuance(stable_currency_id) as int
                };
                let fits = {
                    &&& nominal * weight <= Balance::MAX
                    &&& nominal * weight * T::spec_base_unit(stable_currency_id) <= Balance::MAX
                    &&& pay <= native.reserved
                    &&& self.put_fits::<T>(serpers, native_currency_id, less)
                    &&& reserve <= Balance::MAX
                    &&& s.put_fits::<T>(serpers, stable_currency_id, more)
                    &&& native_supply >= 0
                    &&& stable_supply <= Balance::MAX
                };
                &&& pay >= 0
                &&& self.expand_fits::<T>(
                    native_currency_id,
                    stable_currency_id,
                    expand_by,
                    quote_price,
                ) <==> fits
                &&& fits ==> self.expanded::<T>(
                    native_currency_id,
                    stable_currency_id,
                    expand_by,
                    quote_price,
                ) == (State {
                    issuance: u.issuance.insert(native_currency_id, native_supply as Balance).insert(
                        stable_currency_id,
                        stable_supply as Balance,
                    ),
                    ..u
                })
            }),
    {
        let percent = T::spec_percent() as int;
        let multiple = T::spec_serp_quote_multiple() as int;
        let base_unit = T::spec_base_unit(stable_currency_id) as int;
        let supply = self.total_issuance(stable_currency_id) as int;
        let quote = times * multiple;
        assert(goes_into(expand_by as int, supply, times));
        law_quote(supply, expand_by as int, multiple, times);
        assert(goes_into(percent, quote_price as int, nominal));
        law_payment(
            quote_price as int,
            percent,
            percent - quote,
            base_unit,
            supply,
            nominal,
            pay,
        );
        law_payment_fits(
            quote_price as int,
            percent,
            percent - quote,
            base_unit,
            supply,
            nominal,
        );
        lemma_payment_not_negative(
            quote_price as int,
            percent,
            percent - quote,
            base_unit,
            supply,
        );
        assert(self.expansion_payment::<T>(stable_currency_id, expand_by, quote_price) == pay);
    }

    /// An expansion by nothing does nothing. One whose quote is more than a
    /// hundred percent cannot be made, nor can one of a currency that has no
    /// supply or no base unit.
    pub proof fn law_expansion_limits<T: Config>(
        self,
        native_currency_id: CurrencyId,
        stable_currency_id: CurrencyId,
        expand_by: Balance,
        quote_price: Balance,
        times: int,
    )
        requires
            expand_by != 0 ==> times * expand_by <= self.total_issuance(stable_currency_id) < (times
                + 1) * expand_by,
        ensures
            expand_by == 0 ==> {
                &&& self.expanded::<T>(
                    native_currency_id,
                    stable_currency_id,
                    expand_by,
                    quote_price,
                ) == self
                &&& self.expand_fits::<T>(
                    native_currency_id,
                    stable_currency_id,
                    expand_by,
                    quote_price,
                )
            },
            expand_by != 0 && (T::spec_percent() == 0 || T::spec_base_unit(stable_currency_id) == 0
                || self.total_issuance(stable_currency_id) == 0 || times
                * T::spec_serp_quote_multiple() > T::spec_percent()) ==> !self.expand_fits::<T>(
                native_currency_id,
                stable_currency_id,
                expand_by,
                quote_price,
            ),
    {
        if expand_by != 0 {
            let supply = self.total_issuance(stable_currency_id) as int;
            assert(goes_into(expand_by as int, supply, times));
            law_quote(supply, expand_by as int, T::spec_serp_quote_multiple() as int, times);
        }
    }

    /// Of two expansions at one price, the smaller one never costs the serpers
    /// more, and of two by one amount, the one at the lower price does not. One
    /// whose quote is a hundred percent costs nothing.
    pub proof fn law_expansion_costs_compare<T: Config>(
        self,
        native_currency_id: CurrencyId,
        stable_currency_id: CurrencyId,
        expand_by: Balance,
        quote_price: Balance,
        other_by: Balance,
        other_price: Balance,
    )
        requires
            native_currency_id != stable_currency_id,
            0 < expand_by <= other_by,
            quote_price <= other_price,
            self.expand_fits::<T>(native_currency_id, stable_currency_id, expand_by, quote_price),
            self.expand_fits::<T>(native_currency_id, stable_currency_id, other_by, other_price),
        ensures
            ({
                let serpers = T::spec_serper_acc();
                let before = self.account(serpers, native_currency_id).reserved;
                let left = self.expanded::<T>(
                    native_currency_id,
                    stable_currency_id,
                    expand_by,
                    quote_price,
                ).account(serpers, native_currency_id).reserved;
                let other_left = self.expanded::<T>(
                    native_currency_id,
                    stable_currency_id,
                    other_by,
                    other_price,
                ).account(serpers, native_currency_id).reserved;
                &&& other_left <= left <= before
                &&& forall|times: int|
                    #![trigger times * expand_by]
                    times * expand_by <= self.total_issuance(stable_currency_id) < (times + 1)
                        * expand_by && times * T::spec_serp_quote_multiple() == T::spec_percent()
                        ==> left == before
            }),
    {
        let percent = T::spec_percent() as int;
        let multiple = T::spec_serp_quote_multiple() as int;
        let base_unit = T::spec_base_unit(stable_currency_id) as int;
        let supply = self.total_issuance(stable_currency_id) as int;
        let quote = self.quote::<T>(stable_currency_id, expand_by);
        let other_quote = self.quote::<T>(stable_currency_id, other_by);
        self.law_expansion_changes_supplies::<T>(
            native_currency_id,
            stable_currency_id,
            expand_by,
            quote_price,
        );
        self.law_expansion_changes_supplies::<T>(
            native_currency_id,
            stable_currency_id,
            other_by,
            other_price,
        );
        lemma_payment_not_negative(
            quote_price as int,
            percent,
            percent - quote,
            base_unit,
            supply,
        );
        lemma_div_is_ordered_by_denominator(supply, expand_by as int, other_by as int);
        let many = supply / (expand_by as int);
        let few = supply / (other_by as int);
        assert(few * multiple <= many * multiple) by (nonlinear_arith)
            requires
                few <= many,
                0 <= multiple,
        ;
        lemma_payment_ordered(
            quote_price as int,
            other_price as int,
            percent,
            percent - quote,
            percent - other_quote,
            base_unit,
            supply,
        );
        assert forall|times: int|
            #![trigger times * expand_by]
            times * expand_by <= supply < (times + 1) * expand_by && times
                * T::spec_serp_quote_multiple() == T::spec_percent() implies self.expansion_payment::<
            T,
        >(stable_currency_id, expand_by, quote_price) == 0 by {
            assert(goes_into(expand_by as int, supply, times));
            law_quote(supply, expand_by as int, multiple, times);
            let nominal = (quote_price as int) / percent;
            assert(nominal * 0 == 0);
            assert(0int * base_unit == 0);
            assert(0int / supply == 0) by (nonlinear_arith)
                requires
                    supply > 0,
            ;
            assert(0int / base_unit == 0) by (nonlinear_arith)
                requires
                    base_unit > 0,
            ;
        }
    }
}

/// More is paid for a higher price and for a larger weight, or as much.
proof fn lemma_payment_ordered(
    quote_price: int,
    other_price: int,
    percent: int,
    weight: int,
    other_weight: int,
    base_unit: int,
    supply: int,
)
    requires
        0 <= quote_price <= other_price,
        0 < percent,
        0 <= weight <= other_weight,
        0 < base_unit,
        0 < supply,
    ensures
        payment(quote_price, percent, weight, base_unit, supply) <= payment(
            other_price,
            percent,
            other_weight,
            base_unit,
            supply,
        ),
{
    let nominal = quote_price / percent;
    let other = other_price / percent;
    lemma_div_is_ordered(quote_price, other_price, percent);
    lemma_div_pos_is_pos(quote_price, percent);
    assert(nominal * weight <= other * other_weight) by (nonlinear_arith)
        requires
            0 <= nominal <= other,
            0 <= weight <= other_weight,
    ;
    let x = nominal * weight;
    let y = other * other_weight;
    assert(x * base_unit <= y * base_unit) by (nonlinear_arith)
        requires
            x <= y,
            0 < base_unit,
    ;
    lemma_div_is_ordered(x * base_unit, y * base_unit, supply);
    lemma_div_is_ordered((x * base_unit) / supply, (y * base_unit) / supply, base_unit);
}

// Contracting.
impl State {
    /// A contraction takes the amount from the stable reserve of the serpers and
    /// from the stable supply, and adds a payment to their native reserve and to
    /// the native supply. With `nominal` the hundreds of percents of the price
    /// and `times` how often the amount goes into the supply, the payment is how
    /// often the supply goes into `nominal` times the weight: what the quote,
    /// `times` the multiple, leaves of a hundred percent, or both together if it
    /// is over a hundred percent.
    pub proof fn law_contraction_pays<T: Config>(
        self,
        native_currency_id: CurrencyId,
        stable_currency_id: CurrencyId,
        contract_by: Balance,
        quote_price: Balance,
        nominal: int,
        times: int,
        weight: int,
        pay: int,
    )
        requires
            contract_by != 0,
            T::spec_percent() != 0,
            T::spec_base_unit(stable_currency_id) != 0,
            self.total_issuance(stable_currency_id) != 0,
            nominal * T::spec_percent() <= quote_price < (nominal + 1) * T::spec_percent(),
            times * contract_by <= self.total_issuance(stable_currency_id) < (times + 1)
                * contract_by,
            weight == (if times * T::spec_serp_quote_multiple() <= T::spec_percent() {
                T::spec_percent() - times * T::spec_serp_quote_multiple()
            } else {
                T::spec_percent() + times * T::spec_serp_quote_multiple()
            }),
            pay * self.total_issuance(stable_currency_id) <= nominal * weight < (pay + 1)
                * self.total_issuance(stable_currency_id),
        ensures
            ({
                let serpers = T::spec_serper_acc();
                let native = self.account(serpers, native_currency_id);
                let more = AccountData { reserved: (native.reserved + pay) as Balance, ..native };
                let s = self.put_account::<T>(serpers, native_currency_id, more);
                let reserve = self.account(serpers, stable_currency_id).reserved - contract_by;
                let less = AccountData {
                    reserved: reserve as Balance,
                    ..s.account(serpers, stable_currency_id)
                };
                let u = s.put_account::<T>(serpers, stable_currency_id, less);
                let stable_supply = u.total_issuance(stable_currency_id) - contract_by;
                let native_supply = pay + if native_currency_id == stable_currency_id {
                    stable_supply
                } else {
                    u.total_issuance(native_currency_id) as int
                };
                let fits = {
                    &&& T::spec_percent() + times * T::spec_serp_quote_multiple() <= Balance::MAX
                    &&& nominal * weight <= Balance::MAX
                    &&& nominal * weight * T::spec_base_unit(stable_currency_id) <= Balance::MAX
                    &&& native.reserved + pay <= Balance::MAX
                    &&& self.put_fits::<T>(serpers, native_currency_id, more)
                    &&& reserve >= 0
                    &&& s.put_fits::<T>(serpers, stable_currency_id, less)
                    &&& stable_supply >= 0
                    &&& native_supply <= Balance::MAX
                };
                &&& pay >= 0
                &&& self.contract_fits::<T>(
                    native_currency_id,
                    stable_currency_id,
                    contract_by,
                    quote_price,
                ) <==> fits
                &&& fits ==> self.contracted::<T>(
                    native_currency_id,
                    stable_currency_id,
                    contract_by,
                    quote_price,
                ) == (State {
                    issuance: u.issuance.insert(stable_currency_id, stable_supply as Balance).insert(
                        native_currency_id,
                        native_supply as Balance,
                    ),
                    ..u
                })
            }),
    {
        let percent = T::spec_percent() as int;
        let multiple = T::spec_serp_quote_multiple() as int;
        let base_unit = T::spec_base_unit(stable_currency_id) as int;
        let supply = self.total_issuance(stable_currency_id) as int;
        let quote = times * multiple;
        assert(goes_into(contract_by as int, supply, times));
        law_quote(supply, contract_by as int, multiple, times);
        lemma_goes_into(contract_by as int, supply, times);
        lemma_div_pos_is_pos(supply, contract_by as int);
        assert(0 <= quote) by (nonlinear_arith)
            requires
                quote == times * multiple,
                0 <= times,
                0 <= multiple,
        ;
        assert(goes_into(percent, quote_price as int, nominal));
        law_payment(quote_price as int, percent, weight, base_unit, supply, nominal, pay);
        law_payment_fits(quote_price as int, percent, weight, base_unit, supply, nominal);
        lemma_payment_not_negative(quote_price as int, percent, weight, base_unit, supply);
        assert(self.contraction_payment::<T>(stable_currency_id, contract_by, quote_price) == pay);
    }

    /// A contraction by nothing does nothing. One of a currency that has no
    /// supply or no base unit cannot be made.
    pub proof fn law_contraction_limits<T: Config>(
        self,
        native_currency_id: CurrencyId,
        stable_currency_id: CurrencyId,
        contract_by: Balance,
        quote_price: Balance,
    )
        ensures
            contract_by == 0 ==> {
                &&& self.contracted::<T>(
                    native_currency_id,
                    stable_currency_id,
                    contract_by,
                    quote_price,
                ) == self
                &&& self.contract_fits::<T>(
                    native_currency_id,
                    stable_currency_id,
                    contract_by,
                    quote_price,
                )
            },
            contract_by != 0 && (T::spec_percent() == 0 || T::spec_base_unit(stable_currency_id)
                == 0 || self.total_issuance(stable_currency_id) == 0) ==> !self.contract_fits::<T>(
                native_currency_id,
                stable_currency_id,
                contract_by,
                quote_price,
            ),
    {
    }
}

// Adjusting.
impl State {
    /// An adjustment at a price above the base unit expands the supply, at one
    /// below it contracts it, to how many times the base unit goes into what the
    /// supply is worth at that price. At the base unit it does nothing.
    pub proof fn law_adjustment_steps<T: Config>(
        self,
        stable_currency_id: CurrencyId,
        stable_currency_price: Balance,
        native_currency_id: CurrencyId,
        native_currency_price: Balance,
        target: int,
        change: Balance,
    )
        requires
            T::spec_base_unit(stable_currency_id) != 0,
            target * T::spec_base_unit(stable_currency_id) <= stable_currency_price
                * self.total_issuance(stable_currency_id) < (target + 1) * T::spec_base_unit(
                stable_currency_id,
            ),
            stable_currency_price >= T::spec_base_unit(stable_currency_id)
                ==> self.total_issuance(stable_currency_id) + change == target,
            stable_currency_price < T::spec_base_unit(stable_currency_id) ==> target + change
                == self.total_issuance(stable_currency_id),
        ensures
            ({
                let base_unit = T::spec_base_unit(stable_currency_id);
                let t = self.adjusted::<T>(
                    stable_currency_id,
                    stable_currency_price,
                    native_currency_id,
                    native_currency_price,
                );
                let fits = self.adjust_fits::<T>(
                    stable_currency_id,
                    stable_currency_price,
                    native_currency_id,
                    native_currency_price,
                );
                let worth = stable_currency_price * self.total_issuance(stable_currency_id);
                &&& self.supply_off::<T>(stable_currency_id, stable_currency_price) == change
                &&& distance(target, self.total_issuance(stable_currency_id) as int) == change
                &&& self.supply_off_fits::<T>(stable_currency_id, stable_currency_price)
                    <==> worth <= Balance::MAX
                &&& stable_currency_price == base_unit ==> fits && t == self
                &&& stable_currency_price > base_unit ==> t == self.expanded::<T>(
                    native_currency_id,
                    stable_currency_id,
                    change,
                    native_currency_price,
                ) && (fits <==> worth <= Balance::MAX && self.expand_fits::<T>(
                    native_currency_id,
                    stable_currency_id,
                    change,
                    native_currency_price,
                ))
                &&& stable_currency_price < base_unit ==> t == self.contracted::<T>(
                    native_currency_id,
                    stable_currency_id,
                    change,
                    native_currency_price,
                ) && (fits <==> worth <= Balance::MAX && self.contract_fits::<T>(
                    native_currency_id,
                    stable_currency_id,
                    change,
                    native_currency_price,
                ))
            }),
    {
        let base_unit = T::spec_base_unit(stable_currency_id) as int;
        let supply = self.total_issuance(stable_currency_id) as int;
        let price = stable_currency_price as int;
        assert(goes_into(base_unit, price * supply, target));
        law_target_supply(supply, price, base_unit, target);
        lemma_target_supply(supply, price, base_unit);
    }

    /// No price asks for any supply of a currency that has no base unit.
    pub proof fn law_adjustment_limits<T: Config>(
        self,
        stable_currency_id: CurrencyId,
        stable_currency_price: Balance,
        native_currency_id: CurrencyId,
        native_currency_price: Balance,
    )
        requires
            T::spec_base_unit(stable_currency_id) == 0,
        ensures
            !self.supply_off_fits::<T>(stable_currency_id, stable_currency_price),
            self.adjust_fits::<T>(
                stable_currency_id,
                stable_currency_price,
                native_currency_id,
                native_currency_price,
            ) <==> stable_currency_price == 0,
    {
    }
}

} // verus!
