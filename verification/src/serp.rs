//! The elastic supply: expanding and contracting a stable currency so that its
//! price returns to its base unit.
use crate::account::AccountId;
use crate::config::Config;
use crate::pallet::Pallet;
use crate::state::State;
use crate::types::{AccountData, Balance, BlockNumber, CurrencyId, Error};
use vstd::prelude::*;

verus! {

/// The supply that brings a currency with this supply and price back to its
/// base unit.
pub open spec fn target_supply(supply: int, price: int, base_unit: int) -> int {
    (price * supply) / base_unit
}

/// How far a number is from another.
pub open spec fn distance(a: int, b: int) -> int {
    if a >= b {
        a - b
    } else {
        b - a
    }
}

/// The parts of a quote that an expansion and a contraction have in common.
pub open spec fn quote_of(supply: int, change: int, multiple: int) -> int {
    (supply / change) * multiple
}

/// The weight of a quote in an expansion.
pub open spec fn expansion_weight(percent: int, quote: int) -> int {
    percent - quote
}

/// The weight of a quote in a contraction. A quote over a hundred percent adds
/// to it.
pub open spec fn contraction_weight(percent: int, quote: int) -> int {
    if quote <= percent {
        percent - quote
    } else {
        percent + quote
    }
}

/// The amount of the native currency that changes hands for a weight.
pub open spec fn payment(
    quote_price: int,
    percent: int,
    weight: int,
    base_unit: int,
    supply: int,
) -> int {
    (((quote_price / percent) * weight) * base_unit) / supply / base_unit
}

/// Whether a payment can be computed with balances.
pub open spec fn payment_fits(
    quote_price: int,
    percent: int,
    weight: int,
    base_unit: int,
    supply: int,
) -> bool {
    &&& percent != 0
    &&& base_unit != 0
    &&& supply != 0
    &&& 0 <= weight
    &&& (quote_price / percent) * weight <= Balance::MAX
    &&& ((quote_price / percent) * weight) * base_unit <= Balance::MAX
}

impl State {
    /// The quote for a change of the supply of a currency.
    pub open spec fn quote<T: Config>(self, stable_currency_id: CurrencyId, change: Balance) -> int {
        quote_of(
            self.total_issuance(stable_currency_id) as int,
            change as int,
            T::spec_serp_quote_multiple() as int,
        )
    }

    /// What the serpers pay for an expansion.
    pub open spec fn expansion_payment<T: Config>(
        self,
        stable_currency_id: CurrencyId,
        expand_by: Balance,
        quote_price: Balance,
    ) -> int {
        payment(
            quote_price as int,
            T::spec_percent() as int,
            expansion_weight(
                T::spec_percent() as int,
                self.quote::<T>(stable_currency_id, expand_by),
            ),
            T::spec_base_unit(stable_currency_id) as int,
            self.total_issuance(stable_currency_id) as int,
        )
    }

    /// What the serpers are paid for a contraction.
    pub open spec fn contraction_payment<T: Config>(
        self,
        stable_currency_id: CurrencyId,
        contract_by: Balance,
        quote_price: Balance,
    ) -> int {
        payment(
            quote_price as int,
            T::spec_percent() as int,
            contraction_weight(
                T::spec_percent() as int,
                self.quote::<T>(stable_currency_id, contract_by),
            ),
            T::spec_base_unit(stable_currency_id) as int,
            self.total_issuance(stable_currency_id) as int,
        )
    }

    /// With the reserved native and stable balances of the serpers changed, the
    /// native one first. Both changes are made to the balances found before
    /// either.
    pub open spec fn serpers_reserve<T: Config>(
        self,
        native_currency_id: CurrencyId,
        stable_currency_id: CurrencyId,
        native_change: int,
        stable_change: int,
    ) -> State {
        let serpers = T::spec_serper_acc();
        self.set_reserved::<T>(
            native_currency_id,
            serpers,
            self.account(serpers, native_currency_id).reserved + native_change,
        ).set_reserved::<T>(
            stable_currency_id,
            serpers,
            self.account(serpers, stable_currency_id).reserved + stable_change,
        )
    }

    /// Whether [`State::serpers_reserve`] stays within the limits of a balance
    /// and of what was issued.
    pub open spec fn serpers_reserve_fits<T: Config>(
        self,
        native_currency_id: CurrencyId,
        stable_currency_id: CurrencyId,
        native_change: int,
        stable_change: int,
    ) -> bool {
        let serpers = T::spec_serper_acc();
        let native = self.account(serpers, native_currency_id).reserved + native_change;
        let stable = self.account(serpers, stable_currency_id).reserved + stable_change;
        &&& self.set_reserved_fits::<T>(native_currency_id, serpers, native)
        &&& self.set_reserved::<T>(native_currency_id, serpers, native).set_reserved_fits::<T>(
            stable_currency_id,
            serpers,
            stable,
        )
    }

    /// With the total issuance of a currency changed.
    pub open spec fn change_issuance(self, currency_id: CurrencyId, change: int) -> State {
        self.with_issuance(currency_id, self.total_issuance(currency_id) + change)
    }

    /// Whether [`State::change_issuance`] stays within the limits of a balance.
    pub open spec fn change_issuance_fits(self, currency_id: CurrencyId, change: int) -> bool {
        0 <= self.total_issuance(currency_id) + change <= Balance::MAX
    }

    /// The ledger after the supply was expanded: the serpers have `expand_by`
    /// more of the stable currency in reserve and pay for it with the native
    /// currency, and both supplies change by as much. It is the same ledger if
    /// the supply expands by nothing.
    pub open spec fn expanded<T: Config>(
        self,
        native_currency_id: CurrencyId,
        stable_currency_id: CurrencyId,
        expand_by: Balance,
        quote_price: Balance,
    ) -> State {
        if expand_by == 0 {
            self
        } else {
            let pay = self.expansion_payment::<T>(stable_currency_id, expand_by, quote_price);
            self.serpers_reserve::<T>(
                native_currency_id,
                stable_currency_id,
                -pay,
                expand_by as int,
            ).change_issuance(native_currency_id, -pay).change_issuance(
                stable_currency_id,
                expand_by as int,
            )
        }
    }

    /// Whether an expansion can be computed with balances, and the reserves and
    /// supplies allow it.
    pub open spec fn expand_fits<T: Config>(
        self,
        native_currency_id: CurrencyId,
        stable_currency_id: CurrencyId,
        expand_by: Balance,
        quote_price: Balance,
    ) -> bool {
        expand_by != 0 ==> {
            let percent = T::spec_percent() as int;
            let quote = self.quote::<T>(stable_currency_id, expand_by);
            let pay = self.expansion_payment::<T>(stable_currency_id, expand_by, quote_price);
            &&& quote <= Balance::MAX
            &&& payment_fits(
                quote_price as int,
                percent,
                expansion_weight(percent, quote),
                T::spec_base_unit(stable_currency_id) as int,
                self.total_issuance(stable_currency_id) as int,
            )
            &&& self.serpers_reserve_fits::<T>(
                native_currency_id,
                stable_currency_id,
                -pay,
                expand_by as int,
            )
            &&& self.serpers_reserve::<T>(
                native_currency_id,
                stable_currency_id,
                -pay,
                expand_by as int,
            ).change_issuance_fits(native_currency_id, -pay)
            &&& self.serpers_reserve::<T>(
                native_currency_id,
                stable_currency_id,
                -pay,
                expand_by as int,
            ).change_issuance(native_currency_id, -pay).change_issuance_fits(
                stable_currency_id,
                expand_by as int,
            )
        }
    }

    /// The ledger after the supply was contracted: the serpers have
    /// `contract_by` less of the stable currency in reserve and are paid for it
    /// with the native currency, and both supplies change by as much. It is the
    /// same ledger if the supply contracts by nothing.
    pub open spec fn contracted<T: Config>(
        self,
        native_currency_id: CurrencyId,
        stable_currency_id: CurrencyId,
        contract_by: Balance,
        quote_price: Balance,
    ) -> State {
        if contract_by == 0 {
            self
        } else {
            let pay = self.contraction_payment::<T>(stable_currency_id, contract_by, quote_price);
            self.serpers_reserve::<T>(
                native_currency_id,
                stable_currency_id,
                pay,
                -(contract_by as int),
            ).change_issuance(stable_currency_id, -(contract_by as int)).change_issuance(
                native_currency_id,
                pay,
            )
        }
    }

    /// Whether a contraction can be computed with balances, and the reserves and
    /// supplies allow it.
    pub open spec fn contract_fits<T: Config>(
        self,
        native_currency_id: CurrencyId,
        stable_currency_id: CurrencyId,
        contract_by: Balance,
        quote_price: Balance,
    ) -> bool {
        contract_by != 0 ==> {
            let percent = T::spec_percent() as int;
            let quote = self.quote::<T>(stable_currency_id, contract_by);
            let pay = self.contraction_payment::<T>(stable_currency_id, contract_by, quote_price);
            let less = -(contract_by as int);
            &&& quote <= Balance::MAX
            &&& percent + quote <= Balance::MAX
            &&& payment_fits(
                quote_price as int,
                percent,
                contraction_weight(percent, quote),
                T::spec_base_unit(stable_currency_id) as int,
                self.total_issuance(stable_currency_id) as int,
            )
            &&& self.serpers_reserve_fits::<T>(native_currency_id, stable_currency_id, pay, less)
            &&& self.serpers_reserve::<T>(
                native_currency_id,
                stable_currency_id,
                pay,
                less,
            ).change_issuance_fits(stable_currency_id, less)
            &&& self.serpers_reserve::<T>(
                native_currency_id,
                stable_currency_id,
                pay,
                less,
            ).change_issuance(stable_currency_id, less).change_issuance_fits(
                native_currency_id,
                pay,
            )
        }
    }

    /// By how much the supply of a currency is off at a price.
    pub open spec fn supply_off<T: Config>(self, currency_id: CurrencyId, price: Balance) -> Balance {
        distance(
            target_supply(
                self.total_issuance(currency_id) as int,
                price as int,
                T::spec_base_unit(currency_id) as int,
            ),
            self.total_issuance(currency_id) as int,
        ) as Balance
    }

    /// Whether [`State::supply_off`] can be computed with balances.
    pub open spec fn supply_off_fits<T: Config>(
        self,
        currency_id: CurrencyId,
        price: Balance,
    ) -> bool {
        &&& T::spec_base_unit(currency_id) != 0
        &&& price * self.total_issuance(currency_id) <= Balance::MAX
    }

    /// The ledger after the supply was adjusted to a price: expanded if the price
    /// is above the base unit, contracted if it is below.
    pub open spec fn adjusted<T: Config>(
        self,
        stable_currency_id: CurrencyId,
        stable_currency_price: Balance,
        native_currency_id: CurrencyId,
        native_currency_price: Balance,
    ) -> State {
        let change = self.supply_off::<T>(stable_currency_id, stable_currency_price);
        if stable_currency_price > T::spec_base_unit(stable_currency_id) {
            self.expanded::<T>(
                native_currency_id,
                stable_currency_id,
                change,
                native_currency_price,
            )
        } else if stable_currency_price < T::spec_base_unit(stable_currency_id) {
            self.contracted::<T>(
                native_currency_id,
                stable_currency_id,
                change,
                native_currency_price,
            )
        } else {
            self
        }
    }

    /// Whether an adjustment can be computed with balances, and the reserves and
    /// supplies allow it.
    pub open spec fn adjust_fits<T: Config>(
        self,
        stable_currency_id: CurrencyId,
        stable_currency_price: Balance,
        native_currency_id: CurrencyId,
        native_currency_price: Balance,
    ) -> bool {
        let base_unit = T::spec_base_unit(stable_currency_id);
        let change = self.supply_off::<T>(stable_currency_id, stable_currency_price);
        &&& stable_currency_price != base_unit ==> self.supply_off_fits::<T>(
            stable_currency_id,
            stable_currency_price,
        )
        &&& stable_currency_price > base_unit ==> self.expand_fits::<T>(
            native_currency_id,
            stable_currency_id,
            change,
            native_currency_price,
        )
        &&& stable_currency_price < base_unit ==> self.contract_fits::<T>(
            native_currency_id,
            stable_currency_id,
            change,
            native_currency_price,
        )
    }
}

/// A target between nothing and what the price makes of the supply.
pub proof fn lemma_target_supply(supply: int, price: int, base_unit: int)
    requires
        0 <= supply,
        0 <= price,
        0 < base_unit,
    ensures
        0 <= target_supply(supply, price, base_unit) <= price * supply,
        price >= base_unit ==> supply <= target_supply(supply, price, base_unit),
        price <= base_unit ==> target_supply(supply, price, base_unit) <= supply,
{
    assert(0 <= price * supply) by (nonlinear_arith)
        requires
            0 <= supply,
            0 <= price,
    ;
    vstd::arithmetic::div_mod::lemma_div_pos_is_pos(price * supply, base_unit);
    vstd::arithmetic::div_mod::lemma_div_nonincreasing(price * supply, base_unit);
    if price >= base_unit {
        assert(base_unit * supply <= price * supply) by (nonlinear_arith)
            requires
                0 <= supply,
                base_unit <= price,
        ;
        vstd::arithmetic::div_mod::lemma_div_is_ordered(
            base_unit * supply,
            price * supply,
            base_unit,
        );
        vstd::arithmetic::div_mod::lemma_div_multiples_vanish(supply, base_unit);
    }
    if price <= base_unit {
        assert(price * supply <= base_unit * supply) by (nonlinear_arith)
            requires
                0 <= supply,
                price <= base_unit,
        ;
        vstd::arithmetic::div_mod::lemma_div_is_ordered(
            price * supply,
            base_unit * supply,
            base_unit,
        );
        vstd::arithmetic::div_mod::lemma_div_multiples_vanish(supply, base_unit);
    }
}

/// Nobody pays less than nothing.
pub proof fn lemma_payment_not_negative(
    quote_price: int,
    percent: int,
    weight: int,
    base_unit: int,
    supply: int,
)
    requires
        quote_price >= 0,
        percent > 0,
        base_unit > 0,
        supply > 0,
        weight >= 0,
    ensures
        payment(quote_price, percent, weight, base_unit, supply) >= 0,
{
    let nominal = quote_price / percent;
    vstd::arithmetic::div_mod::lemma_div_pos_is_pos(quote_price, percent);
    assert(nominal * weight >= 0) by (nonlinear_arith)
        requires
            nominal >= 0,
            weight >= 0,
    ;
    let by_quoted = nominal * weight;
    assert(by_quoted * base_unit >= 0) by (nonlinear_arith)
        requires
            by_quoted >= 0,
            base_unit > 0,
    ;
    vstd::arithmetic::div_mod::lemma_div_pos_is_pos(by_quoted * base_unit, supply);
    vstd::arithmetic::div_mod::lemma_div_pos_is_pos((by_quoted * base_unit) / supply, base_unit);
}

/// The amount of the native currency that changes hands for a weight.
fn compute_payment(
    quote_price: Balance,
    percent: Balance,
    weight: Balance,
    base_unit: Balance,
    supply: Balance,
) -> (r: Balance)
    requires
        payment_fits(
            quote_price as int,
            percent as int,
            weight as int,
            base_unit as int,
            supply as int,
        ),
    ensures
        r == payment(
            quote_price as int,
            percent as int,
            weight as int,
            base_unit as int,
            supply as int,
        ),
{
    let percented_nom: Balance = quote_price / percent;
    assert(0 <= percented_nom * weight) by (nonlinear_arith);
    let by_quoted: Balance = percented_nom * weight;
    assert(0 <= by_quoted * base_unit) by (nonlinear_arith);
    let convex: Balance = by_quoted * base_unit;
    let complex: Balance = convex / supply;
    complex / base_unit
}

impl<T: Config> Pallet<T> {
    /// Contracts or expands the currency supply based on conditions.
    /// Filters through the conditions to see whether it's time to adjust supply
    /// or not.
    pub fn on_serp_block(
        &mut self,
        now: BlockNumber,
        stable_currency_id: CurrencyId,
        stable_currency_price: Balance,
        native_currency_id: CurrencyId,
        native_currency_price: Balance,
    ) -> (r: Result<(), Error>)
        requires
            now + T::spec_adjustment_frequency() <= BlockNumber::MAX,
            T::spec_adjustment_frequency() == 0 ==> old(self)@.adjust_fits::<T>(
                stable_currency_id,
                stable_currency_price,
                native_currency_id,
                native_currency_price,
            ),
        ensures
            r is Ok,
            final(self)@ == (if T::spec_adjustment_frequency() == 0 {
                old(self)@.adjusted::<T>(
                    stable_currency_id,
                    stable_currency_price,
                    native_currency_id,
                    native_currency_price,
                )
            } else {
                old(self)@
            }),
    {
        // This can be changed to only correct for small or big price swings.
        let serp_elast_adjuster: BlockNumber = T::adjustment_frequency();
        if now + serp_elast_adjuster == now {
            self.serp_elast(
                stable_currency_id,
                stable_currency_price,
                native_currency_id,
                native_currency_price,
            )
        } else {
            Ok(())
        }
    }

    /// Calculate the amount of supply change from a fraction.
    pub fn supply_change(&self, currency_id: CurrencyId, new_price: Balance) -> (r: Balance)
        requires
            self@.supply_off_fits::<T>(currency_id, new_price),
        ensures
            r == distance(
                target_supply(
                    self@.total_issuance(currency_id) as int,
                    new_price as int,
                    T::spec_base_unit(currency_id) as int,
                ),
                self@.total_issuance(currency_id) as int,
            ),
            r == self@.supply_off::<T>(currency_id, new_price),
    {
        let base_unit: Balance = Self::base_unit(currency_id);
        let supply: Balance = self.total_issuance(currency_id);
        proof {
            lemma_target_supply(supply as int, new_price as int, base_unit as int);
        }
        let fraction: Balance = new_price * supply;
        let fractioned: Balance = fraction / base_unit;
        if fractioned >= supply {
            fractioned - supply
        } else {
            supply - fractioned
        }
    }

    /// Expands (if the price is above pegbase) or contracts (if the price is
    /// below pegbase) the supply of SettCurrencies.
    pub fn serp_elast(
        &mut self,
        stable_currency_id: CurrencyId,
        stable_currency_price: Balance,
        native_currency_id: CurrencyId,
        native_currency_price: Balance,
    ) -> (r: Result<(), Error>)
        requires
            old(self)@.adjust_fits::<T>(
                stable_currency_id,
                stable_currency_price,
                native_currency_id,
                native_currency_price,
            ),
        ensures
            r is Ok,
            final(self)@ == old(self)@.adjusted::<T>(
                stable_currency_id,
                stable_currency_price,
                native_currency_id,
                native_currency_price,
            ),
    {
        let base_unit: Balance = Self::base_unit(stable_currency_id);
        if stable_currency_price > base_unit {
            let expand_by: Balance = self.supply_change(stable_currency_id, stable_currency_price);
            self.expand_supply(
                native_currency_id,
                stable_currency_id,
                expand_by,
                native_currency_price,
            )
        } else if stable_currency_price < base_unit {
            let contract_by: Balance = self.supply_change(
                stable_currency_id,
                stable_currency_price,
            );
            self.contract_supply(
                native_currency_id,
                stable_currency_id,
                contract_by,
                native_currency_price,
            )
        } else {
            Ok(())
        }
    }

    /// Expands the supply of a stable currency by `expand_by`: the serpers get
    /// it in reserve, and pay for it with native currency that goes out of
    /// circulation. `quote_price` is the price (relative to the settcurrency) of
    /// the native currency used to expand settcurrency supply.
    pub fn expand_supply(
        &mut self,
        native_currency_id: CurrencyId,
        stable_currency_id: CurrencyId,
        expand_by: Balance,
        quote_price: Balance,
    ) -> (r: Result<(), Error>)
        requires
            old(self)@.expand_fits::<T>(
                native_currency_id,
                stable_currency_id,
                expand_by,
                quote_price,
            ),
        ensures
            r is Ok,
            final(self)@ == old(self)@.expanded::<T>(
                native_currency_id,
                stable_currency_id,
                expand_by,
                quote_price,
            ),
    {
        if expand_by == 0 {
            return Ok(());
        }
        let supply: Balance = self.total_issuance(stable_currency_id);
        let serp_quote_multiple: Balance = T::serp_quote_multiple();
        let base_unit: Balance = Self::base_unit(stable_currency_id);
        let percent: Balance = T::percent();
        let supply_change: Balance = supply / expand_by;
        assert(0 <= supply_change * serp_quote_multiple) by (nonlinear_arith);
        let quote: Balance = supply_change * serp_quote_multiple;
        let grouped_quote: Balance = percent - quote;
        let pay_by_quoted: Balance = compute_payment(
            quote_price,
            percent,
            grouped_quote,
            base_unit,
            supply,
        );
        let serpers: AccountId = T::serper_acc();
        let native_account: AccountData = self.accounts(&serpers, native_currency_id);
        let stable_account: AccountData = self.accounts(&serpers, stable_currency_id);
        self.set_reserved_balance(
            native_currency_id,
            &serpers,
            native_account.reserved - pay_by_quoted,
        );
        self.set_reserved_balance(
            stable_currency_id,
            &serpers,
            stable_account.reserved + expand_by,
        );
        self.set_issuance(
            native_currency_id,
            self.total_issuance(native_currency_id) - pay_by_quoted,
        );
        self.set_issuance(stable_currency_id, self.total_issuance(stable_currency_id) + expand_by);
        Ok(())
    }

    /// Contracts the supply of a stable currency by `contract_by`: the serpers
    /// give it up from their reserve, and are paid for it with new native
    /// currency. `quote_price` is the price (relative to the settcurrency) of
    /// the native currency used to contract settcurrency supply.
    pub fn contract_supply(
        &mut self,
        native_currency_id: CurrencyId,
        stable_currency_id: CurrencyId,
        contract_by: Balance,
        quote_price: Balance,
    ) -> (r: Result<(), Error>)
        requires
            old(self)@.contract_fits::<T>(
                native_currency_id,
                stable_currency_id,
                contract_by,
                quote_price,
            ),
        ensures
            r is Ok,
            final(self)@ == old(self)@.contracted::<T>(
                native_currency_id,
                stable_currency_id,
                contract_by,
                quote_price,
            ),
    {
        if contract_by == 0 {
            return Ok(());
        }
        let supply: Balance = self.total_issuance(stable_currency_id);
        let serp_quote_multiple: Balance = T::serp_quote_multiple();
        let base_unit: Balance = Self::base_unit(stable_currency_id);
        let percent: Balance = T::percent();
        let supply_change: Balance = supply / contract_by;
        assert(0 <= supply_change * serp_quote_multiple) by (nonlinear_arith);
        let quote: Balance = supply_change * serp_quote_multiple;
        let grouped_quote: Balance = match percent.checked_sub(quote) {
            Some(difference) => difference,
            None => percent + quote,
        };
        let pay_by_quoted: Balance = compute_payment(
            quote_price,
            percent,
            grouped_quote,
            base_unit,
            supply,
        );
        let serpers: AccountId = T::serper_acc();
        let native_account: AccountData = self.accounts(&serpers, native_currency_id);
        let stable_account: AccountData = self.accounts(&serpers, stable_currency_id);
        self.set_reserved_balance(
            native_currency_id,
            &serpers,
            native_account.reserved + pay_by_quoted,
        );
        self.set_reserved_balance(
            stable_currency_id,
            &serpers,
            stable_account.reserved - contract_by,
        );
        self.set_issuance(
            stable_currency_id,
            self.total_issuance(stable_currency_id) - contract_by,
        );
        self.set_issuance(
            native_currency_id,
            self.total_issuance(native_currency_id) + pay_by_quoted,
        );
        Ok(())
    }
}

} // verus!
