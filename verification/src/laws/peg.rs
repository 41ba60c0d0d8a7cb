//! The elastic supply follows the price.
use crate::config::Config;
use crate::laws::backing::under;
use crate::serp::{lemma_target_supply, target_supply};
use crate::state::State;
use crate::types::{AccountData, Balance, CurrencyId};
use vstd::prelude::*;

verus! {

/// The supply grows if the price is above the base unit, shrinks if it is below,
/// and stays if it is at the base unit.
pub proof fn law_target_follows_price(supply: int, price: int, base_unit: int)
    requires
        0 <= supply,
        0 <= price,
        0 < base_unit,
    ensures
        price >= base_unit ==> target_supply(supply, price, base_unit) >= supply,
        price <= base_unit ==> target_supply(supply, price, base_unit) <= supply,
        price == base_unit ==> target_supply(supply, price, base_unit) == supply,
        0 <= target_supply(supply, price, base_unit),
{
    lemma_target_supply(supply, price, base_unit);
}

impl State {
    /// A price at the base unit changes nothing.
    pub proof fn law_stable_price_changes_nothing<T: Config>(
        self,
        stable_currency_id: CurrencyId,
        native_currency_id: CurrencyId,
        native_currency_price: Balance,
    )
        ensures
            self.adjusted::<T>(
                stable_currency_id,
                T::spec_base_unit(stable_currency_id),
                native_currency_id,
                native_currency_price,
            ) == self,
    {
    }

    /// An expansion adds the amount to the stable supply and to what the serpers
    /// have of it in reserve, and takes the payment from their native reserve
    /// and, with the dust that it burns, from the native supply.
    pub proof fn law_expansion_changes_supplies<T: Config>(
        self,
        native_currency_id: CurrencyId,
        stable_currency_id: CurrencyId,
        expand_by: Balance,
        quote_price: Balance,
    )
        requires
            expand_by != 0,
            native_currency_id != stable_currency_id,
            self.expand_fits::<T>(native_currency_id, stable_currency_id, expand_by, quote_price),
        ensures
            ({
                let serpers = T::spec_serper_acc();
                let pay = self.expansion_payment::<T>(stable_currency_id, expand_by, quote_price);
                let native = self.account(serpers, native_currency_id);
                let stable = self.account(serpers, stable_currency_id);
                let less = AccountData { reserved: (native.reserved - pay) as Balance, ..native };
                let t = self.expanded::<T>(
                    native_currency_id,
                    stable_currency_id,
                    expand_by,
                    quote_price,
                );
                &&& t.account(serpers, stable_currency_id) == self.bound(
                    serpers,
                    stable_currency_id,
                    AccountData {
                        reserved: (stable.reserved + expand_by) as Balance,
                        ..stable
                    },
                )
                &&& t.account(serpers, native_currency_id).reserved == native.reserved - pay
                &&& forall|c: CurrencyId| #[trigger]
                    t.total_issuance(c) == self.total_issuance(c) + under(
                        stable_currency_id,
                        c,
                        expand_by as int,
                    ) - under(
                        native_currency_id,
                        c,
                        pay + self.burned::<T>(serpers, native_currency_id, less),
                    )
            }),
    {
        let serpers = T::spec_serper_acc();
        let pay = self.expansion_payment::<T>(stable_currency_id, expand_by, quote_price);
        let native = self.account(serpers, native_currency_id);
        let stable = self.account(serpers, stable_currency_id);
        let less = AccountData { reserved: (native.reserved - pay) as Balance, ..native };
        let more = AccountData { reserved: (stable.reserved + expand_by) as Balance, ..stable };
        let s = self.put_account::<T>(serpers, native_currency_id, less);
        self.lemma_put_entries::<T>(serpers, native_currency_id, less);
        assert(s.account(serpers, stable_currency_id) == stable);
        self.lemma_put_elsewhere::<T>(serpers, native_currency_id, less);
        assert(s.bound(serpers, stable_currency_id, more) == self.bound(
            serpers,
            stable_currency_id,
            more,
        ));
        let u = s.put_account::<T>(serpers, stable_currency_id, more);
        assert(!s.dust_leaves::<T>(serpers, stable_currency_id, more)) by {
            if s.dust_leaves::<T>(serpers, stable_currency_id, more) {
                s.lemma_put_entries::<T>(serpers, stable_currency_id, more);
            }
        }
        s.lemma_put_entries::<T>(serpers, stable_currency_id, more);
        let t = self.expanded::<T>(native_currency_id, stable_currency_id, expand_by, quote_price);
        assert(t.accounts == u.accounts);
        assert(u.account(serpers, native_currency_id) == s.account(serpers, native_currency_id));
        assert forall|c: CurrencyId| #[trigger]
            t.total_issuance(c) == self.total_issuance(c) + under(
                stable_currency_id,
                c,
                expand_by as int,
            ) - under(
                native_currency_id,
                c,
                pay + self.burned::<T>(serpers, native_currency_id, less),
            ) by {
            assert(u.total_issuance(c) == s.total_issuance(c));
            assert(s.total_issuance(c) == self.total_issuance(c) - under(
                native_currency_id,
                c,
                self.burned::<T>(serpers, native_currency_id, less),
            ));
        }
    }

    /// A contraction takes the amount from what the serpers have in reserve of
    /// the stable currency and, with the dust that it burns, from the stable
    /// supply, and adds the payment to their native reserve and to the native
    /// supply.
    pub proof fn law_contraction_changes_supplies<T: Config>(
        self,
        native_currency_id: CurrencyId,
        stable_currency_id: CurrencyId,
        contract_by: Balance,
        quote_price: Balance,
    )
        requires
            contract_by != 0,
            native_currency_id != stable_currency_id,
            self.contract_fits::<T>(
                native_currency_id,
                stable_currency_id,
                contract_by,
                quote_price,
            ),
        ensures
            ({
                let serpers = T::spec_serper_acc();
                let pay = self.contraction_payment::<T>(
                    stable_currency_id,
                    contract_by,
                    quote_price,
                );
                let native = self.account(serpers, native_currency_id);
                let stable = self.account(serpers, stable_currency_id);
                let more = AccountData { reserved: (native.reserved + pay) as Balance, ..native };
                let less = AccountData {
                    reserved: (stable.reserved - contract_by) as Balance,
                    ..stable
                };
                let s = self.put_account::<T>(serpers, native_currency_id, more);
                let t = self.contracted::<T>(
                    native_currency_id,
                    stable_currency_id,
                    contract_by,
                    quote_price,
                );
                &&& t.account(serpers, stable_currency_id).reserved == stable.reserved
                    - contract_by
                &&& t.account(serpers, native_currency_id).reserved == native.reserved + pay
                &&& forall|c: CurrencyId| #[trigger]
                    t.total_issuance(c) == self.total_issuance(c) - under(
                        stable_currency_id,
                        c,
                        contract_by + s.burned::<T>(serpers, stable_currency_id, less),
                    ) + under(
                        native_currency_id,
                        c,
                        pay - self.burned::<T>(serpers, native_currency_id, more),
                    )
            }),
    {
        let serpers = T::spec_serper_acc();
        let pay = self.contraction_payment::<T>(stable_currency_id, contract_by, quote_price);
        let native = self.account(serpers, native_currency_id);
        let stable = self.account(serpers, stable_currency_id);
        let more = AccountData { reserved: (native.reserved + pay) as Balance, ..native };
        let less = AccountData { reserved: (stable.reserved - contract_by) as Balance, ..stable };
        let s = self.put_account::<T>(serpers, native_currency_id, more);
        self.lemma_put_entries::<T>(serpers, native_currency_id, more);
        assert(s.account(serpers, stable_currency_id) == stable);
        let u = s.put_account::<T>(serpers, stable_currency_id, less);
        s.lemma_put_entries::<T>(serpers, stable_currency_id, less);
        let t = self.contracted::<T>(
            native_currency_id,
            stable_currency_id,
            contract_by,
            quote_price,
        );
        assert(t.accounts == u.accounts);
        assert(u.account(serpers, native_currency_id) == s.account(serpers, native_currency_id));
        assert forall|c: CurrencyId| #[trigger]
            t.total_issuance(c) == self.total_issuance(c) - under(
                stable_currency_id,
                c,
                contract_by + s.burned::<T>(serpers, stable_currency_id, less),
            ) + under(
                native_currency_id,
                c,
                pay - self.burned::<T>(serpers, native_currency_id, more),
            ) by {
            assert(u.total_issuance(c) == s.total_issuance(c) - under(
                stable_currency_id,
                c,
                s.burned::<T>(serpers, stable_currency_id, less),
            ));
            assert(s.total_issuance(c) == self.total_issuance(c) - under(
                native_currency_id,
                c,
                self.burned::<T>(serpers, native_currency_id, more),
            ));
        }
    }

    /// An adjustment brings the supply of a currency to exactly what its price
    /// asks for, less the dust that a contraction may burn.
    pub proof fn law_adjustment_reaches_target<T: Config>(
        self,
        stable_currency_id: CurrencyId,
        stable_currency_price: Balance,
        native_currency_id: CurrencyId,
        native_currency_price: Balance,
    )
        requires
            native_currency_id != stable_currency_id,
            T::spec_base_unit(stable_currency_id) != 0,
            self.adjust_fits::<T>(
                stable_currency_id,
                stable_currency_price,
                native_currency_id,
                native_currency_price,
            ),
        ensures
            ({
                let base_unit = T::spec_base_unit(stable_currency_id);
                let supply = self.total_issuance(stable_currency_id);
                let serpers = T::spec_serper_acc();
                let change = self.supply_off::<T>(stable_currency_id, stable_currency_price);
                let pay = self.contraction_payment::<T>(
                    stable_currency_id,
                    change,
                    native_currency_price,
                );
                let native = self.account(serpers, native_currency_id);
                let stable = self.account(serpers, stable_currency_id);
                let more = AccountData { reserved: (native.reserved + pay) as Balance, ..native };
                let less = AccountData {
                    reserved: (stable.reserved - change) as Balance,
                    ..stable
                };
                let burned = if stable_currency_price < base_unit && change != 0 {
                    self.put_account::<T>(serpers, native_currency_id, more).burned::<T>(
                        serpers,
                        stable_currency_id,
                        less,
                    )
                } else {
                    0
                };
                self.adjusted::<T>(
                    stable_currency_id,
                    stable_currency_price,
                    native_currency_id,
                    native_currency_price,
                ).total_issuance(stable_currency_id) == target_supply(
                    supply as int,
                    stable_currency_price as int,
                    base_unit as int,
                ) - burned
            }),
    {
        let base_unit = T::spec_base_unit(stable_currency_id);
        let supply = self.total_issuance(stable_currency_id);
        let change = self.supply_off::<T>(stable_currency_id, stable_currency_price);
        lemma_target_supply(supply as int, stable_currency_price as int, base_unit as int);
        if change != 0 {
            if stable_currency_price > base_unit {
                self.law_expansion_changes_supplies::<T>(
                    native_currency_id,
                    stable_currency_id,
                    change,
                    native_currency_price,
                );
            } else if stable_currency_price < base_unit {
                self.law_contraction_changes_supplies::<T>(
                    native_currency_id,
                    stable_currency_id,
                    change,
                    native_currency_price,
                );
            }
        }
    }
}

} // verus!
