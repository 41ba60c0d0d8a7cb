//! What a runtime supplies to the ledger.
use crate::account::AccountId;
use crate::dust::DustHandler;
use crate::types::{Balance, BlockNumber, CurrencyId};
use vstd::prelude::*;

verus! {

/// The parameters of a ledger. Each is a fixed function of its arguments.
pub trait Config: Sized {
    /// See [`Config::existential_deposit`].
    spec fn spec_existential_deposit(currency_id: CurrencyId) -> Balance;

    /// See [`Config::base_unit`].
    spec fn spec_base_unit(currency_id: CurrencyId) -> Balance;

    /// See [`Config::adjustment_frequency`].
    spec fn spec_adjustment_frequency() -> BlockNumber;

    /// See [`Config::serper_acc`].
    spec fn spec_serper_acc() -> AccountId;

    /// See [`Config::serp_quote_multiple`].
    spec fn spec_serp_quote_multiple() -> Balance;

    /// See [`Config::percent`].
    spec fn spec_percent() -> Balance;

    /// See [`Config::on_dust`].
    spec fn spec_on_dust() -> DustHandler;

    /// The minimum amount required to keep an account.
    fn existential_deposit(currency_id: CurrencyId) -> (r: Balance)
        ensures
            r == Self::spec_existential_deposit(currency_id),
    ;

    /// The base unit of a currency
    fn base_unit(currency_id: CurrencyId) -> (r: Balance)
        ensures
            r == Self::spec_base_unit(currency_id),
    ;

    /// The frequency of supply adjustments
    fn adjustment_frequency() -> (r: BlockNumber)
        ensures
            r == Self::spec_adjustment_frequency(),
    ;

    /// The account of the serpers
    fn serper_acc() -> (r: AccountId)
        ensures
            r == Self::spec_serper_acc(),
    ;

    /// The multiple number for the serp quote.
    fn serp_quote_multiple() -> (r: Balance)
        ensures
            r == Self::spec_serp_quote_multiple(),
    ;

    /// The number that stands for a hundred percent in a quote.
    fn percent() -> (r: Balance)
        ensures
            r == Self::spec_percent(),
    ;

    /// Handler to burn or transfer account's dust
    fn on_dust() -> (r: DustHandler)
        ensures
            r == Self::spec_on_dust(),
    ;
}

} // verus!
