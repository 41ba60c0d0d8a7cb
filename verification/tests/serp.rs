use serp_tokens::account::AccountId;
use serp_tokens::config::Config;
use serp_tokens::dust::DustHandler;
use serp_tokens::pallet::Pallet;
use serp_tokens::types::{Balance, BlockNumber, CurrencyId};

const ALICE: AccountId = AccountId([1; 32]);
const SERPERS: AccountId = AccountId([9; 32]);
const NATIVE: CurrencyId = 0;
const STABLE: CurrencyId = 1;

struct Runtime;

impl Config for Runtime {
    fn spec_existential_deposit(currency_id: CurrencyId) -> Balance {
        Self::existential_deposit(currency_id)
    }

    fn spec_base_unit(currency_id: CurrencyId) -> Balance {
        Self::base_unit(currency_id)
    }

    fn spec_adjustment_frequency() -> BlockNumber {
        Self::adjustment_frequency()
    }

    fn spec_serper_acc() -> AccountId {
        Self::serper_acc()
    }

    fn spec_serp_quote_multiple() -> Balance {
        Self::serp_quote_multiple()
    }

    fn spec_percent() -> Balance {
        Self::percent()
    }

    fn spec_on_dust() -> DustHandler {
        Self::on_dust()
    }

    fn existential_deposit(_currency_id: CurrencyId) -> Balance {
        2
    }

    fn base_unit(_currency_id: CurrencyId) -> Balance {
        100
    }

    fn adjustment_frequency() -> BlockNumber {
        0
    }

    fn serper_acc() -> AccountId {
        SERPERS
    }

    fn serp_quote_multiple() -> Balance {
        2
    }

    fn percent() -> Balance {
        100
    }

    fn on_dust() -> DustHandler {
        DustHandler::Ignore
    }
}

/// Adjusts no supply at a block.
struct Seldom;

impl Config for Seldom {
    fn spec_existential_deposit(currency_id: CurrencyId) -> Balance {
        Self::existential_deposit(currency_id)
    }

    fn spec_base_unit(currency_id: CurrencyId) -> Balance {
        Self::base_unit(currency_id)
    }

    fn spec_adjustment_frequency() -> BlockNumber {
        Self::adjustment_frequency()
    }

    fn spec_serper_acc() -> AccountId {
        Self::serper_acc()
    }

    fn spec_serp_quote_multiple() -> Balance {
        Self::serp_quote_multiple()
    }

    fn spec_percent() -> Balance {
        Self::percent()
    }

    fn spec_on_dust() -> DustHandler {
        Self::on_dust()
    }

    fn existential_deposit(_currency_id: CurrencyId) -> Balance {
        2
    }

    fn base_unit(_currency_id: CurrencyId) -> Balance {
        100
    }

    fn adjustment_frequency() -> BlockNumber {
        10
    }

    fn serper_acc() -> AccountId {
        SERPERS
    }

    fn serp_quote_multiple() -> Balance {
        2
    }

    fn percent() -> Balance {
        100
    }

    fn on_dust() -> DustHandler {
        DustHandler::Ignore
    }
}

fn ledger<T: Config>() -> Pallet<T> {
    let mut pallet = Pallet::new();
    assert_eq!(pallet.deposit(NATIVE, &SERPERS, 10_000), Ok(()));
    assert_eq!(pallet.reserve(NATIVE, &SERPERS, 5_000), Ok(()));
    assert_eq!(pallet.deposit(STABLE, &SERPERS, 600), Ok(()));
    assert_eq!(pallet.reserve(STABLE, &SERPERS, 500), Ok(()));
    assert_eq!(pallet.deposit(STABLE, &ALICE, 400), Ok(()));
    pallet
}

/// The supplies and what the serpers have in reserve, native and stable.
fn figures<T: Config>(pallet: &Pallet<T>) -> (Balance, Balance, Balance, Balance) {
    (
        pallet.total_issuance(NATIVE),
        pallet.total_issuance(STABLE),
        pallet.reserved_balance(NATIVE, &SERPERS),
        pallet.reserved_balance(STABLE, &SERPERS),
    )
}

#[test]
fn supply_change_is_the_distance_to_the_target() {
    let pallet: Pallet<Runtime> = ledger();
    assert_eq!(pallet.supply_change(STABLE, 110), 100);
    assert_eq!(pallet.supply_change(STABLE, 90), 100);
    assert_eq!(pallet.supply_change(STABLE, 100), 0);
    assert_eq!(pallet.supply_change(STABLE, 0), 1_000);
    assert_eq!(pallet.supply_change(STABLE, 250), 1_500);
}

#[test]
fn expand_supply_is_paid_from_the_native_reserve() {
    let mut pallet: Pallet<Runtime> = ledger();
    assert_eq!(pallet.expand_supply(NATIVE, STABLE, 100, 200_000), Ok(()));
    assert_eq!(figures(&pallet), (9_840, 1_100, 4_840, 600));
}

#[test]
fn contract_supply_pays_into_the_native_reserve() {
    let mut pallet: Pallet<Runtime> = ledger();
    assert_eq!(pallet.contract_supply(NATIVE, STABLE, 100, 200_000), Ok(()));
    assert_eq!(figures(&pallet), (10_160, 900, 5_160, 400));
}

#[test]
fn a_quote_over_a_hundred_percent_adds_to_a_contraction() {
    let mut pallet: Pallet<Runtime> = ledger();
    assert_eq!(pallet.contract_supply(NATIVE, STABLE, 10, 200_000), Ok(()));
    assert_eq!(figures(&pallet), (10_600, 990, 5_600, 490));
}

#[test]
fn a_change_by_nothing_changes_nothing() {
    let mut pallet: Pallet<Runtime> = ledger();
    let before = figures(&pallet);
    assert_eq!(pallet.expand_supply(NATIVE, STABLE, 0, 200_000), Ok(()));
    assert_eq!(pallet.contract_supply(NATIVE, STABLE, 0, 200_000), Ok(()));
    assert_eq!(figures(&pallet), before);
}

#[test]
fn serp_elast_follows_the_price() {
    let mut pallet: Pallet<Runtime> = ledger();
    assert_eq!(pallet.serp_elast(STABLE, 100, NATIVE, 200_000), Ok(()));
    assert_eq!(figures(&pallet), (10_000, 1_000, 5_000, 500));
    assert_eq!(pallet.serp_elast(STABLE, 110, NATIVE, 200_000), Ok(()));
    assert_eq!(figures(&pallet), (9_840, 1_100, 4_840, 600));
    let mut pallet: Pallet<Runtime> = ledger();
    assert_eq!(pallet.serp_elast(STABLE, 90, NATIVE, 200_000), Ok(()));
    assert_eq!(figures(&pallet), (10_160, 900, 5_160, 400));
}

#[test]
fn on_serp_block_minds_the_frequency() {
    let mut pallet: Pallet<Runtime> = ledger();
    assert_eq!(pallet.on_serp_block(7, STABLE, 110, NATIVE, 200_000), Ok(()));
    assert_eq!(figures(&pallet), (9_840, 1_100, 4_840, 600));
    let mut pallet: Pallet<Seldom> = ledger();
    assert_eq!(pallet.on_serp_block(7, STABLE, 110, NATIVE, 200_000), Ok(()));
    assert_eq!(figures(&pallet), (10_000, 1_000, 5_000, 500));
}

#[test]
fn the_supply_is_what_is_held_after_an_adjustment() {
    let mut pallet: Pallet<Runtime> = ledger();
    assert_eq!(pallet.serp_elast(STABLE, 137, NATIVE, 200_000), Ok(()));
    for currency_id in [NATIVE, STABLE].iter() {
        assert_eq!(
            pallet.total_issuance(*currency_id),
            pallet.total_balance(*currency_id, &SERPERS)
                + pallet.total_balance(*currency_id, &ALICE)
        );
    }
    assert_eq!(pallet.total_issuance(STABLE), 1_370);
}
