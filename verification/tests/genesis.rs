use serp_tokens::account::AccountId;
use serp_tokens::config::Config;
use serp_tokens::dust::DustHandler;
use serp_tokens::genesis::{GenesisConfig, GenesisError};
use serp_tokens::pallet::Pallet;
use serp_tokens::types::{Balance, BlockNumber, CurrencyId, Effect};

const ALICE: AccountId = AccountId([1; 32]);
const BOB: AccountId = AccountId([2; 32]);
const SERPERS: AccountId = AccountId([9; 32]);

struct Runtime;

impl Config for Runtime {
    fn spec_existential_deposit(currency_id: CurrencyId) -> Balance {
        Self::existential_deposit(currency_id)
    }

    fn spec_base_unit(currency_id: CurrencyId) -> Balance {
        Self::base_unit(currency_id)
    }

    fn spec_adjustment_frequency() -> BlockNumber {
        Self::adjustment_frequency()
    }

    fn spec_serper_acc() -> AccountId {
        Self::serper_acc()
    }

    fn spec_serp_quote_multiple() -> Balance {
        Self::serp_quote_multiple()
    }

    fn spec_percent() -> Balance {
        Self::percent()
    }

    fn spec_on_dust() -> DustHandler {
        Self::on_dust()
    }

    fn existential_deposit(_currency_id: CurrencyId) -> Balance {
        2
    }

    fn base_unit(_currency_id: CurrencyId) -> Balance {
        100
    }

    fn adjustment_frequency() -> BlockNumber {
        0
    }

    fn serper_acc() -> AccountId {
        SERPERS
    }

    fn serp_quote_multiple() -> Balance {
        2
    }

    fn percent() -> Balance {
        100
    }

    fn on_dust() -> DustHandler {
        DustHandler::Ignore
    }
}

#[test]
fn nobody_is_endowed_by_default() {
    let genesis = GenesisConfig::default();
    let mut pallet: Pallet<Runtime> = Pallet::new();
    assert_eq!(genesis.endowed_accounts, vec![]);
    assert_eq!(genesis.validate(&pallet), Ok(()));
    genesis.build(&mut pallet);
    assert_eq!(pallet.take_effects(), vec![]);
}

#[test]
fn build_endows() {
    let genesis = GenesisConfig {
        endowed_accounts: vec![(ALICE, 1, 100), (BOB, 1, 2), (ALICE, 2, 50)],
    };
    let mut pallet: Pallet<Runtime> = Pallet::new();
    assert_eq!(genesis.validate(&pallet), Ok(()));
    genesis.build(&mut pallet);
    assert_eq!(pallet.free_balance(1, &ALICE), 100);
    assert_eq!(pallet.free_balance(1, &BOB), 2);
    assert_eq!(pallet.free_balance(2, &ALICE), 50);
    assert_eq!(pallet.total_issuance(1), 102);
    assert_eq!(pallet.total_issuance(2), 50);
    assert_eq!(
        pallet.take_effects(),
        vec![
            Effect::IncProviders(ALICE),
            Effect::IncProviders(BOB),
            Effect::IncProviders(ALICE),
        ]
    );
}

#[test]
fn nobody_is_endowed_twice() {
    let pallet: Pallet<Runtime> = Pallet::new();
    let genesis = GenesisConfig {
        endowed_accounts: vec![(ALICE, 1, 1), (BOB, 1, 100), (ALICE, 1, 50)],
    };
    assert_eq!(
        genesis.validate(&pallet),
        Err(GenesisError::DuplicateEndowedAccounts)
    );
}

#[test]
fn nobody_is_endowed_with_dust() {
    let pallet: Pallet<Runtime> = Pallet::new();
    let genesis = GenesisConfig {
        endowed_accounts: vec![(ALICE, 1, 100), (BOB, 1, 1)],
    };
    assert_eq!(
        genesis.validate(&pallet),
        Err(GenesisError::BelowExistentialDeposit)
    );
}

#[test]
fn no_issuance_overflows() {
    let pallet: Pallet<Runtime> = Pallet::new();
    let genesis = GenesisConfig {
        endowed_accounts: vec![
            (ALICE, 1, Balance::MAX - 2),
            (ALICE, 2, Balance::MAX),
            (BOB, 1, 3),
            (BOB, 2, 1),
        ],
    };
    assert_eq!(
        genesis.validate(&pallet),
        Err(GenesisError::TotalIssuanceOverflow)
    );
    let genesis = GenesisConfig {
        endowed_accounts: vec![(ALICE, 1, Balance::MAX - 2), (BOB, 1, 2)],
    };
    assert_eq!(genesis.validate(&pallet), Ok(()));
}
