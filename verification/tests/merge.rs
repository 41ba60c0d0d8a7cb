use serp_tokens::account::AccountId;
use serp_tokens::config::Config;
use serp_tokens::dust::DustHandler;
use serp_tokens::pallet::Pallet;
use serp_tokens::types::{AccountData, Balance, BlockNumber, CurrencyId, Error};

const ALICE: AccountId = AccountId([1; 32]);
const BOB: AccountId = AccountId([2; 32]);
const SERPERS: AccountId = AccountId([9; 32]);

struct Runtime;

impl Config for Runtime {
    fn spec_existential_deposit(currency_id: CurrencyId) -> Balance {
        Self::existential_deposit(currency_id)
    }

    fn spec_base_unit(currency_id: CurrencyId) -> Balance {
        Self::base_unit(currency_id)
    }

    fn spec_adjustment_frequency() -> BlockNumber {
        Self::adjustment_frequency()
    }

    fn spec_serper_acc() -> AccountId {
        Self::serper_acc()
    }

    fn spec_serp_quote_multiple() -> Balance {
        Self::serp_quote_multiple()
    }

    fn spec_percent() -> Balance {
        Self::percent()
    }

    fn spec_on_dust() -> DustHandler {
        Self::on_dust()
    }

    fn existential_deposit(_currency_id: CurrencyId) -> Balance {
        2
    }

    fn base_unit(_currency_id: CurrencyId) -> Balance {
        100
    }

    fn adjustment_frequency() -> BlockNumber {
        0
    }

    fn serper_acc() -> AccountId {
        SERPERS
    }

    fn serp_quote_multiple() -> Balance {
        2
    }

    fn percent() -> Balance {
        100
    }

    fn on_dust() -> DustHandler {
        DustHandler::Ignore
    }
}

fn ledger() -> Pallet<Runtime> {
    let mut pallet = Pallet::new();
    assert_eq!(pallet.deposit(1, &ALICE, 100), Ok(()));
    assert_eq!(pallet.deposit(2, &ALICE, 50), Ok(()));
    assert_eq!(pallet.deposit(2, &BOB, 7), Ok(()));
    assert_eq!(pallet.deposit(3, &BOB, 9), Ok(()));
    pallet.take_effects();
    pallet
}

#[test]
fn merge_account_moves_everything() {
    let mut pallet = ledger();
    assert_eq!(pallet.merge_account(&ALICE, &BOB), Ok(()));
    assert!(pallet.currencies_of(&ALICE).is_empty());
    assert_eq!(pallet.free_balance(1, &BOB), 100);
    assert_eq!(pallet.free_balance(2, &BOB), 57);
    assert_eq!(pallet.free_balance(3, &BOB), 9);
    assert_eq!(pallet.total_issuance(1), 100);
    assert_eq!(pallet.total_issuance(2), 57);
}

#[test]
fn merge_account_of_nothing_changes_nothing() {
    let mut pallet = ledger();
    let nobody = AccountId([3; 32]);
    assert_eq!(pallet.merge_account(&nobody, &BOB), Ok(()));
    assert_eq!(pallet.take_effects(), vec![]);
}

#[test]
fn merge_refuses_what_is_reserved_and_undoes_the_rest() {
    let mut pallet = ledger();
    assert_eq!(pallet.reserve(2, &ALICE, 10), Ok(()));
    pallet.take_effects();
    assert_eq!(
        pallet.merge_account_in_order(&ALICE, &BOB, &vec![1, 2]),
        Err(Error::StillHasActiveReserved)
    );
    assert_eq!(
        pallet.merge_account(&ALICE, &BOB),
        Err(Error::StillHasActiveReserved)
    );
    assert_eq!(pallet.free_balance(1, &ALICE), 100);
    assert_eq!(pallet.stored_account(&BOB, 1), None);
    assert_eq!(pallet.free_balance(2, &ALICE), 40);
    assert_eq!(pallet.take_effects(), vec![]);
}

#[test]
fn merge_refuses_what_is_locked() {
    let mut pallet = ledger();
    assert_eq!(pallet.set_lock([7; 8], 2, &ALICE, 1), Ok(()));
    assert_eq!(
        pallet.merge_account(&ALICE, &BOB),
        Err(Error::LiquidityRestrictions)
    );
    assert_eq!(pallet.free_balance(1, &ALICE), 100);
}

#[test]
fn the_order_decides_which_failure_comes_first() {
    let mut pallet = ledger();
    assert_eq!(pallet.reserve(2, &ALICE, 10), Ok(()));
    pallet.load_account(
        &BOB,
        1,
        AccountData {
            free: Balance::MAX,
            reserved: 0,
            frozen: 0,
        },
    );
    assert_eq!(
        pallet.merge_account_in_order(&ALICE, &BOB, &vec![1, 2]),
        Err(Error::BalanceOverflow)
    );
    assert_eq!(
        pallet.merge_account_in_order(&ALICE, &BOB, &vec![2, 1]),
        Err(Error::StillHasActiveReserved)
    );
}
