use serp_tokens::account::AccountId;
use serp_tokens::config::Config;
use serp_tokens::dust::DustHandler;
use serp_tokens::pallet::Pallet;
use serp_tokens::types::{AccountData, Amount, Balance, BlockNumber, CurrencyId, Error};

const ALICE: AccountId = AccountId([1; 32]);
const BOB: AccountId = AccountId([2; 32]);
const SERPERS: AccountId = AccountId([9; 32]);

struct Runtime;

impl Config for Runtime {
    fn spec_existential_deposit(currency_id: CurrencyId) -> Balance {
        Self::existential_deposit(currency_id)
    }

    fn spec_base_unit(currency_id: CurrencyId) -> Balance {
        Self::base_unit(currency_id)
    }

    fn spec_adjustment_frequency() -> BlockNumber {
        Self::adjustment_frequency()
    }

    fn spec_serper_acc() -> AccountId {
        Self::serper_acc()
    }

    fn spec_serp_quote_multiple() -> Balance {
        Self::serp_quote_multiple()
    }

    fn spec_percent() -> Balance {
        Self::percent()
    }

    fn spec_on_dust() -> DustHandler {
        Self::on_dust()
    }

    fn existential_deposit(_currency_id: CurrencyId) -> Balance {
        2
    }

    fn base_unit(_currency_id: CurrencyId) -> Balance {
        100
    }

    fn adjustment_frequency() -> BlockNumber {
        0
    }

    fn serper_acc() -> AccountId {
        SERPERS
    }

    fn serp_quote_multiple() -> Balance {
        2
    }

    fn percent() -> Balance {
        100
    }

    fn on_dust() -> DustHandler {
        DustHandler::Ignore
    }
}

fn ledger() -> Pallet<Runtime> {
    let mut pallet = Pallet::new();
    assert_eq!(pallet.deposit(1, &ALICE, 100), Ok(()));
    pallet
}

#[test]
fn new_ledger_is_empty() {
    let pallet: Pallet<Runtime> = Pallet::new();
    assert_eq!(pallet.stored_account(&ALICE, 1), None);
    assert_eq!(pallet.accounts(&ALICE, 1), AccountData::default());
    assert_eq!(pallet.total_issuance(1), 0);
    assert_eq!(pallet.locks(&ALICE, 1), vec![]);
    assert!(pallet.currencies_of(&ALICE).is_empty());
}

#[test]
fn parameters_are_those_of_the_runtime() {
    assert_eq!(Pallet::<Runtime>::minimum_balance(1), 2);
    assert_eq!(Pallet::<Runtime>::base_unit(1), 100);
}

#[test]
fn deposit_adds_to_account_and_issuance() {
    let mut pallet = ledger();
    assert_eq!(pallet.free_balance(1, &ALICE), 100);
    assert_eq!(pallet.total_balance(1, &ALICE), 100);
    assert_eq!(pallet.total_issuance(1), 100);
    assert_eq!(pallet.total_issuance(2), 0);
    assert_eq!(pallet.deposit(1, &ALICE, 0), Ok(()));
    assert_eq!(pallet.total_issuance(1), 100);
}

#[test]
fn deposit_refuses_to_overflow_the_issuance() {
    let mut pallet = ledger();
    assert_eq!(
        pallet.deposit(1, &BOB, Balance::MAX),
        Err(Error::TotalIssuanceOverflow)
    );
    assert_eq!(pallet.stored_account(&BOB, 1), None);
    assert_eq!(pallet.total_issuance(1), 100);
    assert_eq!(pallet.deposit(1, &BOB, Balance::MAX - 100), Ok(()));
    assert_eq!(pallet.total_issuance(1), Balance::MAX);
}

#[test]
fn withdraw_takes_from_account_and_issuance() {
    let mut pallet = ledger();
    assert_eq!(pallet.withdraw(1, &ALICE, 30), Ok(()));
    assert_eq!(pallet.free_balance(1, &ALICE), 70);
    assert_eq!(pallet.total_issuance(1), 70);
    assert_eq!(pallet.withdraw(1, &ALICE, 71), Err(Error::BalanceTooLow));
    assert_eq!(pallet.withdraw(1, &ALICE, 70), Ok(()));
    assert_eq!(pallet.stored_account(&ALICE, 1), None);
    assert_eq!(pallet.total_issuance(1), 0);
}

#[test]
fn withdrawal_undoes_deposit() {
    let mut pallet = ledger();
    let before = pallet.accounts(&ALICE, 1);
    assert_eq!(pallet.deposit(1, &ALICE, 55), Ok(()));
    assert_eq!(pallet.withdraw(1, &ALICE, 55), Ok(()));
    assert_eq!(pallet.accounts(&ALICE, 1), before);
    assert_eq!(pallet.total_issuance(1), 100);
}

#[test]
fn transfer_moves() {
    let mut pallet = ledger();
    assert_eq!(pallet.currency_transfer(1, &ALICE, &BOB, 60), Ok(()));
    assert_eq!(pallet.free_balance(1, &ALICE), 40);
    assert_eq!(pallet.free_balance(1, &BOB), 60);
    assert_eq!(pallet.total_issuance(1), 100);
    assert_eq!(pallet.currency_transfer(1, &BOB, &ALICE, 60), Ok(()));
    assert_eq!(pallet.free_balance(1, &ALICE), 100);
    assert_eq!(pallet.stored_account(&BOB, 1), None);
}

#[test]
fn transfer_of_nothing_or_to_oneself_changes_nothing() {
    let mut pallet = ledger();
    pallet.take_effects();
    assert_eq!(pallet.currency_transfer(1, &BOB, &ALICE, 0), Ok(()));
    assert_eq!(pallet.currency_transfer(1, &ALICE, &ALICE, 1000), Ok(()));
    assert_eq!(pallet.free_balance(1, &ALICE), 100);
    assert_eq!(pallet.take_effects(), vec![]);
}

#[test]
fn transfer_fails_without_a_trace() {
    let mut pallet = ledger();
    pallet.take_effects();
    assert_eq!(
        pallet.currency_transfer(1, &ALICE, &BOB, 101),
        Err(Error::BalanceTooLow)
    );
    pallet.load_account(
        &BOB,
        1,
        AccountData {
            free: Balance::MAX,
            reserved: 0,
            frozen: 0,
        },
    );
    assert_eq!(
        pallet.currency_transfer(1, &ALICE, &BOB, 1),
        Err(Error::BalanceOverflow)
    );
    assert_eq!(pallet.free_balance(1, &ALICE), 100);
    assert_eq!(pallet.free_balance(1, &BOB), Balance::MAX);
    assert_eq!(pallet.take_effects(), vec![]);
}

#[test]
fn ensure_can_withdraw_minds_what_is_frozen() {
    let mut pallet = ledger();
    assert_eq!(pallet.set_lock([7; 8], 1, &ALICE, 80), Ok(()));
    assert_eq!(pallet.ensure_can_withdraw(1, &ALICE, 20), Ok(()));
    assert_eq!(
        pallet.ensure_can_withdraw(1, &ALICE, 21),
        Err(Error::LiquidityRestrictions)
    );
    assert_eq!(
        pallet.ensure_can_withdraw(1, &ALICE, 101),
        Err(Error::BalanceTooLow)
    );
    assert_eq!(pallet.ensure_can_withdraw(1, &BOB, 0), Ok(()));
    assert_eq!(pallet.accounts(&ALICE, 1).frozen(), 80);
}

#[test]
fn can_slash_looks_at_the_free_balance() {
    let mut pallet = ledger();
    assert_eq!(pallet.reserve(1, &ALICE, 40), Ok(()));
    assert!(pallet.can_slash(1, &ALICE, 60));
    assert!(!pallet.can_slash(1, &ALICE, 61));
    assert!(pallet.can_slash(1, &BOB, 0));
}

#[test]
fn slash_takes_free_first_then_reserved() {
    let mut pallet = ledger();
    assert_eq!(pallet.reserve(1, &ALICE, 40), Ok(()));
    assert_eq!(pallet.slash(1, &ALICE, 0), 0);
    assert_eq!(pallet.slash(1, &ALICE, 50), 0);
    assert_eq!(pallet.free_balance(1, &ALICE), 10);
    assert_eq!(pallet.reserved_balance(1, &ALICE), 40);
    assert_eq!(pallet.total_issuance(1), 50);
    assert_eq!(pallet.slash(1, &ALICE, 30), 0);
    assert_eq!(pallet.free_balance(1, &ALICE), 0);
    assert_eq!(pallet.reserved_balance(1, &ALICE), 20);
    assert_eq!(pallet.total_issuance(1), 20);
    assert_eq!(pallet.slash(1, &ALICE, 100), 80);
    assert_eq!(pallet.stored_account(&ALICE, 1), None);
    assert_eq!(pallet.total_issuance(1), 0);
}

#[test]
fn update_balance_adds_or_removes() {
    let mut pallet = ledger();
    assert_eq!(pallet.update_balance(1, &ALICE, 50), Ok(()));
    assert_eq!(pallet.free_balance(1, &ALICE), 150);
    assert_eq!(pallet.update_balance(1, &ALICE, 0), Ok(()));
    assert_eq!(pallet.update_balance(1, &ALICE, -70), Ok(()));
    assert_eq!(pallet.free_balance(1, &ALICE), 80);
    assert_eq!(pallet.total_issuance(1), 80);
    assert_eq!(
        pallet.update_balance(1, &ALICE, -81),
        Err(Error::BalanceTooLow)
    );
}

#[test]
fn update_balance_takes_the_largest_change_down_for_the_largest_up() {
    let mut pallet: Pallet<Runtime> = Pallet::new();
    assert_eq!(pallet.deposit(1, &ALICE, Amount::MAX as Balance + 5), Ok(()));
    assert_eq!(pallet.update_balance(1, &ALICE, Amount::MIN), Ok(()));
    assert_eq!(pallet.free_balance(1, &ALICE), 5);
}

#[test]
fn other_currencies_are_left_alone() {
    let mut pallet = ledger();
    assert_eq!(pallet.deposit(2, &ALICE, 7), Ok(()));
    assert_eq!(pallet.currency_transfer(1, &ALICE, &BOB, 60), Ok(()));
    assert_eq!(pallet.slash(1, &ALICE, 10), 0);
    assert_eq!(pallet.free_balance(2, &ALICE), 7);
    assert_eq!(pallet.total_issuance(2), 7);
    assert_eq!(pallet.currencies_of(&ALICE), vec![1, 2]);
}

#[test]
fn issuance_is_what_the_accounts_hold() {
    let mut pallet = ledger();
    assert_eq!(pallet.deposit(1, &BOB, 300), Ok(()));
    assert_eq!(pallet.reserve(1, &BOB, 120), Ok(()));
    assert_eq!(pallet.currency_transfer(1, &BOB, &ALICE, 11), Ok(()));
    assert_eq!(pallet.slash(1, &BOB, 180), 0);
    assert_eq!(pallet.withdraw(1, &ALICE, 9), Ok(()));
    let held = pallet.total_balance(1, &ALICE) + pallet.total_balance(1, &BOB);
    assert_eq!(held, 211);
    assert_eq!(pallet.total_issuance(1), held);
}
