use serp_tokens::account::AccountId;
use serp_tokens::config::Config;
use serp_tokens::dust::DustHandler;
use serp_tokens::pallet::Pallet;
use serp_tokens::types::{AccountData, Balance, BalanceStatus, BlockNumber, CurrencyId, Error};

const ALICE: AccountId = AccountId([1; 32]);
const BOB: AccountId = AccountId([2; 32]);
const SERPERS: AccountId = AccountId([9; 32]);

struct Runtime;

impl Config for Runtime {
    fn spec_existential_deposit(currency_id: CurrencyId) -> Balance {
        Self::existential_deposit(currency_id)
    }

    fn spec_base_unit(currency_id: CurrencyId) -> Balance {
        Self::base_unit(currency_id)
    }

    fn spec_adjustment_frequency() -> BlockNumber {
        Self::adjustment_frequency()
    }

    fn spec_serper_acc() -> AccountId {
        Self::serper_acc()
    }

    fn spec_serp_quote_multiple() -> Balance {
        Self::serp_quote_multiple()
    }

    fn spec_percent() -> Balance {
        Self::percent()
    }

    fn spec_on_dust() -> DustHandler {
        Self::on_dust()
    }

    fn existential_deposit(_currency_id: CurrencyId) -> Balance {
        2
    }

    fn base_unit(_currency_id: CurrencyId) -> Balance {
        100
    }

    fn adjustment_frequency() -> BlockNumber {
        0
    }

    fn serper_acc() -> AccountId {
        SERPERS
    }

    fn serp_quote_multiple() -> Balance {
        2
    }

    fn percent() -> Balance {
        100
    }

    fn on_dust() -> DustHandler {
        DustHandler::Ignore
    }
}

fn ledger() -> Pallet<Runtime> {
    let mut pallet = Pallet::new();
    assert_eq!(pallet.deposit(1, &ALICE, 100), Ok(()));
    assert_eq!(pallet.deposit(1, &BOB, 10), Ok(()));
    pallet
}

#[test]
fn can_reserve_what_can_be_withdrawn() {
    let mut pallet = ledger();
    assert!(pallet.can_reserve(1, &ALICE, 100));
    assert!(!pallet.can_reserve(1, &ALICE, 101));
    assert!(pallet.can_reserve(1, &ALICE, 0));
    assert_eq!(pallet.set_lock([7; 8], 1, &ALICE, 60), Ok(()));
    assert!(pallet.can_reserve(1, &ALICE, 40));
    assert!(!pallet.can_reserve(1, &ALICE, 41));
}

#[test]
fn reserve_moves_free_to_reserved() {
    let mut pallet = ledger();
    assert_eq!(pallet.reserve(1, &ALICE, 60), Ok(()));
    assert_eq!(pallet.free_balance(1, &ALICE), 40);
    assert_eq!(pallet.reserved_balance(1, &ALICE), 60);
    assert_eq!(pallet.total_balance(1, &ALICE), 100);
    assert_eq!(pallet.total_issuance(1), 110);
    assert_eq!(pallet.reserve(1, &ALICE, 41), Err(Error::BalanceTooLow));
    assert_eq!(pallet.reserve(1, &ALICE, 0), Ok(()));
    assert_eq!(pallet.reserved_balance(1, &ALICE), 60);
}

#[test]
fn reserve_refuses_what_is_locked() {
    let mut pallet = ledger();
    assert_eq!(pallet.set_lock([7; 8], 1, &ALICE, 60), Ok(()));
    assert_eq!(
        pallet.reserve(1, &ALICE, 41),
        Err(Error::LiquidityRestrictions)
    );
}

#[test]
fn unreserve_undoes_reserve() {
    let mut pallet = ledger();
    let before = pallet.accounts(&ALICE, 1);
    assert_eq!(pallet.reserve(1, &ALICE, 60), Ok(()));
    assert_eq!(pallet.unreserve(1, &ALICE, 60), 0);
    assert_eq!(pallet.accounts(&ALICE, 1), before);
}

#[test]
fn unreserve_returns_what_was_not_reserved() {
    let mut pallet = ledger();
    assert_eq!(pallet.reserve(1, &ALICE, 60), Ok(()));
    assert_eq!(pallet.unreserve(1, &ALICE, 0), 0);
    assert_eq!(pallet.unreserve(1, &ALICE, 75), 15);
    assert_eq!(
        pallet.accounts(&ALICE, 1),
        AccountData {
            free: 100,
            reserved: 0,
            frozen: 0
        }
    );
}

#[test]
fn slash_reserved_takes_from_reserve_and_issuance() {
    let mut pallet = ledger();
    assert_eq!(pallet.reserve(1, &ALICE, 60), Ok(()));
    assert_eq!(pallet.slash_reserved(1, &ALICE, 0), 0);
    assert_eq!(pallet.slash_reserved(1, &ALICE, 20), 0);
    assert_eq!(pallet.reserved_balance(1, &ALICE), 40);
    assert_eq!(pallet.total_issuance(1), 90);
    assert_eq!(pallet.slash_reserved(1, &ALICE, 50), 10);
    assert_eq!(pallet.reserved_balance(1, &ALICE), 0);
    assert_eq!(pallet.free_balance(1, &ALICE), 40);
    assert_eq!(pallet.total_issuance(1), 50);
}

#[test]
fn repatriate_to_free_and_to_reserved() {
    let mut pallet = ledger();
    assert_eq!(pallet.reserve(1, &ALICE, 60), Ok(()));
    assert_eq!(
        pallet.repatriate_reserved(1, &ALICE, &BOB, 25, BalanceStatus::Free),
        Ok(0)
    );
    assert_eq!(pallet.free_balance(1, &BOB), 35);
    assert_eq!(
        pallet.repatriate_reserved(1, &ALICE, &BOB, 50, BalanceStatus::Reserved),
        Ok(15)
    );
    assert_eq!(pallet.reserved_balance(1, &BOB), 35);
    assert_eq!(pallet.reserved_balance(1, &ALICE), 0);
    assert_eq!(pallet.free_balance(1, &ALICE), 40);
    assert_eq!(pallet.total_issuance(1), 110);
}

#[test]
fn repatriate_to_oneself() {
    let mut pallet = ledger();
    assert_eq!(pallet.reserve(1, &ALICE, 60), Ok(()));
    assert_eq!(
        pallet.repatriate_reserved(1, &ALICE, &ALICE, 70, BalanceStatus::Reserved),
        Ok(10)
    );
    assert_eq!(pallet.reserved_balance(1, &ALICE), 60);
    assert_eq!(
        pallet.repatriate_reserved(1, &ALICE, &ALICE, 70, BalanceStatus::Free),
        Ok(10)
    );
    assert_eq!(pallet.free_balance(1, &ALICE), 100);
    assert_eq!(
        pallet.repatriate_reserved(1, &ALICE, &BOB, 0, BalanceStatus::Free),
        Ok(0)
    );
}

#[test]
fn a_lock_binds_after_everything_is_unreserved() {
    let mut pallet = ledger();
    assert_eq!(pallet.reserve(1, &ALICE, 100), Ok(()));
    assert_eq!(pallet.set_lock([7; 8], 1, &ALICE, 60), Ok(()));
    assert_eq!(pallet.unreserve(1, &ALICE, 100), 0);
    assert_eq!(
        pallet.accounts(&ALICE, 1),
        AccountData {
            free: 100,
            reserved: 0,
            frozen: 60
        }
    );
    assert_eq!(
        pallet.withdraw(1, &ALICE, 100),
        Err(Error::LiquidityRestrictions)
    );
    assert_eq!(pallet.free_balance(1, &ALICE), 100);
    assert_eq!(pallet.total_issuance(1), 110);
    assert_eq!(pallet.withdraw(1, &ALICE, 40), Ok(()));
}
