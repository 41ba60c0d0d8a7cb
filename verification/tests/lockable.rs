use serp_tokens::account::AccountId;
use serp_tokens::config::Config;
use serp_tokens::dust::DustHandler;
use serp_tokens::pallet::Pallet;
use serp_tokens::types::{AccountData, Balance, BalanceLock, BlockNumber, CurrencyId, Effect, Error, LockIdentifier};

const ALICE: AccountId = AccountId([1; 32]);
const BOB: AccountId = AccountId([2; 32]);
const SERPERS: AccountId = AccountId([9; 32]);
const STAKING: LockIdentifier = *b"staking ";
const VESTING: LockIdentifier = *b"vesting ";

struct Runtime;

impl Config for Runtime {
    fn spec_existential_deposit(currency_id: CurrencyId) -> Balance {
        Self::existential_deposit(currency_id)
    }

    fn spec_base_unit(currency_id: CurrencyId) -> Balance {
        Self::base_unit(currency_id)
    }

    fn spec_adjustment_frequency() -> BlockNumber {
        Self::adjustment_frequency()
    }

    fn spec_serper_acc() -> AccountId {
        Self::serper_acc()
    }

    fn spec_serp_quote_multiple() -> Balance {
        Self::serp_quote_multiple()
    }

    fn spec_percent() -> Balance {
        Self::percent()
    }

    fn spec_on_dust() -> DustHandler {
        Self::on_dust()
    }

    fn existential_deposit(_currency_id: CurrencyId) -> Balance {
        2
    }

    fn base_unit(_currency_id: CurrencyId) -> Balance {
        100
    }

    fn adjustment_frequency() -> BlockNumber {
        0
    }

    fn serper_acc() -> AccountId {
        SERPERS
    }

    fn serp_quote_multiple() -> Balance {
        2
    }

    fn percent() -> Balance {
        100
    }

    fn on_dust() -> DustHandler {
        DustHandler::Ignore
    }
}

fn ledger() -> Pallet<Runtime> {
    let mut pallet = Pallet::new();
    assert_eq!(pallet.deposit(1, &ALICE, 100), Ok(()));
    pallet.take_effects();
    pallet
}

fn lock(id: LockIdentifier, amount: Balance) -> BalanceLock {
    BalanceLock { id, amount }
}

#[test]
fn set_lock_freezes_and_counts() {
    let mut pallet = ledger();
    assert_eq!(pallet.set_lock(STAKING, 1, &ALICE, 10), Ok(()));
    assert_eq!(pallet.locks(&ALICE, 1), vec![lock(STAKING, 10)]);
    assert_eq!(pallet.accounts(&ALICE, 1).frozen, 10);
    assert_eq!(pallet.take_effects(), vec![Effect::IncConsumers(ALICE)]);
    assert_eq!(pallet.set_lock(VESTING, 1, &ALICE, 40), Ok(()));
    assert_eq!(
        pallet.locks(&ALICE, 1),
        vec![lock(STAKING, 10), lock(VESTING, 40)]
    );
    assert_eq!(pallet.accounts(&ALICE, 1).frozen, 40);
    assert_eq!(pallet.take_effects(), vec![]);
}

#[test]
fn set_lock_replaces_in_place() {
    let mut pallet = ledger();
    assert_eq!(pallet.set_lock(STAKING, 1, &ALICE, 50), Ok(()));
    assert_eq!(pallet.set_lock(VESTING, 1, &ALICE, 20), Ok(()));
    assert_eq!(pallet.set_lock(STAKING, 1, &ALICE, 5), Ok(()));
    assert_eq!(
        pallet.locks(&ALICE, 1),
        vec![lock(STAKING, 5), lock(VESTING, 20)]
    );
    assert_eq!(pallet.accounts(&ALICE, 1).frozen, 20);
}

#[test]
fn a_lock_of_nothing_changes_nothing() {
    let mut pallet = ledger();
    assert_eq!(pallet.set_lock(STAKING, 1, &ALICE, 50), Ok(()));
    pallet.take_effects();
    assert_eq!(pallet.set_lock(STAKING, 1, &ALICE, 0), Ok(()));
    assert_eq!(pallet.extend_lock(STAKING, 1, &ALICE, 0), Ok(()));
    assert_eq!(pallet.locks(&ALICE, 1), vec![lock(STAKING, 50)]);
    assert_eq!(pallet.take_effects(), vec![]);
}

#[test]
fn extend_lock_never_lowers() {
    let mut pallet = ledger();
    assert_eq!(pallet.extend_lock(STAKING, 1, &ALICE, 50), Ok(()));
    assert_eq!(pallet.extend_lock(STAKING, 1, &ALICE, 30), Ok(()));
    assert_eq!(pallet.locks(&ALICE, 1), vec![lock(STAKING, 50)]);
    assert_eq!(pallet.extend_lock(STAKING, 1, &ALICE, 70), Ok(()));
    assert_eq!(pallet.locks(&ALICE, 1), vec![lock(STAKING, 70)]);
    assert_eq!(pallet.accounts(&ALICE, 1).frozen, 70);
    assert_eq!(pallet.extend_lock(VESTING, 1, &ALICE, 1), Ok(()));
    assert_eq!(
        pallet.locks(&ALICE, 1),
        vec![lock(STAKING, 70), lock(VESTING, 1)]
    );
}

#[test]
fn remove_lock_thaws() {
    let mut pallet = ledger();
    assert_eq!(pallet.set_lock(STAKING, 1, &ALICE, 50), Ok(()));
    assert_eq!(pallet.set_lock(VESTING, 1, &ALICE, 20), Ok(()));
    pallet.take_effects();
    assert_eq!(pallet.remove_lock(STAKING, 1, &ALICE), Ok(()));
    assert_eq!(pallet.locks(&ALICE, 1), vec![lock(VESTING, 20)]);
    assert_eq!(pallet.accounts(&ALICE, 1).frozen, 20);
    assert_eq!(pallet.take_effects(), vec![]);
    assert_eq!(pallet.remove_lock(VESTING, 1, &ALICE), Ok(()));
    assert_eq!(pallet.locks(&ALICE, 1), vec![]);
    assert_eq!(pallet.accounts(&ALICE, 1).frozen, 0);
    assert_eq!(pallet.take_effects(), vec![Effect::DecConsumers(ALICE)]);
    assert_eq!(pallet.remove_lock(VESTING, 1, &ALICE), Ok(()));
    assert_eq!(pallet.take_effects(), vec![]);
}

#[test]
fn locked_funds_stay() {
    let mut pallet = ledger();
    assert_eq!(pallet.set_lock(STAKING, 1, &ALICE, 60), Ok(()));
    assert_eq!(
        pallet.withdraw(1, &ALICE, 41),
        Err(Error::LiquidityRestrictions)
    );
    assert_eq!(
        pallet.currency_transfer(1, &ALICE, &BOB, 41),
        Err(Error::LiquidityRestrictions)
    );
    assert_eq!(pallet.currency_transfer(1, &ALICE, &BOB, 40), Ok(()));
    assert_eq!(pallet.free_balance(1, &ALICE), 60);
}

#[test]
fn locks_can_outlive_the_account() {
    let mut pallet = ledger();
    assert_eq!(pallet.set_lock(STAKING, 1, &ALICE, 60), Ok(()));
    assert_eq!(pallet.slash(1, &ALICE, 100), 0);
    assert_eq!(pallet.stored_account(&ALICE, 1), None);
    assert_eq!(pallet.locks(&ALICE, 1), vec![lock(STAKING, 60)]);
    assert_eq!(pallet.deposit(1, &ALICE, 100), Ok(()));
    assert_eq!(pallet.accounts(&ALICE, 1).frozen, 60);
    assert_eq!(
        pallet.withdraw(1, &ALICE, 100),
        Err(Error::LiquidityRestrictions)
    );
}

#[test]
fn a_lock_on_nothing_binds_what_comes_later() {
    let mut pallet = ledger();
    assert_eq!(pallet.set_lock(STAKING, 1, &BOB, 60), Ok(()));
    assert_eq!(pallet.stored_account(&BOB, 1), None);
    assert_eq!(pallet.locks(&BOB, 1), vec![lock(STAKING, 60)]);
    assert_eq!(pallet.accounts(&BOB, 1), AccountData::default());
    assert_eq!(pallet.currency_transfer(1, &ALICE, &BOB, 100), Ok(()));
    assert_eq!(
        pallet.accounts(&BOB, 1),
        AccountData {
            free: 100,
            reserved: 0,
            frozen: 60
        }
    );
    assert_eq!(
        pallet.currency_transfer(1, &BOB, &ALICE, 41),
        Err(Error::LiquidityRestrictions)
    );
    assert_eq!(pallet.remove_lock(STAKING, 1, &BOB), Ok(()));
    assert_eq!(pallet.currency_transfer(1, &BOB, &ALICE, 100), Ok(()));
}

#[test]
fn repeated_identifiers_are_reduced_to_one() {
    let mut pallet = ledger();
    pallet.load_locks(
        &ALICE,
        1,
        vec![lock(STAKING, 1), lock(VESTING, 2), lock(STAKING, 3)],
    );
    assert_eq!(pallet.set_lock(STAKING, 1, &ALICE, 9), Ok(()));
    assert_eq!(
        pallet.locks(&ALICE, 1),
        vec![lock(STAKING, 9), lock(VESTING, 2)]
    );
}
