use serp_tokens::account::AccountId;
use serp_tokens::adapter::CurrencyAdapter;
use serp_tokens::config::Config;
use serp_tokens::dust::{BurnDust, DustHandler};
use serp_tokens::pallet::Pallet;
use serp_tokens::types::{AccountData, Amount, Balance, BalanceStatus, BlockNumber, CurrencyId};

const ALICE: AccountId = AccountId([1; 32]);
const BOB: AccountId = AccountId([2; 32]);
const SERPERS: AccountId = AccountId([9; 32]);
const NATIVE: CurrencyId = 0;
const STABLE: CurrencyId = 1;
const TOKEN: CurrencyAdapter = CurrencyAdapter { currency_id: 1 };

struct Runtime;

impl Config for Runtime {
    fn spec_existential_deposit(currency_id: CurrencyId) -> Balance {
        Self::existential_deposit(currency_id)
    }

    fn spec_base_unit(currency_id: CurrencyId) -> Balance {
        Self::base_unit(currency_id)
    }

    fn spec_adjustment_frequency() -> BlockNumber {
        Self::adjustment_frequency()
    }

    fn spec_serper_acc() -> AccountId {
        Self::serper_acc()
    }

    fn spec_serp_quote_multiple() -> Balance {
        Self::serp_quote_multiple()
    }

    fn spec_percent() -> Balance {
        Self::percent()
    }

    fn spec_on_dust() -> DustHandler {
        Self::on_dust()
    }

    fn existential_deposit(_currency_id: CurrencyId) -> Balance {
        2
    }

    fn base_unit(_currency_id: CurrencyId) -> Balance {
        100
    }

    fn adjustment_frequency() -> BlockNumber {
        0
    }

    fn serper_acc() -> AccountId {
        SERPERS
    }

    fn serp_quote_multiple() -> Balance {
        2
    }

    fn percent() -> Balance {
        100
    }

    fn on_dust() -> DustHandler {
        DustHandler::Ignore
    }
}

/// Burns dust.
struct Burning;

impl Config for Burning {
    fn spec_existential_deposit(currency_id: CurrencyId) -> Balance {
        Self::existential_deposit(currency_id)
    }

    fn spec_base_unit(currency_id: CurrencyId) -> Balance {
        Self::base_unit(currency_id)
    }

    fn spec_adjustment_frequency() -> BlockNumber {
        Self::adjustment_frequency()
    }

    fn spec_serper_acc() -> AccountId {
        Self::serper_acc()
    }

    fn spec_serp_quote_multiple() -> Balance {
        Self::serp_quote_multiple()
    }

    fn spec_percent() -> Balance {
        Self::percent()
    }

    fn spec_on_dust() -> DustHandler {
        Self::on_dust()
    }

    fn existential_deposit(_currency_id: CurrencyId) -> Balance {
        2
    }

    fn base_unit(_currency_id: CurrencyId) -> Balance {
        100
    }

    fn adjustment_frequency() -> BlockNumber {
        0
    }

    fn serper_acc() -> AccountId {
        SERPERS
    }

    fn serp_quote_multiple() -> Balance {
        2
    }

    fn percent() -> Balance {
        100
    }

    fn on_dust() -> DustHandler {
        DustHandler::Burn(BurnDust)
    }
}

/// A ledger in which an account holds more than was issued.
fn short<T: Config>(free: Balance, reserved: Balance, issued: Balance) -> Pallet<T> {
    let mut pallet = Pallet::new();
    pallet.load_account(
        &ALICE,
        1,
        AccountData {
            free,
            reserved,
            frozen: 0,
        },
    );
    pallet.load_issuance(1, issued);
    pallet
}

#[test]
fn dust_that_was_not_issued_cannot_be_burned() {
    let pallet: Pallet<Burning> = Pallet::new();
    assert!(pallet.deposit_has_room(1, &ALICE, 1));
    assert!(pallet.deposit_has_room(1, &ALICE, 0));
    assert!(pallet.update_balance_has_room(1, &ALICE, 1));
    assert!(pallet.update_balance_has_room(1, &ALICE, Amount::MIN));
    assert!(TOKEN.deposit_has_room(&pallet, &ALICE, 2));
    assert!(!TOKEN.deposit_has_room(&pallet, &ALICE, 1));
    assert!(TOKEN.make_free_has_room(&pallet, &ALICE, 1));
    let pallet: Pallet<Runtime> = Pallet::new();
    assert!(TOKEN.deposit_has_room(&pallet, &ALICE, 1));
    let pallet: Pallet<Burning> = short(1, 0, 0);
    assert!(pallet.deposit_has_room(1, &ALICE, 1));
    assert!(!pallet.update_balance_has_room(1, &ALICE, -1));
}

#[test]
fn no_deposit_overflows_a_balance() {
    let pallet: Pallet<Runtime> = short(Balance::MAX, 0, 5);
    assert!(!pallet.deposit_has_room(1, &ALICE, 1));
    assert!(TOKEN.deposit_has_room(&pallet, &ALICE, 1));
}

#[test]
fn nothing_takes_more_than_was_issued() {
    let pallet: Pallet<Runtime> = short(10, 10, 5);
    assert!(pallet.withdraw_has_room(1, &ALICE, 5));
    assert!(!pallet.withdraw_has_room(1, &ALICE, 6));
    assert!(pallet.withdraw_has_room(1, &ALICE, 11));
    assert!(pallet.update_balance_has_room(1, &ALICE, -5));
    assert!(!pallet.update_balance_has_room(1, &ALICE, -6));
    assert!(pallet.slash_has_room(1, &ALICE, 5));
    assert!(!pallet.slash_has_room(1, &ALICE, 6));
    assert!(pallet.slash_reserved_has_room(1, &ALICE, 5));
    assert!(!pallet.slash_reserved_has_room(1, &ALICE, 6));
    assert!(TOKEN.slash_has_room(&pallet, &ALICE, 20));
    assert!(TOKEN.withdraw_has_room(&pallet, &ALICE, 10));
}

#[test]
fn no_more_is_burned_than_was_issued() {
    let pallet: Pallet<Burning> = short(10, 0, 0);
    assert!(!pallet.transfer_has_room(1, &ALICE, &BOB, 9));
    assert!(pallet.transfer_has_room(1, &ALICE, &BOB, 8));
    assert!(pallet.transfer_has_room(1, &ALICE, &BOB, 11));
    assert!(!pallet.transfer_has_room(1, &ALICE, &BOB, 1));
    assert!(pallet.reserve_has_room(1, &ALICE, 9));
    assert!(!TOKEN.slash_has_room(&pallet, &ALICE, 9));
    assert!(!TOKEN.withdraw_has_room(&pallet, &ALICE, 9));
    assert!(!TOKEN.make_free_has_room(&pallet, &ALICE, 1));
    assert!(pallet.merge_has_room(&ALICE, &BOB, &vec![1]));
    let pallet: Pallet<Burning> = short(1, 0, 0);
    assert!(pallet.set_lock_has_room([7; 8], 1, &ALICE, 5));
    assert!(pallet.set_lock_has_room([7; 8], 1, &ALICE, 0));
    assert!(!pallet.remove_lock_has_room([7; 8], 1, &ALICE));
    assert!(pallet.extend_lock_has_room([7; 8], 1, &ALICE, 5));
    assert!(!pallet.merge_has_room(&ALICE, &BOB, &vec![1]));
}

#[test]
fn no_reserve_overflows() {
    let pallet: Pallet<Runtime> = short(5, Balance::MAX, 5);
    assert!(!pallet.reserve_has_room(1, &ALICE, 1));
    assert!(pallet.reserve_has_room(1, &ALICE, 6));
    assert!(!pallet.unreserve_has_room(1, &ALICE, Balance::MAX));
    assert!(pallet.unreserve_has_room(1, &ALICE, Balance::MAX - 5));
    assert!(!pallet.repatriate_has_room(
        1,
        &ALICE,
        &ALICE,
        Balance::MAX,
        BalanceStatus::Free
    ));
    assert!(pallet.repatriate_has_room(
        1,
        &ALICE,
        &ALICE,
        Balance::MAX,
        BalanceStatus::Reserved
    ));
    assert!(pallet.repatriate_has_room(1, &ALICE, &BOB, Balance::MAX, BalanceStatus::Free));
}

#[test]
fn the_serpers_have_to_have_what_they_pay() {
    let mut pallet: Pallet<Runtime> = Pallet::new();
    assert_eq!(pallet.deposit(NATIVE, &SERPERS, 1_000), Ok(()));
    assert_eq!(pallet.reserve(NATIVE, &SERPERS, 160), Ok(()));
    assert_eq!(pallet.deposit(STABLE, &SERPERS, 1_000), Ok(()));
    assert_eq!(pallet.reserve(STABLE, &SERPERS, 100), Ok(()));
    assert!(pallet.expand_has_room(NATIVE, STABLE, 100, 200_000));
    assert!(pallet.expand_has_room(NATIVE, STABLE, 0, 200_000));
    assert!(!pallet.expand_has_room(NATIVE, STABLE, 100, 202_000));
    // a quote of more than a hundred percent
    assert!(!pallet.expand_has_room(NATIVE, STABLE, 10, 0));
    assert!(pallet.contract_has_room(NATIVE, STABLE, 100, 200_000));
    assert!(!pallet.contract_has_room(NATIVE, STABLE, 101, 200_000));
    assert!(pallet.contract_has_room(NATIVE, STABLE, 10, 200_000));
    assert!(!pallet.contract_has_room(NATIVE, STABLE, 100, Balance::MAX));
    assert!(pallet.supply_change_has_room(STABLE, 110));
    assert!(!pallet.supply_change_has_room(STABLE, Balance::MAX));
    assert!(pallet.adjust_has_room(STABLE, 110, NATIVE, 200_000));
    assert!(pallet.adjust_has_room(STABLE, 100, NATIVE, Balance::MAX));
    assert!(!pallet.adjust_has_room(STABLE, 89, NATIVE, 200_000));
    assert!(pallet.serp_block_has_room(1, STABLE, 90, NATIVE, 200_000));
    assert!(!pallet.serp_block_has_room(1, STABLE, 89, NATIVE, 200_000));
    // nothing to divide by
    assert!(!pallet.expand_has_room(NATIVE, 2, 100, 200_000));
}

#[test]
fn duplicates_are_tried_out_alone() {
    let mut pallet: Pallet<Runtime> = short(10, 0, 10);
    assert_eq!(pallet.set_lock([7; 8], 1, &ALICE, 3), Ok(()));
    let mut copy = pallet.duplicate();
    assert_eq!(copy.locks(&ALICE, 1), pallet.locks(&ALICE, 1));
    assert_eq!(copy.deposit(1, &ALICE, 5), Ok(()));
    assert_eq!(copy.remove_lock([7; 8], 1, &ALICE), Ok(()));
    assert_eq!(pallet.free_balance(1, &ALICE), 10);
    assert_eq!(pallet.locks(&ALICE, 1).len(), 1);
}
