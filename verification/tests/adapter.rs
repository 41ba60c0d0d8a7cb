use serp_tokens::account::AccountId;
use serp_tokens::adapter::CurrencyAdapter;
use serp_tokens::config::Config;
use serp_tokens::dust::DustHandler;
use serp_tokens::imbalances::{NegativeImbalance, PositiveImbalance, SignedImbalance};
use serp_tokens::pallet::Pallet;
use serp_tokens::types::{AccountData, Balance, BalanceLock, BalanceStatus, BlockNumber, CurrencyId, Error};

const ALICE: AccountId = AccountId([1; 32]);
const BOB: AccountId = AccountId([2; 32]);
const SERPERS: AccountId = AccountId([9; 32]);
const TOKEN: CurrencyAdapter = CurrencyAdapter { currency_id: 1 };

struct Runtime;

impl Config for Runtime {
    fn spec_existential_deposit(currency_id: CurrencyId) -> Balance {
        Self::existential_deposit(currency_id)
    }

    fn spec_base_unit(currency_id: CurrencyId) -> Balance {
        Self::base_unit(currency_id)
    }

    fn spec_adjustment_frequency() -> BlockNumber {
        Self::adjustment_frequency()
    }

    fn spec_serper_acc() -> AccountId {
        Self::serper_acc()
    }

    fn spec_serp_quote_multiple() -> Balance {
        Self::serp_quote_multiple()
    }

    fn spec_percent() -> Balance {
        Self::percent()
    }

    fn spec_on_dust() -> DustHandler {
        Self::on_dust()
    }

    fn existential_deposit(_currency_id: CurrencyId) -> Balance {
        2
    }

    fn base_unit(_currency_id: CurrencyId) -> Balance {
        100
    }

    fn adjustment_frequency() -> BlockNumber {
        0
    }

    fn serper_acc() -> AccountId {
        SERPERS
    }

    fn serp_quote_multiple() -> Balance {
        2
    }

    fn percent() -> Balance {
        100
    }

    fn on_dust() -> DustHandler {
        DustHandler::Ignore
    }
}

fn ledger() -> Pallet<Runtime> {
    let mut pallet = Pallet::new();
    assert_eq!(pallet.deposit(1, &ALICE, 100), Ok(()));
    assert_eq!(pallet.deposit(2, &ALICE, 1_000), Ok(()));
    pallet
}

#[test]
fn imbalances_hold_an_amount() {
    assert_eq!(PositiveImbalance::zero(), PositiveImbalance::new(0));
    assert_eq!(NegativeImbalance::zero(), NegativeImbalance::new(0));
    assert_eq!(PositiveImbalance::new(7).amount, 7);
    assert_eq!(NegativeImbalance::new(7).amount, 7);
}

#[test]
fn adapter_reads_its_currency() {
    let mut pallet = ledger();
    assert_eq!(TOKEN.reserve(&mut pallet, &ALICE, 30), Ok(()));
    assert_eq!(TOKEN.total_balance(&pallet, &ALICE), 100);
    assert_eq!(TOKEN.free_balance(&pallet, &ALICE), 70);
    assert_eq!(TOKEN.reserved_balance(&pallet, &ALICE), 30);
    assert_eq!(TOKEN.total_issuance(&pallet), 100);
    assert_eq!(TOKEN.minimum_balance::<Runtime>(), 2);
    assert!(TOKEN.can_slash(&pallet, &ALICE, 70));
    assert!(!TOKEN.can_slash(&pallet, &ALICE, 71));
    assert!(TOKEN.can_reserve(&pallet, &ALICE, 70));
    assert!(!TOKEN.can_reserve(&pallet, &ALICE, 71));
    assert_eq!(TOKEN.ensure_can_withdraw(&pallet, &ALICE, 70), Ok(()));
    assert_eq!(
        TOKEN.ensure_can_withdraw(&pallet, &ALICE, 71),
        Err(Error::BalanceTooLow)
    );
}

#[test]
fn burn_burns_what_there_is() {
    let mut pallet = ledger();
    assert_eq!(TOKEN.burn(&mut pallet, 0), PositiveImbalance::zero());
    assert_eq!(TOKEN.burn(&mut pallet, 30), PositiveImbalance::new(30));
    assert_eq!(pallet.total_issuance(1), 70);
    assert_eq!(TOKEN.burn(&mut pallet, 71), PositiveImbalance::new(70));
    assert_eq!(pallet.total_issuance(1), 0);
    assert_eq!(pallet.free_balance(1, &ALICE), 100);
    assert_eq!(pallet.total_issuance(2), 1_000);
}

#[test]
fn issue_issues_what_fits() {
    let mut pallet = ledger();
    assert_eq!(TOKEN.issue(&mut pallet, 0), NegativeImbalance::zero());
    assert_eq!(TOKEN.issue(&mut pallet, 30), NegativeImbalance::new(30));
    assert_eq!(pallet.total_issuance(1), 130);
    assert_eq!(
        TOKEN.issue(&mut pallet, Balance::MAX),
        NegativeImbalance::new(Balance::MAX - 130)
    );
    assert_eq!(pallet.total_issuance(1), Balance::MAX);
}

#[test]
fn burn_undoes_issue() {
    let mut pallet = ledger();
    let issued = TOKEN.issue(&mut pallet, 30);
    assert_eq!(TOKEN.burn(&mut pallet, issued.amount).amount, 30);
    assert_eq!(pallet.total_issuance(1), 100);
}

#[test]
fn adapter_transfers() {
    let mut pallet = ledger();
    assert_eq!(TOKEN.transfer(&mut pallet, &ALICE, &BOB, 40), Ok(()));
    assert_eq!(pallet.free_balance(1, &BOB), 40);
    assert_eq!(
        TOKEN.transfer(&mut pallet, &ALICE, &BOB, 61),
        Err(Error::BalanceTooLow)
    );
}

#[test]
fn slash_leaves_the_issuance() {
    let mut pallet = ledger();
    assert_eq!(TOKEN.reserve(&mut pallet, &ALICE, 30), Ok(()));
    assert_eq!(
        TOKEN.slash(&mut pallet, &ALICE, 0),
        (NegativeImbalance::zero(), 0)
    );
    assert_eq!(
        TOKEN.slash(&mut pallet, &ALICE, 60),
        (NegativeImbalance::new(60), 0)
    );
    assert_eq!(
        TOKEN.slash(&mut pallet, &ALICE, 60),
        (NegativeImbalance::new(40), 20)
    );
    assert_eq!(pallet.stored_account(&ALICE, 1), None);
    assert_eq!(pallet.total_issuance(1), 100);
}

#[test]
fn deposit_into_existing_leaves_the_issuance() {
    let mut pallet = ledger();
    assert_eq!(
        TOKEN.deposit_into_existing(&mut pallet, &ALICE, 0),
        Ok(PositiveImbalance::zero())
    );
    assert_eq!(
        TOKEN.deposit_into_existing(&mut pallet, &ALICE, 11),
        Ok(PositiveImbalance::new(11))
    );
    assert_eq!(pallet.free_balance(1, &ALICE), 111);
    assert_eq!(pallet.total_issuance(1), 100);
    assert_eq!(
        TOKEN.deposit_into_existing(&mut pallet, &ALICE, Balance::MAX),
        Err(Error::TotalIssuanceOverflow)
    );
    assert_eq!(pallet.free_balance(1, &ALICE), 111);
}

#[test]
fn deposit_creating_deposits_or_gives_nothing() {
    let mut pallet = ledger();
    assert_eq!(
        TOKEN.deposit_creating(&mut pallet, &BOB, 11),
        PositiveImbalance::new(11)
    );
    assert_eq!(pallet.free_balance(1, &BOB), 11);
    assert_eq!(
        TOKEN.deposit_creating(&mut pallet, &BOB, Balance::MAX),
        PositiveImbalance::zero()
    );
    assert_eq!(pallet.free_balance(1, &BOB), 11);
}

#[test]
fn withdraw_leaves_the_issuance() {
    let mut pallet = ledger();
    assert_eq!(
        TOKEN.withdraw(&mut pallet, &ALICE, 0),
        Ok(NegativeImbalance::zero())
    );
    assert_eq!(
        TOKEN.withdraw(&mut pallet, &ALICE, 30),
        Ok(NegativeImbalance::new(30))
    );
    assert_eq!(pallet.free_balance(1, &ALICE), 70);
    assert_eq!(pallet.total_issuance(1), 100);
    assert_eq!(
        TOKEN.withdraw(&mut pallet, &ALICE, 71),
        Err(Error::BalanceTooLow)
    );
}

#[test]
fn make_free_balance_be_tells_the_difference() {
    let mut pallet = ledger();
    assert_eq!(
        TOKEN.make_free_balance_be(&mut pallet, &ALICE, 130),
        SignedImbalance::Positive(PositiveImbalance::new(30))
    );
    assert_eq!(
        TOKEN.make_free_balance_be(&mut pallet, &ALICE, 20),
        SignedImbalance::Negative(NegativeImbalance::new(110))
    );
    assert_eq!(pallet.free_balance(1, &ALICE), 20);
    assert_eq!(pallet.total_issuance(1), 100);
}

#[test]
fn make_free_balance_be_makes_no_account_of_dust() {
    let mut pallet = ledger();
    assert_eq!(
        TOKEN.make_free_balance_be(&mut pallet, &BOB, 1),
        SignedImbalance::Positive(PositiveImbalance::zero())
    );
    assert_eq!(pallet.stored_account(&BOB, 1), None);
    assert_eq!(
        TOKEN.make_free_balance_be(&mut pallet, &BOB, 2),
        SignedImbalance::Positive(PositiveImbalance::new(2))
    );
    assert_eq!(
        TOKEN.make_free_balance_be(&mut pallet, &BOB, 1),
        SignedImbalance::Negative(NegativeImbalance::new(1))
    );
    assert_eq!(pallet.free_balance(1, &BOB), 1);
    assert_eq!(
        TOKEN.make_free_balance_be(&mut pallet, &BOB, 0),
        SignedImbalance::Negative(NegativeImbalance::new(1))
    );
    assert_eq!(pallet.stored_account(&BOB, 1), None);
}

#[test]
fn adapter_reserves() {
    let mut pallet = ledger();
    assert_eq!(TOKEN.reserve(&mut pallet, &ALICE, 60), Ok(()));
    assert_eq!(TOKEN.unreserve(&mut pallet, &ALICE, 10), 0);
    assert_eq!(
        TOKEN.slash_reserved(&mut pallet, &ALICE, 20),
        (NegativeImbalance::zero(), 0)
    );
    assert_eq!(pallet.total_issuance(1), 80);
    assert_eq!(
        TOKEN.repatriate_reserved(&mut pallet, &ALICE, &BOB, 40, BalanceStatus::Free),
        Ok(10)
    );
    assert_eq!(pallet.free_balance(1, &BOB), 30);
    assert_eq!(
        pallet.accounts(&ALICE, 1),
        AccountData {
            free: 50,
            reserved: 0,
            frozen: 0
        }
    );
    assert_eq!(
        TOKEN.reserve(&mut pallet, &ALICE, 51),
        Err(Error::BalanceTooLow)
    );
}

#[test]
fn adapter_locks() {
    let mut pallet = ledger();
    TOKEN.set_lock(&mut pallet, [7; 8], &ALICE, 60);
    TOKEN.extend_lock(&mut pallet, [7; 8], &ALICE, 50);
    assert_eq!(
        pallet.locks(&ALICE, 1),
        vec![BalanceLock {
            id: [7; 8],
            amount: 60
        }]
    );
    assert_eq!(pallet.locks(&ALICE, 2), vec![]);
    TOKEN.remove_lock(&mut pallet, [7; 8], &ALICE);
    assert_eq!(pallet.locks(&ALICE, 1), vec![]);
}
