use serp_tokens::account::AccountId;
use serp_tokens::adapter::CurrencyAdapter;
use serp_tokens::config::Config;
use serp_tokens::dust::DustHandler;
use serp_tokens::imbalances::{NegativeImbalance, PositiveImbalance, SignedImbalance};
use serp_tokens::pallet::Pallet;
use serp_tokens::types::{Balance, BlockNumber, CurrencyId};

const ALICE: AccountId = AccountId([1; 32]);
const BOB: AccountId = AccountId([2; 32]);
const SERPERS: AccountId = AccountId([9; 32]);
const TOKEN: CurrencyAdapter = CurrencyAdapter { currency_id: 1 };

struct Runtime;

impl Config for Runtime {
    fn spec_existential_deposit(currency_id: CurrencyId) -> Balance {
        Self::existential_deposit(currency_id)
    }

    fn spec_base_unit(currency_id: CurrencyId) -> Balance {
        Self::base_unit(currency_id)
    }

    fn spec_adjustment_frequency() -> BlockNumber {
        Self::adjustment_frequency()
    }

    fn spec_serper_acc() -> AccountId {
        Self::serper_acc()
    }

    fn spec_serp_quote_multiple() -> Balance {
        Self::serp_quote_multiple()
    }

    fn spec_percent() -> Balance {
        Self::percent()
    }

    fn spec_on_dust() -> DustHandler {
        Self::on_dust()
    }

    fn existential_deposit(_currency_id: CurrencyId) -> Balance {
        2
    }

    fn base_unit(_currency_id: CurrencyId) -> Balance {
        100
    }

    fn adjustment_frequency() -> BlockNumber {
        0
    }

    fn serper_acc() -> AccountId {
        SERPERS
    }

    fn serp_quote_multiple() -> Balance {
        2
    }

    fn percent() -> Balance {
        100
    }

    fn on_dust() -> DustHandler {
        DustHandler::Ignore
    }
}

fn ledger() -> Pallet<Runtime> {
    let mut pallet = Pallet::new();
    assert_eq!(pallet.deposit(1, &ALICE, 100), Ok(()));
    assert_eq!(pallet.deposit(1, &BOB, 50), Ok(()));
    assert_eq!(pallet.deposit(2, &ALICE, 1_000), Ok(()));
    pallet
}

fn positive(amount: Balance) -> SignedImbalance {
    SignedImbalance::Positive(PositiveImbalance::new(amount))
}

fn negative(amount: Balance) -> SignedImbalance {
    SignedImbalance::Negative(NegativeImbalance::new(amount))
}

fn held(pallet: &Pallet<Runtime>) -> Balance {
    pallet.total_balance(1, &ALICE) + pallet.total_balance(1, &BOB)
}

#[test]
fn only_nothing_is_given_up() {
    assert_eq!(PositiveImbalance::zero().drop_zero(), Ok(()));
    assert_eq!(NegativeImbalance::zero().drop_zero(), Ok(()));
    assert_eq!(PositiveImbalance::new(7).drop_zero(), Err(PositiveImbalance::new(7)));
    assert_eq!(NegativeImbalance::new(7).drop_zero(), Err(NegativeImbalance::new(7)));
    assert_eq!(PositiveImbalance::new(7).peek(), 7);
    assert_eq!(NegativeImbalance::new(8).peek(), 8);
}

#[test]
fn a_split_leaves_the_rest() {
    assert_eq!(
        PositiveImbalance::new(10).split(3),
        (PositiveImbalance::new(3), PositiveImbalance::new(7))
    );
    assert_eq!(
        PositiveImbalance::new(10).split(11),
        (PositiveImbalance::new(10), PositiveImbalance::zero())
    );
    assert_eq!(
        NegativeImbalance::new(10).split(0),
        (NegativeImbalance::zero(), NegativeImbalance::new(10))
    );
    assert_eq!(
        NegativeImbalance::new(10).split(10),
        (NegativeImbalance::new(10), NegativeImbalance::zero())
    );
}

#[test]
fn merging_adds_as_far_as_that_goes() {
    assert_eq!(
        PositiveImbalance::new(3).merge(PositiveImbalance::new(7)),
        PositiveImbalance::new(10)
    );
    assert_eq!(
        NegativeImbalance::new(3).merge(NegativeImbalance::new(7)),
        NegativeImbalance::new(10)
    );
    assert_eq!(
        PositiveImbalance::new(Balance::MAX).merge(PositiveImbalance::new(1)),
        PositiveImbalance::new(Balance::MAX)
    );
    let mut more = PositiveImbalance::new(3);
    more.subsume(PositiveImbalance::new(4));
    assert_eq!(more, PositiveImbalance::new(7));
    let mut less = NegativeImbalance::new(Balance::MAX - 1);
    less.subsume(NegativeImbalance::new(4));
    assert_eq!(less, NegativeImbalance::new(Balance::MAX));
}

#[test]
fn merging_undoes_splitting() {
    let (first, second) = PositiveImbalance::new(10).split(3);
    assert_eq!(first.merge(second), PositiveImbalance::new(10));
    let (first, second) = NegativeImbalance::new(10).split(30);
    assert_eq!(first.merge(second), NegativeImbalance::new(10));
}

#[test]
fn an_offset_leaves_the_difference() {
    assert_eq!(
        PositiveImbalance::new(10).offset(NegativeImbalance::new(4)),
        Ok(PositiveImbalance::new(6))
    );
    assert_eq!(
        PositiveImbalance::new(4).offset(NegativeImbalance::new(10)),
        Err(NegativeImbalance::new(6))
    );
    assert_eq!(
        PositiveImbalance::new(4).offset(NegativeImbalance::new(4)),
        Ok(PositiveImbalance::zero())
    );
    assert_eq!(
        NegativeImbalance::new(10).offset(PositiveImbalance::new(4)),
        Ok(NegativeImbalance::new(6))
    );
    assert_eq!(
        NegativeImbalance::new(4).offset(PositiveImbalance::new(10)),
        Err(PositiveImbalance::new(6))
    );
    assert_eq!(
        NegativeImbalance::new(4).offset(PositiveImbalance::new(4)),
        Ok(NegativeImbalance::zero())
    );
}

#[test]
fn settling_changes_one_total_issuance() {
    let mut pallet = ledger();
    pallet.settle(1, positive(30));
    assert_eq!(pallet.total_issuance(1), 180);
    pallet.settle(1, negative(100));
    assert_eq!(pallet.total_issuance(1), 80);
    assert_eq!(pallet.total_issuance(2), 1_000);
    assert_eq!(held(&pallet), 150);
}

#[test]
fn settling_stops_at_the_limits() {
    let mut pallet = ledger();
    pallet.settle(1, negative(151));
    assert_eq!(pallet.total_issuance(1), 0);
    pallet.settle(1, positive(5));
    pallet.settle(1, positive(Balance::MAX - 4));
    assert_eq!(pallet.total_issuance(1), Balance::MAX);
}

#[test]
fn settling_makes_up_for_a_deposit() {
    let mut pallet = ledger();
    let owed = TOKEN.deposit_creating(&mut pallet, &BOB, 20);
    assert_eq!((held(&pallet), pallet.total_issuance(1)), (170, 150));
    pallet.settle(1, SignedImbalance::Positive(owed));
    assert_eq!((held(&pallet), pallet.total_issuance(1)), (170, 170));
}

#[test]
fn settling_makes_up_for_a_withdrawal_and_a_slash() {
    let mut pallet = ledger();
    let owed = TOKEN.withdraw(&mut pallet, &ALICE, 20);
    assert_eq!(owed, Ok(NegativeImbalance::new(20)));
    pallet.settle(1, negative(20));
    assert_eq!((held(&pallet), pallet.total_issuance(1)), (130, 130));
    let (owed, left) = TOKEN.slash(&mut pallet, &BOB, 60);
    assert_eq!(left, 10);
    assert_eq!((held(&pallet), pallet.total_issuance(1)), (80, 130));
    pallet.settle(1, SignedImbalance::Negative(owed));
    assert_eq!((held(&pallet), pallet.total_issuance(1)), (80, 80));
}

#[test]
fn settling_makes_up_for_a_balance_that_is_set() {
    let mut pallet = ledger();
    let owed = TOKEN.make_free_balance_be(&mut pallet, &ALICE, 130);
    pallet.settle(1, owed);
    assert_eq!((held(&pallet), pallet.total_issuance(1)), (180, 180));
    let owed = TOKEN.make_free_balance_be(&mut pallet, &ALICE, 10);
    pallet.settle(1, owed);
    assert_eq!((held(&pallet), pallet.total_issuance(1)), (60, 60));
}

#[test]
fn settling_undoes_burning_and_issuing() {
    let mut pallet = ledger();
    let owed = TOKEN.burn(&mut pallet, 200);
    assert_eq!(pallet.total_issuance(1), 0);
    pallet.settle(1, SignedImbalance::Positive(owed));
    assert_eq!(pallet.total_issuance(1), 150);
    let owed = TOKEN.issue(&mut pallet, 40);
    assert_eq!(pallet.total_issuance(1), 190);
    pallet.settle(1, SignedImbalance::Negative(owed));
    assert_eq!(pallet.total_issuance(1), 150);
}

#[test]
fn parts_settle_like_the_whole() {
    let (mut whole, mut parts) = (ledger(), ledger());
    whole.settle(1, negative(70));
    let (first, second) = NegativeImbalance::new(70).split(30);
    parts.settle(1, SignedImbalance::Negative(first));
    parts.settle(1, SignedImbalance::Negative(second));
    assert_eq!(whole.total_issuance(1), 80);
    assert_eq!(parts.total_issuance(1), 80);
}

#[test]
fn an_offset_settles_like_both() {
    let (mut both, mut offset) = (ledger(), ledger());
    both.settle(1, positive(30));
    both.settle(1, negative(70));
    match PositiveImbalance::new(30).offset(NegativeImbalance::new(70)) {
        Ok(p) => offset.settle(1, SignedImbalance::Positive(p)),
        Err(n) => offset.settle(1, SignedImbalance::Negative(n)),
    }
    assert_eq!(both.total_issuance(1), 110);
    assert_eq!(offset.total_issuance(1), 110);
}
