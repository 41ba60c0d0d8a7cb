use serp_tokens::account::AccountId;
use serp_tokens::config::Config;
use serp_tokens::dispatch::{DispatchError, LookupError, Origin, ensure_signed};
use serp_tokens::dust::DustHandler;
use serp_tokens::pallet::Pallet;
use serp_tokens::types::{Balance, BlockNumber, CurrencyId, Effect, Error, Event};

const ALICE: AccountId = AccountId([1; 32]);
const BOB: AccountId = AccountId([2; 32]);
const SERPERS: AccountId = AccountId([9; 32]);

struct Runtime;

impl Config for Runtime {
    fn spec_existential_deposit(currency_id: CurrencyId) -> Balance {
        Self::existential_deposit(currency_id)
    }

    fn spec_base_unit(currency_id: CurrencyId) -> Balance {
        Self::base_unit(currency_id)
    }

    fn spec_adjustment_frequency() -> BlockNumber {
        Self::adjustment_frequency()
    }

    fn spec_serper_acc() -> AccountId {
        Self::serper_acc()
    }

    fn spec_serp_quote_multiple() -> Balance {
        Self::serp_quote_multiple()
    }

    fn spec_percent() -> Balance {
        Self::percent()
    }

    fn spec_on_dust() -> DustHandler {
        Self::on_dust()
    }

    fn existential_deposit(_currency_id: CurrencyId) -> Balance {
        2
    }

    fn base_unit(_currency_id: CurrencyId) -> Balance {
        100
    }

    fn adjustment_frequency() -> BlockNumber {
        0
    }

    fn serper_acc() -> AccountId {
        SERPERS
    }

    fn serp_quote_multiple() -> Balance {
        2
    }

    fn percent() -> Balance {
        100
    }

    fn on_dust() -> DustHandler {
        DustHandler::Ignore
    }
}

fn ledger() -> Pallet<Runtime> {
    let mut pallet = Pallet::new();
    assert_eq!(pallet.deposit(1, &ALICE, 100), Ok(()));
    pallet.take_effects();
    pallet
}

#[test]
fn only_a_signed_call_has_a_signer() {
    assert_eq!(ensure_signed(Origin::Signed(ALICE)), Ok(ALICE));
    assert_eq!(ensure_signed(Origin::Root), Err(DispatchError::BadOrigin));
    assert_eq!(
        ensure_signed(Origin::Unsigned),
        Err(DispatchError::BadOrigin)
    );
}

#[test]
fn transfer_announces() {
    let mut pallet = ledger();
    assert_eq!(
        pallet.transfer(Origin::Signed(ALICE), Ok(BOB), 1, 40),
        Ok(())
    );
    assert_eq!(pallet.free_balance(1, &BOB), 40);
    assert_eq!(
        pallet.take_effects(),
        vec![
            Effect::IncProviders(BOB),
            Effect::Deposit(Event::Transferred(1, ALICE, BOB, 40)),
        ]
    );
}

#[test]
fn transfer_all_moves_what_is_free() {
    let mut pallet = ledger();
    assert_eq!(pallet.reserve(1, &ALICE, 30), Ok(()));
    assert_eq!(
        pallet.transfer_all(Origin::Signed(ALICE), Ok(BOB), 1),
        Ok(())
    );
    assert_eq!(pallet.free_balance(1, &ALICE), 0);
    assert_eq!(pallet.reserved_balance(1, &ALICE), 30);
    assert_eq!(pallet.free_balance(1, &BOB), 70);
    assert_eq!(
        pallet.take_effects(),
        vec![
            Effect::IncProviders(BOB),
            Effect::Deposit(Event::Transferred(1, ALICE, BOB, 70)),
        ]
    );
}

#[test]
fn calls_fail_without_a_trace() {
    let mut pallet = ledger();
    assert_eq!(
        pallet.transfer(Origin::Root, Err(LookupError), 1, 40),
        Err(DispatchError::BadOrigin)
    );
    assert_eq!(
        pallet.transfer(Origin::Signed(ALICE), Err(LookupError), 1, 40),
        Err(DispatchError::CannotLookup)
    );
    assert_eq!(
        pallet.transfer(Origin::Signed(ALICE), Ok(BOB), 1, 101),
        Err(DispatchError::Module(Error::BalanceTooLow))
    );
    assert_eq!(
        pallet.transfer_all(Origin::Unsigned, Ok(BOB), 1),
        Err(DispatchError::BadOrigin)
    );
    assert_eq!(
        pallet.transfer_all(Origin::Signed(ALICE), Err(LookupError), 1),
        Err(DispatchError::CannotLookup)
    );
    assert_eq!(pallet.set_lock([7; 8], 1, &ALICE, 1), Ok(()));
    pallet.take_effects();
    assert_eq!(
        pallet.transfer_all(Origin::Signed(ALICE), Ok(BOB), 1),
        Err(DispatchError::Module(Error::LiquidityRestrictions))
    );
    assert_eq!(pallet.free_balance(1, &ALICE), 100);
    assert_eq!(pallet.take_effects(), vec![]);
}

#[test]
fn a_transfer_of_nothing_is_announced_too() {
    let mut pallet = ledger();
    assert_eq!(
        pallet.transfer_all(Origin::Signed(BOB), Ok(ALICE), 1),
        Ok(())
    );
    assert_eq!(
        pallet.take_effects(),
        vec![Effect::Deposit(Event::Transferred(1, BOB, ALICE, 0))]
    );
}
