use serp_tokens::account::AccountId;
use serp_tokens::config::Config;
use serp_tokens::dust::{BurnDust, DustHandler, TransferDust};
use serp_tokens::pallet::Pallet;
use serp_tokens::types::{AccountData, Balance, BlockNumber, CurrencyId, Effect, Event};

const ALICE: AccountId = AccountId([1; 32]);
const BOB: AccountId = AccountId([2; 32]);
const SERPERS: AccountId = AccountId([9; 32]);
const TREASURY: AccountId = AccountId([7; 32]);

/// Leaves dust where it is.
struct Keeping;

impl Config for Keeping {
    fn spec_existential_deposit(currency_id: CurrencyId) -> Balance {
        Self::existential_deposit(currency_id)
    }

    fn spec_base_unit(currency_id: CurrencyId) -> Balance {
        Self::base_unit(currency_id)
    }

    fn spec_adjustment_frequency() -> BlockNumber {
        Self::adjustment_frequency()
    }

    fn spec_serper_acc() -> AccountId {
        Self::serper_acc()
    }

    fn spec_serp_quote_multiple() -> Balance {
        Self::serp_quote_multiple()
    }

    fn spec_percent() -> Balance {
        Self::percent()
    }

    fn spec_on_dust() -> DustHandler {
        Self::on_dust()
    }

    fn existential_deposit(_currency_id: CurrencyId) -> Balance {
        2
    }

    fn base_unit(_currency_id: CurrencyId) -> Balance {
        100
    }

    fn adjustment_frequency() -> BlockNumber {
        0
    }

    fn serper_acc() -> AccountId {
        SERPERS
    }

    fn serp_quote_multiple() -> Balance {
        2
    }

    fn percent() -> Balance {
        100
    }

    fn on_dust() -> DustHandler {
        DustHandler::Ignore
    }
}

/// Moves dust to the treasury.
struct Moving;

impl Config for Moving {
    fn spec_existential_deposit(currency_id: CurrencyId) -> Balance {
        Self::existential_deposit(currency_id)
    }

    fn spec_base_unit(currency_id: CurrencyId) -> Balance {
        Self::base_unit(currency_id)
    }

    fn spec_adjustment_frequency() -> BlockNumber {
        Self::adjustment_frequency()
    }

    fn spec_serper_acc() -> AccountId {
        Self::serper_acc()
    }

    fn spec_serp_quote_multiple() -> Balance {
        Self::serp_quote_multiple()
    }

    fn spec_percent() -> Balance {
        Self::percent()
    }

    fn spec_on_dust() -> DustHandler {
        Self::on_dust()
    }

    fn existential_deposit(_currency_id: CurrencyId) -> Balance {
        2
    }

    fn base_unit(_currency_id: CurrencyId) -> Balance {
        100
    }

    fn adjustment_frequency() -> BlockNumber {
        0
    }

    fn serper_acc() -> AccountId {
        SERPERS
    }

    fn serp_quote_multiple() -> Balance {
        2
    }

    fn percent() -> Balance {
        100
    }

    fn on_dust() -> DustHandler {
        DustHandler::Transfer(TransferDust { receiver: TREASURY })
    }
}

/// Burns dust.
struct Burning;

impl Config for Burning {
    fn spec_existential_deposit(currency_id: CurrencyId) -> Balance {
        Self::existential_deposit(currency_id)
    }

    fn spec_base_unit(currency_id: CurrencyId) -> Balance {
        Self::base_unit(currency_id)
    }

    fn spec_adjustment_frequency() -> BlockNumber {
        Self::adjustment_frequency()
    }

    fn spec_serper_acc() -> AccountId {
        Self::serper_acc()
    }

    fn spec_serp_quote_multiple() -> Balance {
        Self::serp_quote_multiple()
    }

    fn spec_percent() -> Balance {
        Self::percent()
    }

    fn spec_on_dust() -> DustHandler {
        Self::on_dust()
    }

    fn existential_deposit(_currency_id: CurrencyId) -> Balance {
        2
    }

    fn base_unit(_currency_id: CurrencyId) -> Balance {
        100
    }

    fn adjustment_frequency() -> BlockNumber {
        0
    }

    fn serper_acc() -> AccountId {
        SERPERS
    }

    fn serp_quote_multiple() -> Balance {
        2
    }

    fn percent() -> Balance {
        100
    }

    fn on_dust() -> DustHandler {
        DustHandler::Burn(BurnDust)
    }
}

/// Reports dust.
struct Reporting;

impl Config for Reporting {
    fn spec_existential_deposit(currency_id: CurrencyId) -> Balance {
        Self::existential_deposit(currency_id)
    }

    fn spec_base_unit(currency_id: CurrencyId) -> Balance {
        Self::base_unit(currency_id)
    }

    fn spec_adjustment_frequency() -> BlockNumber {
        Self::adjustment_frequency()
    }

    fn spec_serper_acc() -> AccountId {
        Self::serper_acc()
    }

    fn spec_serp_quote_multiple() -> Balance {
        Self::serp_quote_multiple()
    }

    fn spec_percent() -> Balance {
        Self::percent()
    }

    fn spec_on_dust() -> DustHandler {
        Self::on_dust()
    }

    fn existential_deposit(_currency_id: CurrencyId) -> Balance {
        2
    }

    fn base_unit(_currency_id: CurrencyId) -> Balance {
        100
    }

    fn adjustment_frequency() -> BlockNumber {
        0
    }

    fn serper_acc() -> AccountId {
        SERPERS
    }

    fn serp_quote_multiple() -> Balance {
        2
    }

    fn percent() -> Balance {
        100
    }

    fn on_dust() -> DustHandler {
        DustHandler::Report
    }
}

/// The account of the module with this name.
fn module_account(name: &[u8; 8]) -> AccountId {
    let mut bytes = [0u8; 32];
    bytes[..4].copy_from_slice(b"modl");
    bytes[4..12].copy_from_slice(name);
    AccountId(bytes)
}

#[test]
fn ignored_dust_stays() {
    let mut pallet: Pallet<Keeping> = Pallet::new();
    assert_eq!(pallet.deposit(1, &ALICE, 100), Ok(()));
    assert_eq!(pallet.currency_transfer(1, &ALICE, &BOB, 99), Ok(()));
    assert_eq!(pallet.free_balance(1, &ALICE), 1);
    assert_eq!(pallet.total_issuance(1), 100);
    assert_eq!(
        pallet.take_effects(),
        vec![
            Effect::IncProviders(ALICE),
            Effect::Deposit(Event::DustLost(ALICE, 1, 1)),
            Effect::IncProviders(BOB),
        ]
    );
}

#[test]
fn dust_goes_to_the_treasury() {
    let mut pallet: Pallet<Moving> = Pallet::new();
    assert_eq!(pallet.deposit(1, &ALICE, 100), Ok(()));
    assert_eq!(pallet.deposit(1, &TREASURY, 5), Ok(()));
    pallet.take_effects();
    assert_eq!(pallet.currency_transfer(1, &ALICE, &BOB, 99), Ok(()));
    assert_eq!(pallet.stored_account(&ALICE, 1), None);
    assert_eq!(pallet.free_balance(1, &TREASURY), 6);
    assert_eq!(pallet.free_balance(1, &BOB), 99);
    assert_eq!(pallet.total_issuance(1), 105);
    assert_eq!(
        pallet.take_effects(),
        vec![
            Effect::DecProviders(ALICE),
            Effect::Deposit(Event::DustLost(ALICE, 1, 1)),
            Effect::IncProviders(BOB),
        ]
    );
}

#[test]
fn dust_of_the_treasury_stays_there() {
    let mut pallet: Pallet<Moving> = Pallet::new();
    assert_eq!(pallet.deposit(1, &ALICE, 100), Ok(()));
    pallet.take_effects();
    assert_eq!(pallet.currency_transfer(1, &ALICE, &BOB, 99), Ok(()));
    assert_eq!(pallet.free_balance(1, &TREASURY), 1);
    assert_eq!(
        pallet.take_effects(),
        vec![
            Effect::DecProviders(ALICE),
            Effect::IncProviders(TREASURY),
            Effect::Deposit(Event::DustLost(TREASURY, 1, 1)),
            Effect::Deposit(Event::DustLost(ALICE, 1, 1)),
            Effect::IncProviders(BOB),
        ]
    );
}

#[test]
fn a_transfer_to_the_treasury_brings_the_dust_of_the_sender() {
    let mut pallet: Pallet<Moving> = Pallet::new();
    assert_eq!(pallet.deposit(1, &ALICE, 100), Ok(()));
    assert_eq!(pallet.deposit(1, &TREASURY, 50), Ok(()));
    assert_eq!(pallet.currency_transfer(1, &ALICE, &TREASURY, 99), Ok(()));
    assert_eq!(pallet.stored_account(&ALICE, 1), None);
    assert_eq!(pallet.free_balance(1, &TREASURY), 150);
    assert_eq!(pallet.total_issuance(1), 150);
}

#[test]
fn a_deposit_of_dust_is_burned_again() {
    let mut pallet: Pallet<Burning> = Pallet::new();
    assert_eq!(pallet.deposit(1, &ALICE, 1), Ok(()));
    assert_eq!(pallet.stored_account(&ALICE, 1), None);
    assert_eq!(pallet.total_issuance(1), 0);
    assert_eq!(pallet.deposit(1, &BOB, 100), Ok(()));
    assert_eq!(pallet.deposit(1, &ALICE, 1), Ok(()));
    assert_eq!(pallet.stored_account(&ALICE, 1), None);
    assert_eq!(pallet.total_issuance(1), 100);
}

#[test]
fn dust_is_burned() {
    let mut pallet: Pallet<Burning> = Pallet::new();
    assert_eq!(pallet.deposit(1, &ALICE, 100), Ok(()));
    assert_eq!(pallet.currency_transfer(1, &ALICE, &BOB, 99), Ok(()));
    assert_eq!(pallet.stored_account(&ALICE, 1), None);
    assert_eq!(pallet.free_balance(1, &BOB), 99);
    assert_eq!(pallet.total_issuance(1), 99);
}

#[test]
fn dust_is_reported() {
    let mut pallet: Pallet<Reporting> = Pallet::new();
    assert_eq!(pallet.deposit(1, &ALICE, 1), Ok(()));
    assert_eq!(pallet.free_balance(1, &ALICE), 1);
    assert_eq!(
        pallet.take_effects(),
        vec![
            Effect::IncProviders(ALICE),
            Effect::HandleDust(ALICE, 1, 1),
            Effect::Deposit(Event::DustLost(ALICE, 1, 1)),
        ]
    );
}

#[test]
fn the_system_counts_what_is_stored() {
    let mut pallet: Pallet<Moving> = Pallet::new();
    assert_eq!(pallet.deposit(1, &ALICE, 100), Ok(()));
    assert_eq!(pallet.deposit(2, &ALICE, 50), Ok(()));
    assert_eq!(pallet.set_lock([7; 8], 2, &ALICE, 10), Ok(()));
    assert_eq!(pallet.currency_transfer(1, &ALICE, &BOB, 99), Ok(()));
    assert_eq!(pallet.withdraw(1, &BOB, 99), Ok(()));
    let effects = pallet.take_effects();
    for who in [ALICE, BOB, TREASURY].iter() {
        let count = |wanted: Effect| effects.iter().filter(|e| **e == wanted).count();
        let providers = count(Effect::IncProviders(*who)) - count(Effect::DecProviders(*who));
        assert_eq!(providers, pallet.currencies_of(who).len());
        let consumers = count(Effect::IncConsumers(*who)) - count(Effect::DecConsumers(*who));
        let locked = (1..3).filter(|c| !pallet.locks(who, *c).is_empty()).count();
        assert_eq!(consumers, locked);
    }
}

#[test]
fn reserved_dust_cannot_be_burned() {
    let mut pallet: Pallet<Burning> = Pallet::new();
    assert_eq!(pallet.deposit(1, &ALICE, 100), Ok(()));
    assert_eq!(pallet.reserve(1, &ALICE, 50), Ok(()));
    assert_eq!(pallet.slash(1, &ALICE, 99), 0);
    assert_eq!(pallet.reserved_balance(1, &ALICE), 1);
    assert_eq!(pallet.total_issuance(1), 1);
}

#[test]
fn reserving_and_unreserving_burn_nothing() {
    let mut pallet: Pallet<Burning> = Pallet::new();
    assert_eq!(pallet.deposit(1, &ALICE, 100), Ok(()));
    pallet.take_effects();
    assert_eq!(pallet.reserve(1, &ALICE, 99), Ok(()));
    assert_eq!(
        pallet.accounts(&ALICE, 1),
        AccountData {
            free: 1,
            reserved: 99,
            frozen: 0
        }
    );
    assert_eq!(pallet.total_issuance(1), 100);
    assert_eq!(pallet.unreserve(1, &ALICE, 99), 0);
    assert_eq!(pallet.free_balance(1, &ALICE), 100);
    assert_eq!(pallet.total_issuance(1), 100);
    assert_eq!(pallet.take_effects(), vec![]);
}

#[test]
fn unreserving_moves_nothing_to_the_treasury() {
    let mut pallet: Pallet<Moving> = Pallet::new();
    assert_eq!(pallet.deposit(1, &ALICE, 100), Ok(()));
    assert_eq!(pallet.reserve(1, &ALICE, 99), Ok(()));
    assert_eq!(pallet.unreserve(1, &ALICE, 99), 0);
    assert_eq!(pallet.free_balance(1, &ALICE), 100);
    assert_eq!(pallet.stored_account(&TREASURY, 1), None);
}

#[test]
fn dust_under_a_lock_stays() {
    let mut pallet: Pallet<Moving> = Pallet::new();
    assert_eq!(pallet.set_lock([7; 8], 1, &ALICE, 60), Ok(()));
    assert_eq!(pallet.deposit(1, &ALICE, 1), Ok(()));
    assert_eq!(
        pallet.accounts(&ALICE, 1),
        AccountData {
            free: 1,
            reserved: 0,
            frozen: 60
        }
    );
    assert_eq!(pallet.stored_account(&TREASURY, 1), None);
}

#[test]
fn modules_keep_dust() {
    let module = module_account(b"aca/trsy");
    let mut pallet: Pallet<Moving> = Pallet::new();
    assert_eq!(pallet.deposit(1, &module, 1), Ok(()));
    assert_eq!(pallet.free_balance(1, &module), 1);
    assert_eq!(pallet.free_balance(1, &TREASURY), 0);
    assert_eq!(pallet.take_effects(), vec![Effect::IncProviders(module)]);
}

#[test]
fn what_only_resembles_a_module_does_not_keep_dust() {
    let mut another_tag = module_account(b"aca/trsy");
    another_tag.0[3] = b'x';
    let mut longer = module_account(b"aca/trsy");
    longer.0[12] = 1;
    let mut last = module_account(b"aca/trsy");
    last.0[31] = 1;
    let mut pallet: Pallet<Moving> = Pallet::new();
    for (i, who) in [another_tag, longer, last].iter().enumerate() {
        assert_eq!(pallet.deposit(1, who, 1), Ok(()));
        assert_eq!(pallet.stored_account(who, 1), None);
        assert_eq!(pallet.free_balance(1, &TREASURY), i as Balance + 1);
    }
}

#[test]
fn a_module_needs_no_name() {
    let module = module_account(&[0; 8]);
    let mut pallet: Pallet<Moving> = Pallet::new();
    assert_eq!(pallet.deposit(1, &module, 1), Ok(()));
    assert_eq!(pallet.free_balance(1, &module), 1);
}

#[test]
fn handlers_transfer_and_withdraw() {
    let mut pallet: Pallet<Keeping> = Pallet::new();
    assert_eq!(pallet.deposit(1, &ALICE, 100), Ok(()));
    TransferDust { receiver: TREASURY }.on_dust(&mut pallet, &ALICE, 1, 30);
    assert_eq!(pallet.free_balance(1, &TREASURY), 30);
    TransferDust { receiver: TREASURY }.on_dust(&mut pallet, &ALICE, 1, 71);
    assert_eq!(pallet.free_balance(1, &TREASURY), 30);
    BurnDust.on_dust(&mut pallet, &ALICE, 1, 20);
    assert_eq!(pallet.free_balance(1, &ALICE), 50);
    assert_eq!(pallet.total_issuance(1), 80);
    BurnDust.on_dust(&mut pallet, &ALICE, 1, 51);
    assert_eq!(pallet.total_issuance(1), 80);
}

#[test]
fn sweeping_is_what_the_handler_does() {
    let dust = AccountData {
        free: 1,
        reserved: 0,
        frozen: 0,
    };
    let mut swept: Pallet<Moving> = Pallet::new();
    assert_eq!(swept.deposit(1, &ALICE, 1), Ok(()));
    let mut handled: Pallet<Moving> = Pallet::new();
    handled.load_account(&ALICE, 1, dust);
    handled.load_issuance(1, 1);
    TransferDust { receiver: TREASURY }.on_dust(&mut handled, &ALICE, 1, 1);
    for who in [ALICE, TREASURY].iter() {
        assert_eq!(swept.stored_account(who, 1), handled.stored_account(who, 1));
    }
    assert_eq!(swept.total_issuance(1), handled.total_issuance(1));
}
