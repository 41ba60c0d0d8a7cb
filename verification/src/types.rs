//! The values that a ledger is made of.
use crate::account::AccountId;
use vstd::prelude::*;

verus! {

/// An amount of one currency.
pub type Balance = u128;

/// A signed change of a balance.
pub type Amount = i128;

/// The identifier of a currency.
pub type CurrencyId = u32;

/// The number of a block.
pub type BlockNumber = u64;

/// The identifier of a lock, which tells the locks of one balance apart.
pub type LockIdentifier = [u8; 8];

/// A single lock on a balance. There can be many of these on an account and
/// they "overlap", so the same balance is frozen by multiple locks.
#[derive(Clone, Copy, PartialEq, Eq, Debug)]
pub struct BalanceLock {
    /// An identifier for this lock. Only one lock may be in existence for each
    /// identifier.
    pub id: LockIdentifier,
    /// The amount which the free balance may not drop below when this lock is
    /// in effect.
    pub amount: Balance,
}

/// Balance information for an account.
#[derive(Clone, Copy, PartialEq, Eq, Debug)]
pub struct AccountData {
    /// Non-reserved part of the balance. There may still be restrictions on
    /// this, but it is the total pool what may in principle be transferred,
    /// reserved.
    pub free: Balance,
    /// Balance which is reserved and may not be used at all.
    ///
    /// This can still get slashed, but gets slashed last of all.
    pub reserved: Balance,
    /// The amount that `free` may not drop below when withdrawing.
    pub frozen: Balance,
}

impl AccountData {
    /// The entry of an account that was never written.
    pub open spec fn empty() -> AccountData {
        AccountData { free: 0, reserved: 0, frozen: 0 }
    }

    /// What the account holds, free and reserved together, as a number that
    /// knows no upper limit.
    pub open spec fn holding(self) -> int {
        self.free + self.reserved
    }

    /// The total balance, capped at the largest balance there is.
    pub open spec fn spec_total(self) -> Balance {
        if self.holding() <= Balance::MAX {
            self.holding() as Balance
        } else {
            Balance::MAX
        }
    }

    /// The amount that this account's free balance may not be reduced beyond.
    pub fn frozen(&self) -> (r: Balance)
        ensures
            r == self.frozen,
    {
        self.frozen
    }

    /// The total balance in this account, with any that is reserved and
    /// ignoring any frozen.
    pub fn total(&self) -> (r: Balance)
        ensures
            r == self.spec_total(),
    {
        self.free.saturating_add(self.reserved)
    }
}

impl Default for AccountData {
    fn default() -> (r: AccountData)
        ensures
            r == AccountData::empty(),
    {
        AccountData { free: 0, reserved: 0, frozen: 0 }
    }
}

/// Status of funds.
#[derive(Clone, Copy, PartialEq, Eq, Structural, Debug)]
pub enum BalanceStatus {
    /// Funds are free.
    Free,
    /// Funds are reserved.
    Reserved,
}

/// Why the ledger refuses an operation.
#[derive(Clone, Copy, PartialEq, Eq, Structural, Debug)]
pub enum Error {
    /// The balance is too low
    BalanceTooLow,
    /// This operation will cause balance to overflow
    BalanceOverflow,
    /// This operation will cause total issuance to overflow
    TotalIssuanceOverflow,
    /// Cannot convert Amount into Balance type
    AmountIntoBalanceFailed,
    /// Failed because liquidity restrictions due to locking
    LiquidityRestrictions,
    /// Account still has active reserved
    StillHasActiveReserved,
    /// Something went wrong and the price is Zero
    ZeroPrice,
    /// The supply could not be expanded
    SerpUpFailed,
    /// The supply could not be contracted
    SerpDownFailed,
}

/// What the ledger announces.
#[derive(Clone, Copy, PartialEq, Eq, Debug)]
pub enum Event {
    /// Token transfer success. \[currency_id, from, to, amount\]
    Transferred(CurrencyId, AccountId, AccountId, Balance),
    /// An account was removed whose balance was non-zero but below
    /// ExistentialDeposit, resulting in an outright loss. \[account,
    /// currency_id, amount\]
    DustLost(AccountId, CurrencyId, Balance),
    /// Supply Expansion Successful. \[currency_id, expand_by\]
    SerpedUpSupply(CurrencyId, Balance),
    /// Supply Contraction Successful. \[currency_id, contract_by\]
    SerpedDownSupply(CurrencyId, Balance),
}

/// Work that an operation hands to the system around the ledger, in the order
/// in which it is to be done.
#[derive(Clone, Copy, PartialEq, Eq, Debug)]
pub enum Effect {
    /// Count one more reason for the account to exist.
    IncProviders(AccountId),
    /// Count one reason less for the account to exist. Whether the system
    /// allows it makes no difference to the ledger.
    DecProviders(AccountId),
    /// Count one more user of the account. Whether the system allows it makes
    /// no difference to the ledger.
    IncConsumers(AccountId),
    /// Count one user less of the account.
    DecConsumers(AccountId),
    /// Handle the dust of the account. \[account, currency_id, amount\]
    HandleDust(AccountId, CurrencyId, Balance),
    /// Announce an event.
    Deposit(Event),
}

} // verus!
