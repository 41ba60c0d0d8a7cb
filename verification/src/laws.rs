//! What holds of the ledger as a whole.
//!
//! - [`words`]: what is read of a ledger, and what the words of the contracts
//!   mean.
//! - [`outcomes`]: when each operation succeeds, and why it fails where it does.
//! - [`writing`]: all that the writing of one entry does, with dust or without.
//! - [`steps`]: which entries and total issuances each operation writes, and
//!   when it may be called.
//! - [`calls`] and [`tokens`]: what a call of each operation returns and leaves
//!   behind.
//! - [`guarding`]: what is asked before a call is whether it may be made.
//! - [`quotes`]: what a change of the supply costs, and to what the supply is
//!   adjusted.
//! - [`starting`]: with what a ledger starts, and when it can.
//! - [`backing`]: what it means that everything issued is held by someone, and
//!   what the writing of one entry does to that.
//! - [`supply`]: every operation that settles the total issuance issues and
//!   takes back exactly what it says, as long as a change of supply is not paid
//!   for with the currency itself.
//! - [`owed`]: an operation that leaves the total issuance alone, or changes
//!   nothing else, hands out an imbalance of exactly the difference, and
//!   settling that imbalance makes up for it.
//! - [`room`]: where everything issued is held, no operation that settles the
//!   total issuance overflows, given that the serpers can pay for a change of
//!   supply. An operation that leaves an imbalance may still burn dust that was
//!   not issued yet.
//! - [`order`]: entries are only stored where there is something to store, the
//!   system counts them right, and no other currency is touched.
//! - [`moves`]: what the operations do to the balances.
//! - [`dusting`]: what becomes of dust.
//! - [`locking`]: what is done to locks.
//! - [`binding`]: locks bind, whatever happens to the account.
//! - [`merging`]: a merge moves everything, and when it succeeds.
//! - [`peg`]: the supply follows the price.
//! - [`sums`]: sums over the entries of a map.
pub mod backing;
pub mod binding;
pub mod calls;
pub mod dusting;
pub mod guarding;
pub mod locking;
pub mod merging;
pub mod moves;
pub mod order;
pub mod outcomes;
pub mod owed;
pub mod peg;
pub mod quotes;
pub mod room;
pub mod starting;
pub mod steps;
pub mod sums;
pub mod supply;
pub mod tokens;
pub mod words;
pub mod writing;
