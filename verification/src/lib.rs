//! A ledger for many stable currencies whose supply is elastic.
//!
//! The crate keeps, per account and currency, a free, a reserved and a frozen
//! balance, the total issuance of each currency and the locks on each balance.
//! Every operation on that ledger is a verified function whose contract says
//! which ledger it leaves behind, as a function of the ledger it found.
//!
//! - [`account`], [`types`] and [`config`]: the values the ledger is made of,
//!   and the parameters a runtime supplies.
//! - [`storage`]: the map that holds the entries.
//! - [`state`]: the mathematical model of the ledger and of its primitive steps.
//! - [`pallet`]: the ledger itself and the writing of one account entry.
//! - [`currency`], [`reservable`], [`lockable`], [`serp`], [`merge`],
//!   [`genesis`], [`dispatch`], [`dust`]: the operations.
//! - [`adapter`] and [`imbalances`]: one currency on its own.
//! - [`guards`]: whether an operation may be called.
//! - [`laws`]: what holds of the ledger as a whole.
pub mod account;
pub mod adapter;
pub mod config;
pub mod currency;
pub mod dispatch;
pub mod dust;
pub mod genesis;
pub mod guards;
pub mod imbalances;
pub mod laws;
pub mod lockable;
pub mod merge;
pub mod pallet;
pub mod reservable;
pub mod serp;
pub mod state;
pub mod storage;
pub mod types;
