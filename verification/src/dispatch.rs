//! The calls that a user makes.
use crate::account::AccountId;
use crate::config::Config;
use crate::pallet::Pallet;
use crate::state::State;
use crate::types::{Balance, CurrencyId, Error, Event};
use vstd::prelude::*;

verus! {

/// On whose behalf a call is made.
#[derive(Clone, Copy, PartialEq, Eq, Debug)]
pub enum Origin {
    /// The system itself.
    Root,
    /// The account that signed the call.
    Signed(AccountId),
    /// Nobody.
    Unsigned,
}

/// An address that leads to no account.
#[derive(Clone, Copy, PartialEq, Eq, Structural, Debug)]
pub struct LookupError;

/// Why a call fails.
#[derive(Clone, Copy, PartialEq, Eq, Structural, Debug)]
pub enum DispatchError {
    /// The call has to be signed.
    BadOrigin,
    /// The address of the recipient leads to no account.
    CannotLookup,
    /// The ledger refuses it.
    Module(Error),
}

/// The two accounts of a call, or why there are none.
pub open spec fn parties(origin: Origin, dest: Result<AccountId, LookupError>) -> Result<
    (AccountId, AccountId),
    DispatchError,
> {
    match origin {
        Origin::Signed(from) => match dest {
            Ok(to) => Ok((from, to)),
            Err(_) => Err(DispatchError::CannotLookup),
        },
        _ => Err(DispatchError::BadOrigin),
    }
}

impl State {
    /// Whether a call that transfers succeeds, and if not, why not.
    pub open spec fn transfer_call_outcome(
        self,
        from: AccountId,
        to: AccountId,
        currency_id: CurrencyId,
        amount: Balance,
    ) -> Result<(), DispatchError> {
        match self.transfer_outcome(currency_id, from, to, amount) {
            Ok(_) => Ok(()),
            Err(e) => Err(DispatchError::Module(e)),
        }
    }

    /// The ledger after a call that transfers, which is the same ledger if the
    /// transfer fails.
    pub open spec fn transfer_called<T: Config>(
        self,
        from: AccountId,
        to: AccountId,
        currency_id: CurrencyId,
        amount: Balance,
    ) -> State {
        match self.transfer_outcome(currency_id, from, to, amount) {
            Ok(_) => self.transferred::<T>(currency_id, from, to, amount).with_event(
                Event::Transferred(currency_id, from, to, amount),
            ),
            Err(_) => self,
        }
    }
}

/// The account that signed a call.
pub fn ensure_signed(origin: Origin) -> (r: Result<AccountId, DispatchError>)
    ensures
        r == (match origin {
            Origin::Signed(who) => Ok::<AccountId, DispatchError>(who),
            _ => Err(DispatchError::BadOrigin),
        }),
{
    match origin {
        Origin::Signed(who) => Ok(who),
        _ => Err(DispatchError::BadOrigin),
    }
}

/// The two accounts of a call.
fn find_parties(origin: Origin, dest: Result<AccountId, LookupError>) -> (r: Result<
    (AccountId, AccountId),
    DispatchError,
>)
    ensures
        r == parties(origin, dest),
{
    match ensure_signed(origin) {
        Ok(from) => match dest {
            Ok(to) => Ok((from, to)),
            Err(_) => Err(DispatchError::CannotLookup),
        },
        Err(e) => Err(e),
    }
}

impl<T: Config> Pallet<T> {
    /// Transfers and announces it.
    fn transfer_and_announce(
        &mut self,
        from: AccountId,
        to: AccountId,
        currency_id: CurrencyId,
        amount: Balance,
    ) -> (r: Result<(), DispatchError>)
        requires
            old(self)@.transfer_fits::<T>(currency_id, from, to, amount),
        ensures
            r == old(self)@.transfer_call_outcome(from, to, currency_id, amount),
            final(self)@ == old(self)@.transfer_called::<T>(from, to, currency_id, amount),
    {
        match self.currency_transfer(currency_id, &from, &to, amount) {
            Ok(()) => {
                self.deposit_event(Event::Transferred(currency_id, from, to, amount));
                Ok(())
            },
            Err(e) => Err(DispatchError::Module(e)),
        }
    }

    /// Transfer some balance to another account.
    ///
    /// The dispatch origin for this call must be `Signed` by the transactor.
    /// `dest` is what the address of the recipient leads to.
    pub fn transfer(
        &mut self,
        origin: Origin,
        dest: Result<AccountId, LookupError>,
        currency_id: CurrencyId,
        amount: Balance,
    ) -> (r: Result<(), DispatchError>)
        requires
            parties(origin, dest) matches Ok((from, to)) ==> old(self)@.transfer_fits::<T>(
                currency_id,
                from,
                to,
                amount,
            ),
        ensures
            match parties(origin, dest) {
                Ok((from, to)) => {
                    &&& r == old(self)@.transfer_call_outcome(from, to, currency_id, amount)
                    &&& final(self)@ == old(self)@.transfer_called::<T>(
                        from,
                        to,
                        currency_id,
                        amount,
                    )
                },
                Err(e) => r == Err::<(), DispatchError>(e) && final(self)@ == old(self)@,
            },
    {
        match find_parties(origin, dest) {
            Ok((from, to)) => self.transfer_and_announce(from, to, currency_id, amount),
            Err(e) => Err(e),
        }
    }

    /// Transfer all remaining balance to the given account.
    ///
    /// The dispatch origin for this call must be `Signed` by the transactor.
    /// `dest` is what the address of the recipient leads to.
    pub fn transfer_all(
        &mut self,
        origin: Origin,
        dest: Result<AccountId, LookupError>,
        currency_id: CurrencyId,
    ) -> (r: Result<(), DispatchError>)
        requires
            parties(origin, dest) matches Ok((from, to)) ==> old(self)@.transfer_fits::<T>(
                currency_id,
                from,
                to,
                old(self)@.account(from, currency_id).free,
            ),
        ensures
            match parties(origin, dest) {
                Ok((from, to)) => {
                    let balance = old(self)@.account(from, currency_id).free;
                    &&& r == old(self)@.transfer_call_outcome(from, to, currency_id, balance)
                    &&& final(self)@ == old(self)@.transfer_called::<T>(
                        from,
                        to,
                        currency_id,
                        balance,
                    )
                },
                Err(e) => r == Err::<(), DispatchError>(e) && final(self)@ == old(self)@,
            },
    {
        match find_parties(origin, dest) {
            Ok((from, to)) => {
                let balance: Balance = self.free_balance(currency_id, &from);
                self.transfer_and_announce(from, to, currency_id, balance)
            },
            Err(e) => Err(e),
        }
    }
}

} // verus!
