//! What becomes of balances too small to keep an account.
use crate::account::AccountId;
use crate::config::Config;
use crate::pallet::Pallet;
use crate::types::{Balance, CurrencyId};
use vstd::prelude::*;

verus! {

/// Moves dust to a fixed account.
#[derive(Clone, Copy, PartialEq, Eq, Debug)]
pub struct TransferDust {
    /// The account that receives the dust.
    pub receiver: AccountId,
}

/// Takes dust out of circulation.
#[derive(Clone, Copy, PartialEq, Eq, Debug)]
pub struct BurnDust;

/// Handler for an account which has dust.
#[derive(Clone, Copy, PartialEq, Eq, Debug)]
pub enum DustHandler {
    /// Leave the dust where it is.
    Ignore,
    /// Transfer the dust.
    Transfer(TransferDust),
    /// Burn the dust.
    Burn(BurnDust),
    /// Leave the dust where it is and tell the system of it, for a handler of
    /// the runtime's own. Such a handler runs once the operation is done, after
    /// whatever the operation still has to write.
    Report,
}

impl TransferDust {
    /// Transfers `amount` from `who` to the receiver. The result is ignored: if
    /// it failed, some dust is left which still could be recycled.
    pub fn on_dust<T: Config>(
        &self,
        pallet: &mut Pallet<T>,
        who: &AccountId,
        currency_id: CurrencyId,
        amount: Balance,
    )
        requires
            old(pallet)@.transfer_fits::<T>(currency_id, *who, self.receiver, amount),
        ensures
            final(pallet)@ == old(pallet)@.transferred::<T>(
                currency_id,
                *who,
                self.receiver,
                amount,
            ),
    {
        let _ = pallet.currency_transfer(currency_id, who, &self.receiver, amount);
    }
}

impl BurnDust {
    /// Burns `amount` of what `who` has. The result is ignored: if it failed,
    /// some dust is left which still could be recycled.
    pub fn on_dust<T: Config>(
        &self,
        pallet: &mut Pallet<T>,
        who: &AccountId,
        currency_id: CurrencyId,
        amount: Balance,
    )
        requires
            old(pallet)@.withdraw_fits::<T>(currency_id, *who, amount),
        ensures
            final(pallet)@ == old(pallet)@.withdrawn::<T>(currency_id, *who, amount),
    {
        let _ = pallet.withdraw(currency_id, who, amount);
    }
}

} // verus!
