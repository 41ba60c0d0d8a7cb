//! What becomes of dust.
use crate::account::AccountId;
use crate::config::Config;
use crate::dust::{BurnDust, DustHandler, TransferDust};
use crate::state::{is_dust, State};
use crate::types::{AccountData, Balance, CurrencyId};
use vstd::prelude::*;

verus! {

impl State {
    /// Moving the dust of an account is a transfer like any other: what happens
    /// on the way is what happens if [`TransferDust::on_dust`] is called.
    pub proof fn law_sweep_is_transfer<T: Config>(
        self,
        currency_id: CurrencyId,
        who: AccountId,
        handler: TransferDust,
    )
        requires
            T::spec_on_dust() == DustHandler::Transfer(handler),
            is_dust::<T>(who, currency_id, self.account(who, currency_id)),
        ensures
            ({
                let dust = self.account(who, currency_id).spec_total();
                &&& self.transfer_fits::<T>(currency_id, who, handler.receiver, dust)
                &&& self.handle_dust::<T>(who, currency_id, dust) == self.transferred::<T>(
                    currency_id,
                    who,
                    handler.receiver,
                    dust,
                )
            }),
    {
        let account = self.account(who, currency_id);
        let dust = account.spec_total();
        let to = handler.receiver;
        if who != to && self.transfer_outcome(currency_id, who, to, dust) is Ok {
            let left = AccountData { free: (account.free - dust) as Balance, ..account };
            assert(left.holding() == 0);
            let s = self.put_account::<T>(who, currency_id, left);
            assert(s == self.record_account::<T>(who, currency_id, left));
            let more = AccountData {
                free: (self.account(to, currency_id).free + dust) as Balance,
                ..s.account(to, currency_id)
            };
            let t = s.write_account(to, currency_id, more);
            assert(t.sweep_to::<T>(currency_id, to, to, more.spec_total()) == t);
            assert(s.put_account::<T>(to, currency_id, more) == s.record_account::<T>(
                to,
                currency_id,
                more,
            ));
        }
    }

    /// Burning the dust of an account is a withdrawal like any other: what
    /// happens on the way is what happens if [`BurnDust::on_dust`] is called.
    pub proof fn law_sweep_is_withdrawal<T: Config>(
        self,
        currency_id: CurrencyId,
        who: AccountId,
        handler: BurnDust,
    )
        requires
            T::spec_on_dust() == DustHandler::Burn(handler),
            is_dust::<T>(who, currency_id, self.account(who, currency_id)),
            self.dust_fits::<T>(
                who,
                currency_id,
                self.account(who, currency_id).spec_total(),
            ),
        ensures
            ({
                let dust = self.account(who, currency_id).spec_total();
                &&& self.withdraw_fits::<T>(currency_id, who, dust)
                &&& self.handle_dust::<T>(who, currency_id, dust) == self.withdrawn::<T>(
                    currency_id,
                    who,
                    dust,
                )
            }),
    {
        let account = self.account(who, currency_id);
        let dust = account.spec_total();
        if self.withdrawal(currency_id, who, dust) is Ok {
            let left = AccountData { free: (account.free - dust) as Balance, ..account };
            assert(left.holding() == 0);
            let s = self.with_issuance(currency_id, self.total_issuance(currency_id) - dust);
            assert(s.account(who, currency_id) == account);
            assert(s.put_account::<T>(who, currency_id, left) == s.record_account::<T>(
                who,
                currency_id,
                left,
            ));
        }
    }

    /// The accounts of modules keep what they have, however little.
    pub proof fn law_modules_keep_dust<T: Config>(
        self,
        who: AccountId,
        currency_id: CurrencyId,
        account: AccountData,
    )
        requires
            who.is_module(),
        ensures
            self.put_account::<T>(who, currency_id, account) == self.write_account(
                who,
                currency_id,
                account,
            ),
    {
    }

    /// An entry of the existential deposit or more stays as it is written.
    pub proof fn law_enough_is_kept<T: Config>(
        self,
        who: AccountId,
        currency_id: CurrencyId,
        account: AccountData,
    )
        requires
            account.spec_total() >= T::spec_existential_deposit(currency_id),
        ensures
            self.put_account::<T>(who, currency_id, account) == self.write_account(
                who,
                currency_id,
                account,
            ),
    {
    }

    /// Dust that leaves leaves no entry behind.
    pub proof fn law_dust_leaves_no_entry<T: Config>(
        self,
        who: AccountId,
        currency_id: CurrencyId,
        account: AccountData,
    )
        requires
            self.put_fits::<T>(who, currency_id, account),
            self.dust_leaves::<T>(who, currency_id, account),
        ensures
            !self.put_account::<T>(who, currency_id, account).is_stored(who, currency_id),
    {
        let s = self.write_account(who, currency_id, account);
        let dust = account.spec_total();
        let entry = self.bound(who, currency_id, account);
        assert(s.account(who, currency_id) == entry);
        let left = AccountData { free: (entry.free - dust) as Balance, ..entry };
        assert(left.holding() == 0);
        match T::spec_on_dust() {
            DustHandler::Ignore | DustHandler::Report => {},
            DustHandler::Transfer(h) => {
                let t = s.record_account::<T>(who, currency_id, left);
                assert(!t.is_stored(who, currency_id));
            },
            DustHandler::Burn(_) => {},
        }
    }
}

} // verus!
