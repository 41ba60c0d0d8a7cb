//! Moving everything that an account has to another.
use crate::account::AccountId;
use crate::config::Config;
use crate::pallet::Pallet;
use crate::state::State;
use crate::types::{AccountData, CurrencyId, Error};
use vstd::prelude::*;

verus! {

impl State {
    /// The ledger after the whole free balance under one currency was moved, or
    /// why it could not be.
    pub open spec fn merge_one<T: Config>(
        self,
        source: AccountId,
        dest: AccountId,
        currency_id: CurrencyId,
    ) -> Result<State, Error> {
        let account = self.account(source, currency_id);
        if account.reserved != 0 {
            Err(Error::StillHasActiveReserved)
        } else {
            match self.transfer_outcome(currency_id, source, dest, account.free) {
                Ok(_) => Ok(self.transferred::<T>(currency_id, source, dest, account.free)),
                Err(e) => Err(e),
            }
        }
    }

    /// The ledger after that was done for one currency after the other, or why
    /// the first of them that failed did.
    pub open spec fn merge_all<T: Config>(
        self,
        source: AccountId,
        dest: AccountId,
        walk: Seq<CurrencyId>,
    ) -> Result<State, Error>
        decreases walk.len(),
    {
        if walk.len() == 0 {
            Ok(self)
        } else {
            match self.merge_all::<T>(source, dest, walk.drop_last()) {
                Ok(s) => s.merge_one::<T>(source, dest, walk.last()),
                Err(e) => Err(e),
            }
        }
    }

    /// Whether one transfer of a merge, if the merge comes to it, stays within
    /// what was issued.
    pub open spec fn merge_step_fits<T: Config>(
        self,
        source: AccountId,
        dest: AccountId,
        walk: Seq<CurrencyId>,
        i: int,
    ) -> bool {
        match self.merge_all::<T>(source, dest, walk.take(i)) {
            Ok(s) => s.account(source, walk[i]).reserved == 0 ==> s.transfer_fits::<T>(
                walk[i],
                source,
                dest,
                s.account(source, walk[i]).free,
            ),
            Err(_) => true,
        }
    }

    /// Whether every transfer of a merge stays within what was issued.
    pub open spec fn merge_fits<T: Config>(
        self,
        source: AccountId,
        dest: AccountId,
        walk: Seq<CurrencyId>,
    ) -> bool {
        forall|i: int|
            0 <= i < walk.len() ==> #[trigger] self.merge_step_fits::<T>(source, dest, walk, i)
    }

    /// The ledger after a merge, which is the same ledger if any of it failed.
    pub open spec fn merged<T: Config>(
        self,
        source: AccountId,
        dest: AccountId,
        walk: Seq<CurrencyId>,
    ) -> State {
        match self.merge_all::<T>(source, dest, walk) {
            Ok(s) => s,
            Err(_) => self,
        }
    }

    /// Why a merge fails, if it does.
    pub open spec fn merge_outcome<T: Config>(
        self,
        source: AccountId,
        dest: AccountId,
        walk: Seq<CurrencyId>,
    ) -> Result<(), Error> {
        match self.merge_all::<T>(source, dest, walk) {
            Ok(_) => Ok(()),
            Err(e) => Err(e),
        }
    }
}

impl State {
    /// A failure on the way is the failure of the whole.
    pub proof fn lemma_merge_stops<T: Config>(
        self,
        source: AccountId,
        dest: AccountId,
        walk: Seq<CurrencyId>,
        i: int,
    )
        requires
            0 <= i <= walk.len(),
            self.merge_all::<T>(source, dest, walk.take(i)) is Err,
        ensures
            self.merge_all::<T>(source, dest, walk) == self.merge_all::<T>(
                source,
                dest,
                walk.take(i),
            ),
        decreases walk.len() - i,
    {
        if i < walk.len() {
            assert(walk.take(i + 1).drop_last() =~= walk.take(i));
            self.lemma_merge_stops::<T>(source, dest, walk, i + 1);
        } else {
            assert(walk.take(i) =~= walk);
        }
    }

    /// A merge that comes to a failure comes to nothing after it.
    pub proof fn lemma_stopped_merge_fits<T: Config>(
        self,
        source: AccountId,
        dest: AccountId,
        walk: Seq<CurrencyId>,
        i: int,
    )
        requires
            0 <= i <= walk.len(),
            self.merge_all::<T>(source, dest, walk.take(i)) is Err,
            forall|j: int|
                0 <= j < i ==> #[trigger] self.merge_step_fits::<T>(source, dest, walk, j),
        ensures
            self.merge_fits::<T>(source, dest, walk),
    {
        assert forall|j: int| 0 <= j < walk.len() implies #[trigger] self.merge_step_fits::<T>(
            source,
            dest,
            walk,
            j,
        ) by {
            if j >= i {
                assert(walk.take(j).take(i) =~= walk.take(i));
                self.lemma_merge_stops::<T>(source, dest, walk.take(j), i);
            }
        }
    }
}

impl<T: Config> Pallet<T> {
    /// Moves the free balances of `source` to `dest` under one currency after
    /// the other, in the order of `walk`. If any of them cannot be moved, the
    /// ledger stays as it was.
    pub fn merge_account_in_order(
        &mut self,
        source: &AccountId,
        dest: &AccountId,
        walk: &Vec<CurrencyId>,
    ) -> (r: Result<(), Error>)
        requires
            old(self)@.merge_fits::<T>(*source, *dest, walk@),
        ensures
            r == old(self)@.merge_outcome::<T>(*source, *dest, walk@),
            final(self)@ == old(self)@.merged::<T>(*source, *dest, walk@),
    {
        let before: Pallet<T> = self.duplicate();
        let ghost start = self@;
        let mut i: usize = 0;
        assert(walk@.take(0) =~= Seq::empty());
        while i < walk.len()
            invariant
                i <= walk@.len(),
                start == old(self)@,
                before@ == start,
                start.merge_fits::<T>(*source, *dest, walk@),
                start.merge_all::<T>(*source, *dest, walk@.take(i as int)) == Ok::<State, Error>(
                    self@,
                ),
            decreases walk@.len() - i,
        {
            let currency_id: CurrencyId = walk[i];
            let account_data: AccountData = self.accounts(source, currency_id);
            assert(start.merge_step_fits::<T>(*source, *dest, walk@, i as int));
            assert(walk@.take(i + 1).drop_last() =~= walk@.take(i as int));
            // ensure the account has no active reserved of non-native token
            let moved: Result<(), Error> = if account_data.reserved != 0 {
                Err(Error::StillHasActiveReserved)
            } else {
                // transfer all free to recipient
                self.currency_transfer(currency_id, source, dest, account_data.free)
            };
            match moved {
                Ok(()) => {},
                Err(e) => {
                    proof {
                        start.lemma_merge_stops::<T>(*source, *dest, walk@, i + 1);
                    }
                    *self = before;
                    return Err(e);
                },
            }
            i = i + 1;
        }
        assert(walk@.take(i as int) =~= walk@);
        Ok(())
    }

    /// Moves all free balances of `source` to `dest`. If any of them cannot be
    /// moved, or any balance of `source` is reserved, the ledger stays as it
    /// was. Which order the currencies are gone through in is left open.
    pub fn merge_account(&mut self, source: &AccountId, dest: &AccountId) -> (r: Result<(), Error>)
        requires
            forall|walk: Seq<CurrencyId>| #[trigger]
                old(self)@.walks(*source, walk) ==> old(self)@.merge_fits::<T>(*source, *dest, walk),
        ensures
            exists|walk: Seq<CurrencyId>| #[trigger]
                old(self)@.walks(*source, walk) && r == old(self)@.merge_outcome::<T>(
                    *source,
                    *dest,
                    walk,
                ) && final(self)@ == old(self)@.merged::<T>(*source, *dest, walk),
    {
        let walk: Vec<CurrencyId> = self.currencies_of(source);
        self.merge_account_in_order(source, dest, &walk)
    }
}

} // verus!
