//! The first entries of a ledger.
use crate::account::AccountId;
use crate::config::Config;
use crate::pallet::Pallet;
use crate::state::State;
use crate::storage::key;
use crate::types::{AccountData, Balance, CurrencyId};
use vstd::prelude::*;

verus! {

/// Who starts with what.
pub struct GenesisConfig {
    /// The accounts that start with a balance, and under which currency.
    pub endowed_accounts: Vec<(AccountId, CurrencyId, Balance)>,
}

/// Why a ledger cannot start like this.
#[derive(Clone, Copy, PartialEq, Eq, Structural, Debug)]
pub enum GenesisError {
    /// duplicate endowed accounts in genesis.
    DuplicateEndowedAccounts,
    /// the balance of any account should always be more than existential
    /// deposit.
    BelowExistentialDeposit,
    /// total issuance cannot overflow when building genesis
    TotalIssuanceOverflow,
}

/// Whether no account is endowed twice under one currency.
pub open spec fn endowed_once(endowed: Seq<(AccountId, CurrencyId, Balance)>) -> bool {
    forall|i: int, j: int|
        0 <= i < j < endowed.len() ==> key((#[trigger] endowed[i]).0, endowed[i].1) != key(
            (#[trigger] endowed[j]).0,
            endowed[j].1,
        )
}

/// What is endowed under a currency.
pub open spec fn endowed_total(
    endowed: Seq<(AccountId, CurrencyId, Balance)>,
    currency_id: CurrencyId,
) -> int
    decreases endowed.len(),
{
    if endowed.len() == 0 {
        0
    } else {
        endowed_total(endowed.drop_last(), currency_id) + if endowed.last().1 == currency_id {
            endowed.last().2 as int
        } else {
            0
        }
    }
}

impl State {
    /// The ledger after one account after the other was endowed.
    pub open spec fn endowed<T: Config>(
        self,
        endowed: Seq<(AccountId, CurrencyId, Balance)>,
    ) -> State
        decreases endowed.len(),
    {
        if endowed.len() == 0 {
            self
        } else {
            let (who, currency_id, initial_balance) = endowed.last();
            self.endowed::<T>(endowed.drop_last()).set_free::<T>(
                currency_id,
                who,
                initial_balance as int,
            ).change_issuance(currency_id, initial_balance as int)
        }
    }

    /// Whether one account after the other can be endowed, and if not, why the
    /// first of them that cannot be, cannot.
    pub open spec fn endowment_outcome<T: Config>(
        self,
        endowed: Seq<(AccountId, CurrencyId, Balance)>,
    ) -> Result<(), GenesisError>
        decreases endowed.len(),
    {
        if endowed.len() == 0 {
            Ok(())
        } else {
            let front = endowed.drop_last();
            let (_, currency_id, initial_balance) = endowed.last();
            if self.endowment_outcome::<T>(front) is Err {
                self.endowment_outcome::<T>(front)
            } else if initial_balance < T::spec_existential_deposit(currency_id) {
                Err(GenesisError::BelowExistentialDeposit)
            } else if self.total_issuance(currency_id) + endowed_total(front, currency_id)
                + initial_balance > Balance::MAX {
                Err(GenesisError::TotalIssuanceOverflow)
            } else {
                Ok(())
            }
        }
    }

    /// Whether a ledger can start like this, and if not, why not.
    pub open spec fn genesis_outcome<T: Config>(
        self,
        endowed: Seq<(AccountId, CurrencyId, Balance)>,
    ) -> Result<(), GenesisError> {
        if endowed_once(endowed) {
            self.endowment_outcome::<T>(endowed)
        } else {
            Err(GenesisError::DuplicateEndowedAccounts)
        }
    }

    /// Endowing issues exactly what is endowed.
    pub proof fn lemma_endowed_issuance<T: Config>(
        self,
        endowed: Seq<(AccountId, CurrencyId, Balance)>,
        currency_id: CurrencyId,
    )
        requires
            self.endowment_outcome::<T>(endowed) is Ok,
        ensures
            self.endowed::<T>(endowed).total_issuance(currency_id) == self.total_issuance(
                currency_id,
            ) + endowed_total(endowed, currency_id),
        decreases endowed.len(),
    {
        if endowed.len() > 0 {
            let front = endowed.drop_last();
            let (who, c, initial_balance) = endowed.last();
            self.lemma_endowed_issuance::<T>(front, currency_id);
            self.lemma_endowed_issuance::<T>(front, c);
            let s = self.endowed::<T>(front);
            let account = AccountData { free: initial_balance, ..s.account(who, c) };
            assert(account.spec_total() >= initial_balance);
            assert(s.set_free::<T>(c, who, initial_balance as int).issuance == s.issuance);
        }
    }

    /// What can be endowed as a whole can be endowed as far as one likes.
    proof fn lemma_outcome_prefix<T: Config>(
        self,
        endowed: Seq<(AccountId, CurrencyId, Balance)>,
        i: int,
    )
        requires
            0 <= i <= endowed.len(),
        ensures
            self.endowment_outcome::<T>(endowed.take(i)) is Err ==> self.endowment_outcome::<T>(
                endowed,
            ) == self.endowment_outcome::<T>(endowed.take(i)),
        decreases endowed.len() - i,
    {
        if i < endowed.len() {
            assert(endowed.take(i + 1).drop_last() =~= endowed.take(i));
            self.lemma_outcome_prefix::<T>(endowed, i + 1);
        } else {
            assert(endowed.take(i) =~= endowed);
        }
    }
}

/// What is endowed is never less than nothing, and grows with every account.
proof fn lemma_endowed_total_grows(
    endowed: Seq<(AccountId, CurrencyId, Balance)>,
    currency_id: CurrencyId,
    i: int,
)
    requires
        0 <= i <= endowed.len(),
    ensures
        0 <= endowed_total(endowed.take(i), currency_id) <= endowed_total(endowed, currency_id),
    decreases endowed.len(), endowed.len() - i,
{
    if i < endowed.len() {
        assert(endowed.take(i + 1).drop_last() =~= endowed.take(i));
        lemma_endowed_total_grows(endowed, currency_id, i + 1);
        lemma_endowed_total_grows(endowed.take(i), currency_id, i);
        assert(endowed.take(i).take(i) =~= endowed.take(i));
    } else {
        assert(endowed.take(i) =~= endowed);
        if endowed.len() > 0 {
            lemma_endowed_total_grows(endowed.drop_last(), currency_id, endowed.len() - 1);
            assert(endowed.drop_last().take(endowed.len() - 1) =~= endowed.drop_last());
        }
    }
}

/// With what can be endowed, no total issuance passes the largest balance.
proof fn lemma_endowed_total_fits<T: Config>(
    s: State,
    endowed: Seq<(AccountId, CurrencyId, Balance)>,
    currency_id: CurrencyId,
)
    requires
        s.endowment_outcome::<T>(endowed) is Ok,
    ensures
        s.total_issuance(currency_id) + endowed_total(endowed, currency_id) <= Balance::MAX,
    decreases endowed.len(),
{
    if endowed.len() > 0 {
        lemma_endowed_total_fits::<T>(s, endowed.drop_last(), currency_id);
    }
}

impl Default for GenesisConfig {
    fn default() -> (r: GenesisConfig)
        ensures
            r.endowed_accounts@ == Seq::<(AccountId, CurrencyId, Balance)>::empty(),
    {
        GenesisConfig { endowed_accounts: Vec::new() }
    }
}

impl GenesisConfig {
    /// Whether no account is endowed twice under one currency.
    fn is_unique(&self) -> (r: bool)
        ensures
            r == endowed_once(self.endowed_accounts@),
    {
        let endowed = &self.endowed_accounts;
        let mut i: usize = 0;
        while i < endowed.len()
            invariant
                i <= endowed@.len(),
                endowed@ == self.endowed_accounts@,
                endowed_once(endowed@.take(i as int)),
            decreases endowed@.len() - i,
        {
            let mut j: usize = 0;
            while j < i
                invariant
                    j <= i < endowed@.len(),
                    endowed@ == self.endowed_accounts@,
                    forall|l: int|
                        0 <= l < j ==> key((#[trigger] endowed@[l]).0, endowed@[l].1) != key(
                            endowed@[i as int].0,
                            endowed@[i as int].1,
                        ),
                decreases i - j,
            {
                if endowed[j].0.same(&endowed[i].0) && endowed[j].1 == endowed[i].1 {
                    return false;
                }
                j = j + 1;
            }
            proof {
                let more = endowed@.take(i + 1);
                assert forall|a: int, b: int| 0 <= a < b < more.len() implies key(
                    (#[trigger] more[a]).0,
                    more[a].1,
                ) != key((#[trigger] more[b]).0, more[b].1) by {
                    assert(more[a] == endowed@[a]);
                    assert(more[b] == endowed@[b]);
                    if b < i {
                        assert(endowed@.take(i as int)[a] == endowed@[a]);
                        assert(endowed@.take(i as int)[b] == endowed@[b]);
                    }
                }
            }
            i = i + 1;
        }
        assert(endowed@.take(i as int) =~= endowed@);
        true
    }

    /// The total issuance of a currency after the first `n` accounts were
    /// endowed.
    fn issued_after<T: Config>(&self, pallet: &Pallet<T>, n: usize, currency_id: CurrencyId) -> (r:
        Balance)
        requires
            n <= self.endowed_accounts@.len(),
            pallet@.endowment_outcome::<T>(self.endowed_accounts@.take(n as int)) is Ok,
        ensures
            r == pallet@.total_issuance(currency_id) + endowed_total(
                self.endowed_accounts@.take(n as int),
                currency_id,
            ),
    {
        let endowed = &self.endowed_accounts;
        let ghost first = endowed@.take(n as int);
        let mut issued: Balance = pallet.total_issuance(currency_id);
        let mut i: usize = 0;
        assert(endowed@.take(0) =~= Seq::empty());
        while i < n
            invariant
                i <= n <= endowed@.len(),
                endowed@ == self.endowed_accounts@,
                first == endowed@.take(n as int),
                pallet@.endowment_outcome::<T>(first) is Ok,
                issued == pallet@.total_issuance(currency_id) + endowed_total(
                    endowed@.take(i as int),
                    currency_id,
                ),
            decreases n - i,
        {
            proof {
                assert(endowed@.take(i + 1).drop_last() =~= endowed@.take(i as int));
                lemma_endowed_total_fits::<T>(pallet@, first, currency_id);
                lemma_endowed_total_grows(first, currency_id, i + 1);
                assert(first.take(i + 1) =~= endowed@.take(i + 1));
            }
            if endowed[i].1 == currency_id {
                issued = issued + endowed[i].2;
            }
            i = i + 1;
        }
        issued
    }

    /// Whether a ledger can start like this, and if not, why not: no account may
    /// be endowed twice under one currency, none with less than the existential
    /// deposit, and no total issuance may overflow.
    pub fn validate<T: Config>(&self, pallet: &Pallet<T>) -> (r: Result<(), GenesisError>)
        ensures
            r == pallet@.genesis_outcome::<T>(self.endowed_accounts@),
    {
        // ensure no duplicates exist.
        if !self.is_unique() {
            return Err(GenesisError::DuplicateEndowedAccounts);
        }
        let endowed = &self.endowed_accounts;
        let mut i: usize = 0;
        assert(endowed@.take(0) =~= Seq::empty());
        while i < endowed.len()
            invariant
                i <= endowed@.len(),
                endowed@ == self.endowed_accounts@,
                endowed_once(endowed@),
                pallet@.endowment_outcome::<T>(endowed@.take(i as int)) is Ok,
            decreases endowed@.len() - i,
        {
            let currency_id: CurrencyId = endowed[i].1;
            let initial_balance: Balance = endowed[i].2;
            proof {
                assert(endowed@.take(i + 1).drop_last() =~= endowed@.take(i as int));
                pallet@.lemma_outcome_prefix::<T>(endowed@, i + 1);
            }
            if initial_balance < T::existential_deposit(currency_id) {
                return Err(GenesisError::BelowExistentialDeposit);
            }
            let issued: Balance = self.issued_after(pallet, i, currency_id);
            if issued.checked_add(initial_balance).is_none() {
                return Err(GenesisError::TotalIssuanceOverflow);
            }
            i = i + 1;
        }
        assert(endowed@.take(i as int) =~= endowed@);
        Ok(())
    }

    /// Endows the accounts.
    pub fn build<T: Config>(&self, pallet: &mut Pallet<T>)
        requires
            old(pallet)@.genesis_outcome::<T>(self.endowed_accounts@) is Ok,
        ensures
            final(pallet)@ == old(pallet)@.endowed::<T>(self.endowed_accounts@),
    {
        let endowed = &self.endowed_accounts;
        let ghost start = pallet@;
        let mut i: usize = 0;
        assert(endowed@.take(0) =~= Seq::empty());
        while i < endowed.len()
            invariant
                i <= endowed@.len(),
                endowed@ == self.endowed_accounts@,
                start.endowment_outcome::<T>(endowed@) is Ok,
                pallet@ == start.endowed::<T>(endowed@.take(i as int)),
            decreases endowed@.len() - i,
        {
            let account_id: AccountId = endowed[i].0;
            let currency_id: CurrencyId = endowed[i].1;
            let initial_balance: Balance = endowed[i].2;
            proof {
                assert(endowed@.take(i + 1).drop_last() =~= endowed@.take(i as int));
                start.lemma_outcome_prefix::<T>(endowed@, i as int);
                start.lemma_outcome_prefix::<T>(endowed@, i + 1);
                start.lemma_endowed_issuance::<T>(endowed@.take(i as int), currency_id);
                let account = AccountData {
                    free: initial_balance,
                    ..pallet@.account(account_id, currency_id)
                };
                assert(account.spec_total() >= initial_balance);
            }
            pallet.set_free_balance(currency_id, &account_id, initial_balance);
            pallet.set_issuance(
                currency_id,
                pallet.total_issuance(currency_id) + initial_balance,
            );
            i = i + 1;
        }
        assert(endowed@.take(i as int) =~= endowed@);
    }
}

} // verus!
