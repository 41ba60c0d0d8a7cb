//! With what a ledger starts, and when it can.
use crate::account::AccountId;
use crate::config::Config;
use crate::genesis::{endowed_once, endowed_total, GenesisError};
use crate::state::State;
use crate::storage::{key, AccountKey};
use crate::types::{AccountData, Balance, CurrencyId};
use vstd::prelude::*;

verus! {

/// What is endowed under a currency adds up, account by account.
pub proof fn law_endowed_total(
    endowed: Seq<(AccountId, CurrencyId, Balance)>,
    one: (AccountId, CurrencyId, Balance),
    currency_id: CurrencyId,
)
    ensures
        endowed_total(Seq::empty(), currency_id) == 0,
        endowed_total(endowed.push(one), currency_id) == endowed_total(endowed, currency_id) + (
        if one.1 == currency_id {
            one.2 as int
        } else {
            0
        }),
{
    assert(endowed.push(one).drop_last() =~= endowed);
}

/// An account is endowed twice if it stands twice under one currency, wherever,
/// and with whatever.
pub proof fn law_endowed_once(endowed: Seq<(AccountId, CurrencyId, Balance)>)
    ensures
        endowed_once(endowed) <==> forall|i: int, j: int|
            0 <= i < endowed.len() && 0 <= j < endowed.len() && (#[trigger] endowed[i]).0
                == (#[trigger] endowed[j]).0 && endowed[i].1 == endowed[j].1 ==> i == j,
{
    if endowed_once(endowed) {
        assert forall|i: int, j: int|
            0 <= i < endowed.len() && 0 <= j < endowed.len() && (#[trigger] endowed[i]).0 == (
            #[trigger] endowed[j]).0 && endowed[i].1 == endowed[j].1 implies i == j by {
            if i < j {
                assert(key(endowed[i].0, endowed[i].1) != key(endowed[j].0, endowed[j].1));
            }
            if j < i {
                assert(key(endowed[j].0, endowed[j].1) != key(endowed[i].0, endowed[i].1));
            }
        }
    } else {
        let (i, j) = choose|i: int, j: int|
            0 <= i < j < endowed.len() && key((#[trigger] endowed[i]).0, endowed[i].1) == key(
                (#[trigger] endowed[j]).0,
                endowed[j].1,
            );
        assert(endowed[i].0 == endowed[j].0 && endowed[i].1 == endowed[j].1);
    }
}

impl State {
    /// Endowing one more account writes its entry with that much free, whatever
    /// was free before, and then adds as much to the total issuance.
    pub proof fn law_endowment_steps<T: Config>(
        self,
        endowed: Seq<(AccountId, CurrencyId, Balance)>,
        who: AccountId,
        currency_id: CurrencyId,
        initial_balance: Balance,
    )
        requires
            self.endowment_outcome::<T>(endowed.push((who, currency_id, initial_balance))) is Ok,
        ensures
            self.endowed::<T>(Seq::empty()) == self,
            ({
                let s = self.endowed::<T>(endowed);
                let account = AccountData { free: initial_balance, ..s.account(who, currency_id) };
                let t = s.put_account::<T>(who, currency_id, account);
                self.endowed::<T>(endowed.push((who, currency_id, initial_balance))) == (State {
                    issuance: t.issuance.insert(
                        currency_id,
                        (t.total_issuance(currency_id) + initial_balance) as Balance,
                    ),
                    ..t
                })
            }),
    {
        assert(endowed.push((who, currency_id, initial_balance)).drop_last() =~= endowed);
    }

    /// Whether one account can be endowed after others that can be.
    spec fn can_endow<T: Config>(
        self,
        endowed: Seq<(AccountId, CurrencyId, Balance)>,
        i: int,
    ) -> bool {
        &&& endowed[i].2 >= T::spec_existential_deposit(endowed[i].1)
        &&& self.total_issuance(endowed[i].1) + endowed_total(endowed.take(i), endowed[i].1)
            + endowed[i].2 <= Balance::MAX
    }

    /// Accounts can be endowed as far as each of them can be.
    proof fn lemma_endowment_goes_on<T: Config>(
        self,
        endowed: Seq<(AccountId, CurrencyId, Balance)>,
        n: int,
    )
        requires
            0 <= n <= endowed.len(),
            forall|i: int| 0 <= i < n ==> #[trigger] self.can_endow::<T>(endowed, i),
        ensures
            self.endowment_outcome::<T>(endowed.take(n)) is Ok,
        decreases n,
    {
        if n > 0 {
            self.lemma_endowment_goes_on::<T>(endowed, n - 1);
            assert(self.can_endow::<T>(endowed, n - 1));
            assert(endowed.take(n).drop_last() =~= endowed.take(n - 1));
            assert(endowed.take(n).last() == endowed[n - 1]);
        }
    }

    /// A failure on the way is the failure of the whole.
    proof fn lemma_endowment_stops<T: Config>(
        self,
        endowed: Seq<(AccountId, CurrencyId, Balance)>,
        i: int,
    )
        requires
            0 <= i <= endowed.len(),
            self.endowment_outcome::<T>(endowed.take(i)) is Err,
        ensures
            self.endowment_outcome::<T>(endowed) == self.endowment_outcome::<T>(endowed.take(i)),
        decreases endowed.len() - i,
    {
        if i < endowed.len() {
            assert(endowed.take(i + 1).drop_last() =~= endowed.take(i));
            self.lemma_endowment_stops::<T>(endowed, i + 1);
        } else {
            assert(endowed.take(i) =~= endowed);
        }
    }

    /// A ledger can start if no account is endowed twice under one currency,
    /// each with the existential deposit or more, and with what was endowed
    /// before it no total issuance passes the largest balance.
    pub proof fn law_genesis_succeeds<T: Config>(
        self,
        endowed: Seq<(AccountId, CurrencyId, Balance)>,
    )
        requires
            forall|i: int, j: int|
                0 <= i < endowed.len() && 0 <= j < endowed.len() && (#[trigger] endowed[i]).0 == (
                #[trigger] endowed[j]).0 && endowed[i].1 == endowed[j].1 ==> i == j,
            forall|i: int|
                0 <= i < endowed.len() ==> (#[trigger] endowed[i]).2 >= T::spec_existential_deposit(
                    endowed[i].1,
                ),
            forall|i: int|
                0 <= i < endowed.len() ==> self.total_issuance((#[trigger] endowed[i]).1)
                    + endowed_total(endowed.take(i), endowed[i].1) + endowed[i].2 <= Balance::MAX,
        ensures
            self.genesis_outcome::<T>(endowed) is Ok,
    {
        law_endowed_once(endowed);
        assert forall|i: int| 0 <= i < endowed.len() implies #[trigger] self.can_endow::<T>(
            endowed,
            i,
        ) by {
            assert(endowed[i].2 >= T::spec_existential_deposit(endowed[i].1));
        }
        self.lemma_endowment_goes_on::<T>(endowed, endowed.len() as int);
        assert(endowed.take(endowed.len() as int) =~= endowed);
    }

    /// A ledger in which an account is endowed twice under one currency cannot
    /// start for that. Otherwise the first account that cannot be endowed says
    /// why: because it has less than the existential deposit, or else because
    /// the total issuance passes the largest balance.
    pub proof fn law_genesis_fails<T: Config>(
        self,
        endowed: Seq<(AccountId, CurrencyId, Balance)>,
        i: int,
        j: int,
    )
        requires
            0 <= i < endowed.len(),
            0 <= j < endowed.len(),
        ensures
            i != j && endowed[i].0 == endowed[j].0 && endowed[i].1 == endowed[j].1
                ==> self.genesis_outcome::<T>(endowed) == Err::<(), GenesisError>(
                GenesisError::DuplicateEndowedAccounts,
            ),
            ({
                let unique = forall|a: int, b: int|
                    0 <= a < endowed.len() && 0 <= b < endowed.len() && (#[trigger] endowed[a]).0
                        == (#[trigger] endowed[b]).0 && endowed[a].1 == endowed[b].1 ==> a == b;
                let before = forall|a: int|
                    0 <= a < i ==> (#[trigger] endowed[a]).2 >= T::spec_existential_deposit(
                        endowed[a].1,
                    ) && self.total_issuance(endowed[a].1) + endowed_total(
                        endowed.take(a),
                        endowed[a].1,
                    ) + endowed[a].2 <= Balance::MAX;
                let below = endowed[i].2 < T::spec_existential_deposit(endowed[i].1);
                let over = self.total_issuance(endowed[i].1) + endowed_total(
                    endowed.take(i),
                    endowed[i].1,
                ) + endowed[i].2 > Balance::MAX;
                &&& unique && before && below ==> self.genesis_outcome::<T>(endowed) == Err::<
                    (),
                    GenesisError,
                >(GenesisError::BelowExistentialDeposit)
                &&& unique && before && !below && over ==> self.genesis_outcome::<T>(endowed)
                    == Err::<(), GenesisError>(GenesisError::TotalIssuanceOverflow)
            }),
    {
        law_endowed_once(endowed);
        let before = forall|a: int|
            0 <= a < i ==> (#[trigger] endowed[a]).2 >= T::spec_existential_deposit(endowed[a].1)
                && self.total_issuance(endowed[a].1) + endowed_total(
                endowed.take(a),
                endowed[a].1,
            ) + endowed[a].2 <= Balance::MAX;
        if before && !self.can_endow::<T>(endowed, i) {
            assert forall|a: int| 0 <= a < i implies #[trigger] self.can_endow::<T>(
                endowed,
                a,
            ) by {
                assert(endowed[a].2 >= T::spec_existential_deposit(endowed[a].1));
            }
            self.lemma_endowment_goes_on::<T>(endowed, i);
            assert(endowed.take(i + 1).drop_last() =~= endowed.take(i));
            assert(endowed.take(i + 1).last() == endowed[i]);
            self.lemma_endowment_stops::<T>(endowed, i + 1);
        }
    }

    /// Every account that is endowed starts with what it is endowed with, what
    /// it has reserved stays, and no other entry and no lock changes.
    pub proof fn law_endowed_balances<T: Config>(
        self,
        endowed: Seq<(AccountId, CurrencyId, Balance)>,
        who: AccountId,
        currency_id: CurrencyId,
    )
        requires
            self.genesis_outcome::<T>(endowed) is Ok,
        ensures
            ({
                let t = self.endowed::<T>(endowed);
                let k = AccountKey { who, currency_id };
                &&& t.locks == self.locks
                &&& (forall|i: int|
                    0 <= i < endowed.len() ==> (#[trigger] endowed[i]).0 != who || endowed[i].1
                        != currency_id) ==> t.accounts.contains_key(k) == self.accounts.contains_key(
                    k,
                ) && t.account(who, currency_id) == self.account(who, currency_id)
                &&& forall|i: int|
                    0 <= i < endowed.len() && (#[trigger] endowed[i]).0 == who && endowed[i].1
                        == currency_id ==> t.account(who, currency_id).free == endowed[i].2
                        && t.account(who, currency_id).reserved == self.account(
                        who,
                        currency_id,
                    ).reserved
            }),
        decreases endowed.len(),
    {
        if endowed.len() > 0 {
            let front = endowed.drop_last();
            let (w, c, balance) = endowed.last();
            let n = endowed.len() - 1;
            assert(endowed[n] == (w, c, balance));
            assert(endowed_once(front)) by {
                assert forall|i: int, j: int| 0 <= i < j < front.len() implies key(
                    (#[trigger] front[i]).0,
                    front[i].1,
                ) != key((#[trigger] front[j]).0, front[j].1) by {
                    assert(front[i] == endowed[i] && front[j] == endowed[j]);
                }
            }
            self.law_endowed_balances::<T>(front, who, currency_id);
            let s = self.endowed::<T>(front);
            let t = self.endowed::<T>(endowed);
            let account = AccountData { free: balance, ..s.account(w, c) };
            assert(account.spec_total() >= balance);
            let u = s.put_account::<T>(w, c, account);
            assert(u == s.write_account(w, c, account));
            assert(t.accounts == u.accounts);
            if w == who && c == currency_id {
                assert forall|i: int| 0 <= i < front.len() implies (#[trigger] front[i]).0 != who
                    || front[i].1 != currency_id by {
                    assert(front[i] == endowed[i]);
                    assert(key(endowed[i].0, endowed[i].1) != key(endowed[n].0, endowed[n].1));
                }
                assert(s.account(who, currency_id) == self.account(who, currency_id));
            } else {
                assert(key(w, c) != key(who, currency_id));
                assert(t.account(who, currency_id) == s.account(who, currency_id));
                assert(t.is_stored(who, currency_id) == s.is_stored(who, currency_id));
            }
            assert forall|i: int|
                0 <= i < endowed.len() && (#[trigger] endowed[i]).0 == who && endowed[i].1
                    == currency_id implies t.account(who, currency_id).free == endowed[i].2
                && t.account(who, currency_id).reserved == self.account(
                who,
                currency_id,
            ).reserved by {
                if i < n {
                    assert(front[i] == endowed[i]);
                    assert(key(endowed[i].0, endowed[i].1) != key(endowed[n].0, endowed[n].1));
                }
            }
            if forall|i: int|
                0 <= i < endowed.len() ==> (#[trigger] endowed[i]).0 != who || endowed[i].1
                    != currency_id {
                assert(endowed[n].0 != who || endowed[n].1 != currency_id);
                assert forall|i: int| 0 <= i < front.len() implies (#[trigger] front[i]).0 != who
                    || front[i].1 != currency_id by {
                    assert(front[i] == endowed[i]);
                }
            }
        }
    }
}

} // verus!
