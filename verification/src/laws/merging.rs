//! A merge moves everything.
use crate::account::AccountId;
use crate::config::Config;
use crate::dust::DustHandler;
use crate::state::{is_dust, State};
use crate::storage::key;
use crate::types::{AccountData, Balance, CurrencyId, Error};
use vstd::prelude::*;

verus! {

impl State {
    /// The entry of the recipient after a merge under one currency.
    pub open spec fn merged_entry(
        self,
        source: AccountId,
        dest: AccountId,
        currency_id: CurrencyId,
    ) -> AccountData {
        self.bound(
            dest,
            currency_id,
            self.free_entry(
                currency_id,
                dest,
                self.account(dest, currency_id).free + self.account(source, currency_id).free,
            ),
        )
    }

    /// Whether what the recipient has after a merge under one currency is so
    /// little that it leaves as dust.
    pub open spec fn merged_dust_leaves<T: Config>(
        self,
        source: AccountId,
        dest: AccountId,
        currency_id: CurrencyId,
    ) -> bool {
        let account = self.merged_entry(source, dest, currency_id);
        &&& is_dust::<T>(dest, currency_id, account)
        &&& account.reserved == 0
        &&& account.frozen == 0
        &&& match T::spec_on_dust() {
            DustHandler::Ignore | DustHandler::Report => false,
            DustHandler::Transfer(h) => h.receiver != dest && (if h.receiver == source {
                0int
            } else {
                self.account(h.receiver, currency_id).free as int
            }) + account.free <= Balance::MAX,
            DustHandler::Burn(_) => true,
        }
    }

    /// Whether it then comes back to where it was moved from.
    pub open spec fn merged_dust_returns<T: Config>(
        self,
        source: AccountId,
        dest: AccountId,
        currency_id: CurrencyId,
    ) -> bool {
        &&& self.merged_dust_leaves::<T>(source, dest, currency_id)
        &&& T::spec_on_dust() matches DustHandler::Transfer(h) && h.receiver == source
    }

    /// What one step of a merge does.
    proof fn lemma_merge_step<T: Config>(
        self,
        source: AccountId,
        dest: AccountId,
        currency_id: CurrencyId,
    )
        requires
            source != dest,
            self.account(source, currency_id).holding() != 0,
            self.merge_one::<T>(source, dest, currency_id) is Ok,
            self.transfer_fits::<T>(
                currency_id,
                source,
                dest,
                self.account(source, currency_id).free,
            ),
        ensures
            ({
                let t = self.merge_one::<T>(source, dest, currency_id)->Ok_0;
                &&& forall|w: AccountId, c: CurrencyId|
                    c != currency_id ==> #[trigger] t.account(w, c) == self.account(w, c)
                &&& forall|w: AccountId, c: CurrencyId|
                    c != currency_id ==> #[trigger] t.is_stored(w, c) == self.is_stored(w, c)
                &&& t.locks == self.locks
                &&& self.merged_dust_returns::<T>(source, dest, currency_id) || t.account(
                    source,
                    currency_id,
                ) == AccountData::empty()
                &&& self.merged_dust_leaves::<T>(source, dest, currency_id) || t.account(
                    dest,
                    currency_id,
                ) == self.merged_entry(source, dest, currency_id)
            }),
    {
        let account = self.account(source, currency_id);
        let left = AccountData { free: 0, ..account };
        let entry = self.merged_entry(source, dest, currency_id);
        let more = self.free_entry(
            currency_id,
            dest,
            self.account(dest, currency_id).free + account.free,
        );
        let s = self.put_account::<T>(source, currency_id, left);
        self.lemma_put_entries::<T>(source, currency_id, left);
        self.lemma_put_elsewhere::<T>(source, currency_id, left);
        assert(key(source, currency_id) != key(dest, currency_id));
        assert(s.is_stored(dest, currency_id) == self.is_stored(dest, currency_id));
        assert(s.bound(dest, currency_id, more) == entry);
        assert(left == AccountData { free: (account.free - account.free) as Balance, ..account });
        assert(s.account(dest, currency_id) == self.account(dest, currency_id));
        s.lemma_put_entries::<T>(dest, currency_id, more);
        s.lemma_put_elsewhere::<T>(dest, currency_id, more);
        let t = s.put_account::<T>(dest, currency_id, more);
        assert(self.merge_one::<T>(source, dest, currency_id) == Ok::<State, Error>(t));
        let u = s.write_account(dest, currency_id, more);
        assert(u.account(dest, currency_id) == entry);
        match T::spec_on_dust() {
            DustHandler::Ignore | DustHandler::Report => {},
            DustHandler::Transfer(h) => {
                if h.receiver != dest {
                    assert(u.account(h.receiver, currency_id) == s.account(
                        h.receiver,
                        currency_id,
                    )) by {
                        assert(key(h.receiver, currency_id) != key(dest, currency_id));
                    }
                }
            },
            DustHandler::Burn(_) => {},
        }
        assert forall|w: AccountId, c: CurrencyId| c != currency_id implies #[trigger] t.account(
            w,
            c,
        ) == self.account(w, c) by {
            assert(s.account(w, c) == self.account(w, c));
        }
        assert forall|w: AccountId, c: CurrencyId| c != currency_id implies #[trigger] t.is_stored(
            w,
            c,
        ) == self.is_stored(w, c) by {
            assert(s.is_stored(w, c) == self.is_stored(w, c));
        }
    }

    /// As far as a merge gets, it has moved everything it has come to, and
    /// touched nothing else.
    proof fn lemma_merge_all_moves<T: Config>(
        self,
        source: AccountId,
        dest: AccountId,
        walk: Seq<CurrencyId>,
        i: int,
    )
        requires
            source != dest,
            0 <= i <= walk.len(),
            walk.no_duplicates(),
            forall|c: CurrencyId| #[trigger]
                walk.contains(c) ==> self.account(source, c).holding() != 0,
            self.merge_fits::<T>(source, dest, walk),
            self.merge_all::<T>(source, dest, walk.take(i)) is Ok,
        ensures
            ({
                let t = self.merge_all::<T>(source, dest, walk.take(i))->Ok_0;
                &&& forall|w: AccountId, c: CurrencyId|
                    !walk.take(i).contains(c) ==> #[trigger] t.account(w, c) == self.account(w, c)
                &&& forall|w: AccountId, c: CurrencyId|
                    !walk.take(i).contains(c) ==> #[trigger] t.is_stored(w, c) == self.is_stored(
                        w,
                        c,
                    )
                &&& t.locks == self.locks
                &&& forall|j: int|
                    0 <= j < i ==> self.merged_dust_returns::<T>(source, dest, #[trigger] walk[j])
                        || t.account(source, walk[j]) == AccountData::empty()
                &&& forall|j: int|
                    0 <= j < i ==> self.merged_dust_leaves::<T>(source, dest, #[trigger] walk[j])
                        || t.account(dest, walk[j]) == self.merged_entry(source, dest, walk[j])
            }),
        decreases i,
    {
        if i > 0 {
            let front = walk.take(i - 1);
            let c = walk[i - 1];
            assert(walk.take(i).drop_last() =~= front);
            assert(walk.take(i).last() == c);
            self.lemma_merge_all_moves::<T>(source, dest, walk, i - 1);
            let s = self.merge_all::<T>(source, dest, front)->Ok_0;
            let t = self.merge_all::<T>(source, dest, walk.take(i))->Ok_0;
            assert(walk.contains(c));
            assert(!front.contains(c)) by {
                if front.contains(c) {
                    let j = choose|j: int| 0 <= j < front.len() && front[j] == c;
                    assert(walk[j] == walk[i - 1]);
                }
            }
            assert(forall|w: AccountId| #[trigger] s.account(w, c) == self.account(w, c));
            assert(self.merge_step_fits::<T>(source, dest, walk, i - 1));
            s.lemma_merge_step::<T>(source, dest, c);
            assert(s.is_stored(dest, c) == self.is_stored(dest, c));
            assert(s.merged_entry(source, dest, c) == self.merged_entry(source, dest, c));
            assert(s.merged_dust_leaves::<T>(source, dest, c) == self.merged_dust_leaves::<T>(
                source,
                dest,
                c,
            )) by {
                match T::spec_on_dust() {
                    DustHandler::Transfer(h) => {
                        assert(s.account(h.receiver, c) == self.account(h.receiver, c));
                    },
                    _ => {},
                }
            }
            assert forall|w: AccountId, d: CurrencyId|
                !walk.take(i).contains(d) implies #[trigger] t.account(w, d) == self.account(
                w,
                d,
            ) by {
                assert(walk.take(i)[i - 1] == c);
                assert(d != c);
                assert(!front.contains(d)) by {
                    if front.contains(d) {
                        let j = choose|j: int| 0 <= j < front.len() && front[j] == d;
                        assert(walk.take(i)[j] == d);
                    }
                }
                assert(s.account(w, d) == self.account(w, d));
            }
            assert forall|w: AccountId, d: CurrencyId|
                !walk.take(i).contains(d) implies #[trigger] t.is_stored(w, d) == self.is_stored(
                w,
                d,
            ) by {
                assert(walk.take(i)[i - 1] == c);
                assert(d != c);
                assert(!front.contains(d)) by {
                    if front.contains(d) {
                        let j = choose|j: int| 0 <= j < front.len() && front[j] == d;
                        assert(walk.take(i)[j] == d);
                    }
                }
                assert(s.is_stored(w, d) == self.is_stored(w, d));
            }
            assert forall|j: int| 0 <= j < i implies self.merged_dust_returns::<T>(
                source,
                dest,
                #[trigger] walk[j],
            ) || t.account(source, walk[j]) == AccountData::empty() by {
                if j < i - 1 {
                    assert(walk[j] != c);
                    assert(t.account(source, walk[j]) == s.account(source, walk[j]));
                }
            }
            assert forall|j: int| 0 <= j < i implies self.merged_dust_leaves::<T>(
                source,
                dest,
                #[trigger] walk[j],
            ) || t.account(dest, walk[j]) == self.merged_entry(source, dest, walk[j]) by {
                if j < i - 1 {
                    assert(walk[j] != c);
                    assert(t.account(dest, walk[j]) == s.account(dest, walk[j]));
                }
            }
        }
    }

    /// A merge that succeeds leaves nothing with the one account and everything
    /// with the other, but for dust that leaves. A currency of which the one
    /// account had nothing is not touched.
    pub proof fn law_merge_moves_everything<T: Config>(
        self,
        source: AccountId,
        dest: AccountId,
        walk: Seq<CurrencyId>,
    )
        requires
            source != dest,
            self.is_tidy(),
            self.walks(source, walk),
            self.merge_fits::<T>(source, dest, walk),
            self.merge_outcome::<T>(source, dest, walk) is Ok,
        ensures
            ({
                let t = self.merged::<T>(source, dest, walk);
                &&& forall|c: CurrencyId| #[trigger]
                    self.is_stored(source, c) ==> (self.merged_dust_returns::<T>(source, dest, c)
                        || t.account(source, c) == AccountData::empty())
                &&& forall|c: CurrencyId| #[trigger]
                    self.is_stored(source, c) ==> (self.merged_dust_leaves::<T>(source, dest, c)
                        || t.account(dest, c) == self.merged_entry(source, dest, c))
                &&& forall|w: AccountId, c: CurrencyId|
                    !self.is_stored(source, c) ==> #[trigger] t.account(w, c) == self.account(w, c)
            }),
    {
        let t = self.merged::<T>(source, dest, walk);
        assert forall|c: CurrencyId| #[trigger] walk.contains(c) implies self.account(
            source,
            c,
        ).holding() != 0 by {
            assert(self.is_stored(source, c));
        }
        assert(walk.take(walk.len() as int) =~= walk);
        self.lemma_merge_all_moves::<T>(source, dest, walk, walk.len() as int);
        assert forall|c: CurrencyId| #[trigger] self.is_stored(source, c) implies (
        self.merged_dust_returns::<T>(source, dest, c) || t.account(source, c)
            == AccountData::empty()) && (self.merged_dust_leaves::<T>(source, dest, c) || t.account(
            dest,
            c,
        ) == self.merged_entry(source, dest, c)) by {
            assert(walk.contains(c));
            let j = choose|j: int| 0 <= j < walk.len() && walk[j] == c;
            assert(walk[j] == c);
        }
        assert forall|w: AccountId, c: CurrencyId|
            !self.is_stored(source, c) implies #[trigger] t.account(w, c) == self.account(w, c) by {
            assert(!walk.contains(c));
        }
    }

    /// If every balance without a reserve can be moved, a merge fails for nothing
    /// but a reserve.
    proof fn lemma_merge_fails_for_reserves<T: Config>(
        self,
        source: AccountId,
        dest: AccountId,
        walk: Seq<CurrencyId>,
        i: int,
    )
        requires
            source != dest,
            0 <= i <= walk.len(),
            self.is_tidy(),
            self.walks(source, walk),
            self.merge_fits::<T>(source, dest, walk),
            forall|d: CurrencyId| #[trigger]
                self.is_stored(source, d) && self.account(source, d).reserved == 0
                    ==> self.transfer_outcome(d, source, dest, self.account(source, d).free) is Ok,
        ensures
            self.merge_all::<T>(source, dest, walk.take(i)) matches Err(e) ==> e
                == Error::StillHasActiveReserved,
        decreases i,
    {
        if i > 0 {
            let front = walk.take(i - 1);
            let c = walk[i - 1];
            assert(walk.take(i).drop_last() =~= front);
            assert(walk.take(i).last() == c);
            self.lemma_merge_fails_for_reserves::<T>(source, dest, walk, i - 1);
            if self.merge_all::<T>(source, dest, front) is Ok {
                assert forall|d: CurrencyId| #[trigger] walk.contains(d) implies self.account(
                    source,
                    d,
                ).holding() != 0 by {
                    assert(self.is_stored(source, d));
                }
                self.lemma_merge_all_moves::<T>(source, dest, walk, i - 1);
                let s = self.merge_all::<T>(source, dest, front)->Ok_0;
                assert(!front.contains(c)) by {
                    if front.contains(c) {
                        let j = choose|j: int| 0 <= j < i - 1 && front[j] == c;
                        assert(walk[j] == walk[i - 1]);
                    }
                }
                assert(walk.contains(c));
                assert(self.is_stored(source, c));
                assert(s.account(source, c) == self.account(source, c));
                assert(s.account(dest, c) == self.account(dest, c));
            }
        }
    }

    /// A merge fails if any balance of the account is reserved, and leaves the
    /// ledger as it was. If that is all that stands in its way, because every
    /// balance without a reserve could be moved, the failure says so.
    pub proof fn law_merge_refuses_reserved<T: Config>(
        self,
        source: AccountId,
        dest: AccountId,
        walk: Seq<CurrencyId>,
    )
        requires
            source != dest,
            self.is_tidy(),
            self.walks(source, walk),
            self.merge_fits::<T>(source, dest, walk),
            exists|c: CurrencyId| #[trigger]
                self.is_stored(source, c) && self.account(source, c).reserved != 0,
        ensures
            self.merge_outcome::<T>(source, dest, walk) is Err,
            self.merged::<T>(source, dest, walk) == self,
            (forall|d: CurrencyId| #[trigger]
                self.is_stored(source, d) && self.account(source, d).reserved == 0
                    ==> self.transfer_outcome(d, source, dest, self.account(source, d).free) is Ok)
                ==> self.merge_outcome::<T>(source, dest, walk) == Err::<(), Error>(
                Error::StillHasActiveReserved,
            ),
    {
        let c = choose|c: CurrencyId| #[trigger]
            self.is_stored(source, c) && self.account(source, c).reserved != 0;
        assert(walk.contains(c));
        let i = choose|i: int| 0 <= i < walk.len() && walk[i] == c;
        if self.merge_all::<T>(source, dest, walk.take(i)) is Ok {
            assert forall|d: CurrencyId| #[trigger] walk.contains(d) implies self.account(
                source,
                d,
            ).holding() != 0 by {
                assert(self.is_stored(source, d));
            }
            self.lemma_merge_all_moves::<T>(source, dest, walk, i);
            let s = self.merge_all::<T>(source, dest, walk.take(i))->Ok_0;
            assert(!walk.take(i).contains(c)) by {
                if walk.take(i).contains(c) {
                    let j = choose|j: int| 0 <= j < i && walk.take(i)[j] == c;
                    assert(walk[j] == walk[i]);
                }
            }
            assert(s.account(source, c) == self.account(source, c));
        }
        assert(walk.take(i + 1).drop_last() =~= walk.take(i));
        assert(walk.take(i + 1).last() == c);
        self.lemma_merge_stops::<T>(source, dest, walk, i + 1);
        if forall|d: CurrencyId| #[trigger]
            self.is_stored(source, d) && self.account(source, d).reserved == 0
                ==> self.transfer_outcome(d, source, dest, self.account(source, d).free) is Ok {
            assert(walk.take(walk.len() as int) =~= walk);
            self.lemma_merge_fails_for_reserves::<T>(source, dest, walk, walk.len() as int);
        }
    }
}

// When a merge succeeds.
impl State {
    /// Whether one balance of an account can be merged: nothing of it is
    /// reserved, nothing frozen unless nothing is free, and it can be added to
    /// what the recipient has free. What the recipient has reserved or frozen
    /// makes no difference.
    pub open spec fn can_be_merged(
        self,
        source: AccountId,
        dest: AccountId,
        currency_id: CurrencyId,
    ) -> bool {
        let account = self.account(source, currency_id);
        &&& account.reserved == 0
        &&& account.free == 0 || account.frozen == 0
        &&& self.account(dest, currency_id).free + account.free <= Balance::MAX
    }

    /// A merge comes to a currency with the balances under it as they were.
    proof fn lemma_merge_comes_to<T: Config>(
        self,
        source: AccountId,
        dest: AccountId,
        walk: Seq<CurrencyId>,
        i: int,
    )
        requires
            source != dest,
            0 <= i < walk.len(),
            self.is_tidy(),
            self.walks(source, walk),
            self.merge_fits::<T>(source, dest, walk),
            self.merge_all::<T>(source, dest, walk.take(i)) is Ok,
        ensures
            ({
                let s = self.merge_all::<T>(source, dest, walk.take(i))->Ok_0;
                &&& s.account(source, walk[i]) == self.account(source, walk[i])
                &&& s.account(dest, walk[i]) == self.account(dest, walk[i])
                &&& self.merge_all::<T>(source, dest, walk.take(i + 1)) == s.merge_one::<T>(
                    source,
                    dest,
                    walk[i],
                )
            }),
    {
        let c = walk[i];
        assert forall|d: CurrencyId| #[trigger] walk.contains(d) implies self.account(
            source,
            d,
        ).holding() != 0 by {
            assert(self.is_stored(source, d));
        }
        self.lemma_merge_all_moves::<T>(source, dest, walk, i);
        let s = self.merge_all::<T>(source, dest, walk.take(i))->Ok_0;
        assert(!walk.take(i).contains(c)) by {
            if walk.take(i).contains(c) {
                let j = choose|j: int| 0 <= j < i && walk.take(i)[j] == c;
                assert(walk[j] == walk[i]);
            }
        }
        assert(s.account(source, c) == self.account(source, c));
        assert(s.account(dest, c) == self.account(dest, c));
        assert(walk.take(i + 1).drop_last() =~= walk.take(i));
        assert(walk.take(i + 1).last() == c);
    }

    /// A merge goes on as long as the balances can be merged.
    proof fn lemma_merge_goes_on<T: Config>(
        self,
        source: AccountId,
        dest: AccountId,
        walk: Seq<CurrencyId>,
        n: int,
    )
        requires
            source != dest,
            0 <= n <= walk.len(),
            self.is_tidy(),
            self.walks(source, walk),
            self.merge_fits::<T>(source, dest, walk),
            forall|i: int| 0 <= i < n ==> self.can_be_merged(source, dest, #[trigger] walk[i]),
        ensures
            self.merge_all::<T>(source, dest, walk.take(n)) is Ok,
        decreases n,
    {
        if n > 0 {
            self.lemma_merge_goes_on::<T>(source, dest, walk, n - 1);
            self.lemma_merge_comes_to::<T>(source, dest, walk, n - 1);
            assert(self.can_be_merged(source, dest, walk[n - 1]));
        }
    }

    /// The first balance that cannot be merged says why a merge fails: because
    /// some of it is reserved, or else because it is frozen, or else because the
    /// recipient would have more than the largest balance.
    pub proof fn law_merge_fails<T: Config>(
        self,
        source: AccountId,
        dest: AccountId,
        walk: Seq<CurrencyId>,
        n: int,
    )
        requires
            source != dest,
            0 <= n < walk.len(),
            self.is_tidy(),
            self.walks(source, walk),
            self.merge_fits::<T>(source, dest, walk),
            forall|i: int| 0 <= i < n ==> self.can_be_merged(source, dest, #[trigger] walk[i]),
            !self.can_be_merged(source, dest, walk[n]),
        ensures
            self.merge_outcome::<T>(source, dest, walk) == Err::<(), Error>(
                if self.account(source, walk[n]).reserved != 0 {
                    Error::StillHasActiveReserved
                } else if self.account(source, walk[n]).frozen != 0 && self.account(
                    source,
                    walk[n],
                ).free != 0 {
                    Error::LiquidityRestrictions
                } else {
                    Error::BalanceOverflow
                },
            ),
            self.merged::<T>(source, dest, walk) == self,
    {
        self.lemma_merge_goes_on::<T>(source, dest, walk, n);
        self.lemma_merge_comes_to::<T>(source, dest, walk, n);
        self.lemma_merge_stops::<T>(source, dest, walk, n + 1);
    }

    /// A merge succeeds exactly if every balance of the account can be merged:
    /// it fails only for what the account has reserved or frozen, or for what
    /// the recipient could not hold.
    pub proof fn law_merge_succeeds<T: Config>(
        self,
        source: AccountId,
        dest: AccountId,
        walk: Seq<CurrencyId>,
    )
        requires
            source != dest,
            self.is_tidy(),
            self.walks(source, walk),
            self.merge_fits::<T>(source, dest, walk),
        ensures
            self.merge_outcome::<T>(source, dest, walk) is Ok <==> forall|c: CurrencyId| #[trigger]
                self.is_stored(source, c) ==> self.can_be_merged(source, dest, c),
    {
        if forall|c: CurrencyId| #[trigger]
            self.is_stored(source, c) ==> self.can_be_merged(source, dest, c) {
            assert forall|i: int| 0 <= i < walk.len() implies self.can_be_merged(
                source,
                dest,
                #[trigger] walk[i],
            ) by {
                assert(walk.contains(walk[i]));
                assert(self.is_stored(source, walk[i]));
            }
            self.lemma_merge_goes_on::<T>(source, dest, walk, walk.len() as int);
            assert(walk.take(walk.len() as int) =~= walk);
        } else {
            let c = choose|c: CurrencyId| #[trigger]
                self.is_stored(source, c) && !self.can_be_merged(source, dest, c);
            assert(walk.contains(c));
            let j = choose|j: int| 0 <= j < walk.len() && walk[j] == c;
            let n = self.first_unmerged(source, dest, walk, j);
            self.lemma_first_unmerged(source, dest, walk, j);
            self.law_merge_fails::<T>(source, dest, walk, n);
        }
    }

    /// Where the first balance stands that cannot be merged, up to one that
    /// cannot.
    spec fn first_unmerged(
        self,
        source: AccountId,
        dest: AccountId,
        walk: Seq<CurrencyId>,
        j: int,
    ) -> int
        decreases j,
    {
        if j <= 0 {
            j
        } else {
            let earlier = self.first_unmerged(source, dest, walk, j - 1);
            if self.can_be_merged(source, dest, walk[earlier]) {
                j
            } else {
                earlier
            }
        }
    }

    /// All that stand before it can be merged.
    proof fn lemma_first_unmerged(
        self,
        source: AccountId,
        dest: AccountId,
        walk: Seq<CurrencyId>,
        j: int,
    )
        requires
            0 <= j < walk.len(),
        ensures
            ({
                let n = self.first_unmerged(source, dest, walk, j);
                &&& 0 <= n <= j
                &&& forall|i: int|
                    0 <= i < n ==> self.can_be_merged(source, dest, #[trigger] walk[i])
                &&& n < j ==> !self.can_be_merged(source, dest, walk[n])
            }),
        decreases j,
    {
        if j > 0 {
            self.lemma_first_unmerged(source, dest, walk, j - 1);
        }
    }

    /// A merge of an account with itself changes nothing, and fails exactly if
    /// anything that it comes to is reserved.
    pub proof fn law_merge_with_oneself<T: Config>(
        self,
        source: AccountId,
        walk: Seq<CurrencyId>,
    )
        ensures
            self.merged::<T>(source, source, walk) == self,
            self.merge_fits::<T>(source, source, walk),
            self.merge_outcome::<T>(source, source, walk) is Ok <==> forall|i: int|
                0 <= i < walk.len() ==> self.account(source, #[trigger] walk[i]).reserved == 0,
            self.merge_outcome::<T>(source, source, walk) is Err ==> self.merge_outcome::<T>(
                source,
                source,
                walk,
            ) == Err::<(), Error>(Error::StillHasActiveReserved),
        decreases walk.len(),
    {
        if walk.len() > 0 {
            let front = walk.drop_last();
            self.law_merge_with_oneself::<T>(source, front);
            assert(walk.last() == walk[walk.len() - 1]);
            assert forall|i: int| 0 <= i < front.len() implies front[i] == #[trigger] walk[i] by {}
            if self.merge_outcome::<T>(source, source, walk) is Ok {
                assert forall|i: int| 0 <= i < walk.len() implies self.account(
                    source,
                    #[trigger] walk[i],
                ).reserved == 0 by {
                    if i < front.len() {
                        assert(front[i] == walk[i]);
                        assert(self.account(source, front[i]).reserved == 0);
                    }
                }
            }
            if forall|i: int|
                0 <= i < walk.len() ==> self.account(source, #[trigger] walk[i]).reserved == 0 {
                assert forall|i: int| 0 <= i < front.len() implies self.account(
                    source,
                    #[trigger] front[i],
                ).reserved == 0 by {
                    assert(front[i] == walk[i]);
                }
                assert(self.account(source, walk[walk.len() - 1]).reserved == 0);
            }
        }
        assert forall|i: int| 0 <= i < walk.len() implies #[trigger] self.merge_step_fits::<T>(
            source,
            source,
            walk,
            i,
        ) by {}
    }

    /// A merge goes from currency to currency: under each it transfers all that
    /// is free, unless something is reserved, and with the first failure
    /// everything is as it was. It can be called if every transfer that it comes
    /// to can be.
    pub proof fn law_merge_steps<T: Config>(
        self,
        source: AccountId,
        dest: AccountId,
        walk: Seq<CurrencyId>,
        currency_id: CurrencyId,
    )
        ensures
            self.merge_outcome::<T>(source, dest, Seq::empty()) is Ok,
            self.merged::<T>(source, dest, Seq::empty()) == self,
            ({
                let further = walk.push(currency_id);
                let s = self.merged::<T>(source, dest, walk);
                let account = s.account(source, currency_id);
                let r = self.merge_outcome::<T>(source, dest, walk);
                let t = self.merged::<T>(source, dest, further);
                let last = self.merge_outcome::<T>(source, dest, further);
                let goes_on = r is Ok && account.reserved == 0;
                &&& r is Err ==> last == r
                &&& last is Err ==> t == self
                &&& r is Ok && account.reserved != 0 ==> last == Err::<(), Error>(
                    Error::StillHasActiveReserved,
                )
                &&& goes_on ==> last == s.transfer_outcome(currency_id, source, dest, account.free)
                &&& goes_on && last is Ok ==> t == s.transferred::<T>(
                    currency_id,
                    source,
                    dest,
                    account.free,
                )
                &&& self.merge_fits::<T>(source, dest, further) <==> {
                    &&& self.merge_fits::<T>(source, dest, walk)
                    &&& goes_on ==> s.transfer_fits::<T>(currency_id, source, dest, account.free)
                }
            }),
    {
        let further = walk.push(currency_id);
        assert(further.drop_last() =~= walk);
        assert(further.take(walk.len() as int) =~= walk);
        assert forall|i: int| 0 <= i < walk.len() implies #[trigger] self.merge_step_fits::<T>(
            source,
            dest,
            further,
            i,
        ) == self.merge_step_fits::<T>(source, dest, walk, i) by {
            assert(further.take(i) =~= walk.take(i));
            assert(further[i] == walk[i]);
        }
        if self.merge_fits::<T>(source, dest, further) {
            assert(self.merge_step_fits::<T>(source, dest, further, walk.len() as int));
            assert forall|i: int| 0 <= i < walk.len() implies #[trigger] self.merge_step_fits::<T>(
                source,
                dest,
                walk,
                i,
            ) by {
                assert(self.merge_step_fits::<T>(source, dest, further, i));
            }
        }
        if self.merge_fits::<T>(source, dest, walk) {
            assert forall|i: int| 0 <= i < walk.len() implies #[trigger] self.merge_step_fits::<T>(
                source,
                dest,
                further,
                i,
            ) by {
                assert(self.merge_step_fits::<T>(source, dest, walk, i));
            }
        }
    }
}

} // verus!
