//! What is held and what was issued drift apart by exactly the imbalances that
//! are handed out, and settling those brings the two together again.
use crate::account::AccountId;
use crate::config::Config;
use crate::currency::smaller;
use crate::imbalances::{
    negative_offset, positive_offset, saturated, signed_amount, NegativeImbalance, PositiveImbalance,
    SignedImbalance,
};
use crate::laws::backing::{holding_of, under};
use crate::laws::sums::lemma_not_negative;
use crate::state::State;
use crate::types::{AccountData, Balance, CurrencyId};
use vstd::prelude::*;

verus! {

// The total issuance.
impl State {
    /// Burning leaves a positive imbalance: as much less is issued.
    pub proof fn law_burn_is_owed(self, currency_id: CurrencyId, amount: Balance)
        ensures
            forall|c: CurrencyId| #[trigger]
                self.issuance_burnt(currency_id, amount).excess(c) == self.excess(c) - under(
                    currency_id,
                    c,
                    self.burnable(currency_id, amount),
                ),
    {
        if amount != 0 {
            self.lemma_issuance_backing(
                currency_id,
                self.total_issuance(currency_id) - self.burnable(currency_id, amount),
            );
        }
    }

    /// Issuing leaves a negative imbalance: as much more is issued.
    pub proof fn law_issue_is_owed(self, currency_id: CurrencyId, amount: Balance)
        ensures
            forall|c: CurrencyId| #[trigger]
                self.issuance_issued(currency_id, amount).excess(c) == self.excess(c) + under(
                    currency_id,
                    c,
                    self.issuable(currency_id, amount),
                ),
    {
        if amount != 0 {
            self.lemma_issuance_backing(
                currency_id,
                self.total_issuance(currency_id) + self.issuable(currency_id, amount),
            );
        }
    }

    /// What was issued can be burnt again, and leaves the total issuance as it
    /// was.
    pub proof fn law_burn_undoes_issue(self, currency_id: CurrencyId, amount: Balance)
        ensures
            ({
                let issued = self.issuable(currency_id, amount) as Balance;
                let s = self.issuance_issued(currency_id, amount);
                &&& s.burnable(currency_id, issued) == issued
                &&& forall|c: CurrencyId| #[trigger]
                    s.issuance_burnt(currency_id, issued).total_issuance(c) == self.total_issuance(
                        c,
                    )
            }),
    {
    }
}

// Balances.
impl State {
    /// Setting a free balance adds to what is held what it adds to the account.
    proof fn lemma_set_free_owed<T: Config>(
        self,
        currency_id: CurrencyId,
        who: AccountId,
        value: int,
    )
        requires
            self.accounts.dom().finite(),
            self.set_free_fits::<T>(currency_id, who, value),
        ensures
            self.set_free::<T>(currency_id, who, value).accounts.dom().finite(),
            forall|c: CurrencyId| #[trigger]
                self.set_free::<T>(currency_id, who, value).excess(c) == self.excess(c) - under(
                    currency_id,
                    c,
                    value - self.account(who, currency_id).free,
                ),
    {
        let account = self.account(who, currency_id);
        self.lemma_put_backing::<T>(
            who,
            currency_id,
            AccountData { free: value as Balance, ..account },
        );
    }

    /// A deposit to an account leaves a positive imbalance: as much more is
    /// held.
    pub proof fn law_added_free_is_owed<T: Config>(
        self,
        currency_id: CurrencyId,
        who: AccountId,
        value: Balance,
    )
        requires
            self.accounts.dom().finite(),
            self.add_free_fits::<T>(currency_id, who, value),
        ensures
            ({
                let t = self.free_added::<T>(currency_id, who, value);
                let imbalance = if self.may_add_free(currency_id, who, value) {
                    value as int
                } else {
                    0
                };
                &&& t.accounts.dom().finite()
                &&& forall|c: CurrencyId| #[trigger]
                    t.excess(c) == self.excess(c) - under(currency_id, c, imbalance)
            }),
    {
        if value != 0 && self.may_add_free(currency_id, who, value) {
            self.lemma_set_free_owed::<T>(
                currency_id,
                who,
                self.account(who, currency_id).free + value,
            );
        }
    }

    /// A withdrawal from an account leaves a negative imbalance: as much less is
    /// held.
    pub proof fn law_taken_free_is_owed<T: Config>(
        self,
        currency_id: CurrencyId,
        who: AccountId,
        value: Balance,
    )
        requires
            self.accounts.dom().finite(),
            self.take_free_fits::<T>(currency_id, who, value),
        ensures
            ({
                let t = self.free_taken::<T>(currency_id, who, value);
                let imbalance = if self.withdrawal(currency_id, who, value) is Ok {
                    value as int
                } else {
                    0
                };
                &&& t.accounts.dom().finite()
                &&& forall|c: CurrencyId| #[trigger]
                    t.excess(c) == self.excess(c) + under(currency_id, c, imbalance)
            }),
    {
        if value != 0 && self.withdrawal(currency_id, who, value) is Ok {
            self.lemma_set_free_owed::<T>(
                currency_id,
                who,
                self.account(who, currency_id).free - value,
            );
        }
    }

    /// Setting a free balance leaves an imbalance of what it adds or takes.
    pub proof fn law_made_free_is_owed<T: Config>(
        self,
        currency_id: CurrencyId,
        who: AccountId,
        value: Balance,
    )
        requires
            self.accounts.dom().finite(),
            self.make_free_fits::<T>(currency_id, who, value),
        ensures
            ({
                let t = self.free_made::<T>(currency_id, who, value);
                let imbalance = signed_amount(
                    self.made_imbalance::<T>(currency_id, who, value),
                );
                &&& t.accounts.dom().finite()
                &&& forall|c: CurrencyId| #[trigger]
                    t.excess(c) == self.excess(c) - under(currency_id, c, imbalance)
            }),
    {
        if self.may_make_free::<T>(currency_id, who, value) {
            self.lemma_set_free_owed::<T>(currency_id, who, value as int);
        }
    }
}

// Settling.
impl State {
    /// Whether an imbalance can be accounted for in full.
    pub open spec fn can_settle(self, currency_id: CurrencyId, imbalance: SignedImbalance) -> bool {
        0 <= self.total_issuance(currency_id) + signed_amount(imbalance) <= Balance::MAX
    }

    /// What was issued beyond what is held can be accounted for in full.
    pub proof fn law_excess_can_be_settled(self, currency_id: CurrencyId, taken: NegativeImbalance)
        requires
            taken.amount <= self.excess(currency_id),
        ensures
            self.can_settle(currency_id, SignedImbalance::Negative(taken)),
    {
        lemma_not_negative(self.accounts, holding_of(currency_id));
    }

    /// Settling an imbalance makes up for the drift that it stands for.
    proof fn lemma_settled(
        self,
        before: State,
        currency_id: CurrencyId,
        imbalance: SignedImbalance,
    )
        requires
            self.accounts.dom().finite(),
            signed_amount(imbalance) > 0 || !before.is_backed() ==> self.can_settle(
                currency_id,
                imbalance,
            ),
            forall|c: CurrencyId| #[trigger]
                self.excess(c) == before.excess(c) - under(
                    currency_id,
                    c,
                    signed_amount(imbalance),
                ),
        ensures
            ({
                let t = self.settled(currency_id, imbalance);
                &&& t.accounts.dom().finite()
                &&& forall|c: CurrencyId| #[trigger] t.excess(c) == before.excess(c)
                &&& before.is_backed() ==> t.is_backed()
            }),
    {
        if before.is_backed() && signed_amount(imbalance) <= 0 {
            assert(before.excess(currency_id) == 0);
            assert(self.excess(currency_id) == -signed_amount(imbalance));
            self.law_excess_can_be_settled(
                currency_id,
                NegativeImbalance { amount: (-signed_amount(imbalance)) as Balance },
            );
        }
        self.lemma_issuance_backing(
            currency_id,
            self.total_issuance(currency_id) + signed_amount(imbalance),
        );
        let t = self.settled(currency_id, imbalance);
        assert forall|c: CurrencyId| #[trigger] t.excess(c) == before.excess(c) by {
            assert(self.excess(c) == before.excess(c) - under(
                currency_id,
                c,
                signed_amount(imbalance),
            ));
        }
    }

    /// A deposit to an account whose imbalance is settled leaves what is held
    /// and what was issued as far apart as they were, unless more would be
    /// issued than a balance can tell.
    pub proof fn law_settled_deposit_keeps_backing<T: Config>(
        self,
        currency_id: CurrencyId,
        who: AccountId,
        value: Balance,
    )
        requires
            self.accounts.dom().finite(),
            self.add_free_fits::<T>(currency_id, who, value),
            self.may_add_free(currency_id, who, value),
            self.free_added::<T>(currency_id, who, value).can_settle(
                currency_id,
                SignedImbalance::Positive(PositiveImbalance { amount: value }),
            ),
        ensures
            ({
                let t = self.free_added::<T>(currency_id, who, value).settled(
                    currency_id,
                    SignedImbalance::Positive(PositiveImbalance { amount: value }),
                );
                &&& t.accounts.dom().finite()
                &&& forall|c: CurrencyId| #[trigger] t.excess(c) == self.excess(c)
                &&& self.is_backed() ==> t.is_backed()
            }),
    {
        self.law_added_free_is_owed::<T>(currency_id, who, value);
        self.free_added::<T>(currency_id, who, value).lemma_settled(
            self,
            currency_id,
            SignedImbalance::Positive(PositiveImbalance { amount: value }),
        );
    }

    /// A withdrawal from an account whose imbalance is settled leaves what is
    /// held and what was issued as far apart as they were. Where that is not at
    /// all, there is always enough issued to settle it.
    pub proof fn law_settled_withdrawal_keeps_backing<T: Config>(
        self,
        currency_id: CurrencyId,
        who: AccountId,
        value: Balance,
    )
        requires
            self.accounts.dom().finite(),
            self.take_free_fits::<T>(currency_id, who, value),
            self.withdrawal(currency_id, who, value) is Ok,
            self.is_backed() || self.free_taken::<T>(currency_id, who, value).can_settle(
                currency_id,
                SignedImbalance::Negative(NegativeImbalance { amount: value }),
            ),
        ensures
            ({
                let t = self.free_taken::<T>(currency_id, who, value).settled(
                    currency_id,
                    SignedImbalance::Negative(NegativeImbalance { amount: value }),
                );
                &&& t.accounts.dom().finite()
                &&& forall|c: CurrencyId| #[trigger] t.excess(c) == self.excess(c)
                &&& self.is_backed() ==> t.is_backed()
            }),
    {
        self.law_taken_free_is_owed::<T>(currency_id, who, value);
        self.free_taken::<T>(currency_id, who, value).lemma_settled(
            self,
            currency_id,
            SignedImbalance::Negative(NegativeImbalance { amount: value }),
        );
    }

    /// A slash whose imbalance is settled leaves what is held and what was
    /// issued as far apart as they were. Where that is not at all, there is
    /// always enough issued to settle it.
    pub proof fn law_settled_slash_keeps_backing<T: Config>(
        self,
        currency_id: CurrencyId,
        who: AccountId,
        value: Balance,
        taken: NegativeImbalance,
    )
        requires
            self.accounts.dom().finite(),
            self.slash_account_fits::<T>(currency_id, who, value),
            taken.amount == value - self.unslashed(currency_id, who, value),
            self.is_backed() || self.slashed_account::<T>(currency_id, who, value).can_settle(
                currency_id,
                SignedImbalance::Negative(taken),
            ),
        ensures
            ({
                let t = self.slashed_account::<T>(currency_id, who, value).settled(
                    currency_id,
                    SignedImbalance::Negative(taken),
                );
                &&& t.accounts.dom().finite()
                &&& forall|c: CurrencyId| #[trigger] t.excess(c) == self.excess(c)
                &&& self.is_backed() ==> t.is_backed()
            }),
    {
        self.law_slash_account_leaves_issued::<T>(currency_id, who, value);
        self.slashed_account::<T>(currency_id, who, value).lemma_settled(
            self,
            currency_id,
            SignedImbalance::Negative(taken),
        );
    }

    /// Setting a free balance and settling the imbalance leaves what is held and
    /// what was issued as far apart as they were, unless more would be issued
    /// than a balance can tell.
    pub proof fn law_settled_free_balance_keeps_backing<T: Config>(
        self,
        currency_id: CurrencyId,
        who: AccountId,
        value: Balance,
    )
        requires
            self.accounts.dom().finite(),
            self.make_free_fits::<T>(currency_id, who, value),
            ({
                let imbalance = self.made_imbalance::<T>(currency_id, who, value);
                signed_amount(imbalance) > 0 || !self.is_backed() ==> self.free_made::<T>(
                    currency_id,
                    who,
                    value,
                ).can_settle(currency_id, imbalance)
            }),
        ensures
            ({
                let t = self.free_made::<T>(currency_id, who, value).settled(
                    currency_id,
                    self.made_imbalance::<T>(currency_id, who, value),
                );
                &&& t.accounts.dom().finite()
                &&& forall|c: CurrencyId| #[trigger] t.excess(c) == self.excess(c)
                &&& self.is_backed() ==> t.is_backed()
            }),
    {
        self.law_made_free_is_owed::<T>(currency_id, who, value);
        self.free_made::<T>(currency_id, who, value).lemma_settled(
            self,
            currency_id,
            self.made_imbalance::<T>(currency_id, who, value),
        );
    }

    /// Settling what burning or issuing hands out leaves every total issuance as
    /// it was.
    pub proof fn law_settling_undoes_burn_and_issue(self, currency_id: CurrencyId, amount: Balance)
        ensures
            ({
                let burnt = PositiveImbalance {
                    amount: self.burnable(currency_id, amount) as Balance,
                };
                let issued = NegativeImbalance {
                    amount: self.issuable(currency_id, amount) as Balance,
                };
                forall|c: CurrencyId|
                    #![trigger self.total_issuance(c)]
                    self.issuance_burnt(currency_id, amount).settled(
                        currency_id,
                        SignedImbalance::Positive(burnt),
                    ).total_issuance(c) == self.total_issuance(c) && self.issuance_issued(
                        currency_id,
                        amount,
                    ).settled(currency_id, SignedImbalance::Negative(issued)).total_issuance(c)
                        == self.total_issuance(c)
            }),
    {
    }
}

// Imbalances among themselves.
/// What an imbalance was split into merges into that imbalance.
pub proof fn law_merge_undoes_split(whole: Balance, amount: Balance)
    ensures
        ({
            let first = smaller(whole as int, amount as int);
            saturated(first + (whole - first)) == whole
        }),
{
}

impl State {
    /// The parts of an imbalance settle like the whole of it.
    pub proof fn law_parts_settle_like_the_whole(
        self,
        currency_id: CurrencyId,
        first: Balance,
        second: Balance,
        whole: Balance,
    )
        requires
            first + second == whole,
        ensures
            self.settled(
                currency_id,
                SignedImbalance::Positive(PositiveImbalance { amount: first }),
            ).settled(currency_id, SignedImbalance::Positive(PositiveImbalance { amount: second }))
                == self.settled(
                currency_id,
                SignedImbalance::Positive(PositiveImbalance { amount: whole }),
            ),
            self.settled(
                currency_id,
                SignedImbalance::Negative(NegativeImbalance { amount: first }),
            ).settled(currency_id, SignedImbalance::Negative(NegativeImbalance { amount: second }))
                == self.settled(
                currency_id,
                SignedImbalance::Negative(NegativeImbalance { amount: whole }),
            ),
    {
    }

    /// What is left of two opposite imbalances settles like one after the other,
    /// if each of them can be settled in full.
    pub proof fn law_offset_settles_like_both(
        self,
        currency_id: CurrencyId,
        positive: PositiveImbalance,
        negative: NegativeImbalance,
    )
        requires
            self.can_settle(currency_id, SignedImbalance::Positive(positive)),
            self.settled(currency_id, SignedImbalance::Positive(positive)).can_settle(
                currency_id,
                SignedImbalance::Negative(negative),
            ),
        ensures
            ({
                let both = self.settled(currency_id, SignedImbalance::Positive(positive)).settled(
                    currency_id,
                    SignedImbalance::Negative(negative),
                );
                &&& match positive_offset(positive, negative) {
                    Ok(p) => self.settled(currency_id, SignedImbalance::Positive(p)) == both,
                    Err(n) => self.settled(currency_id, SignedImbalance::Negative(n)) == both,
                }
                &&& match negative_offset(negative, positive) {
                    Ok(n) => self.settled(currency_id, SignedImbalance::Negative(n)) == both,
                    Err(p) => self.settled(currency_id, SignedImbalance::Positive(p)) == both,
                }
            }),
    {
    }
}

} // verus!
