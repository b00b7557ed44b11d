//! Reputation issuance: the client of a completed contract rates its
//! freelancer once, consuming one pending reputation credit and updating the
//! freelancer's aggregate.

use vstd::prelude::*;

use crate::constants::{MAX_COMMENT_BYTES, MAX_RATING, MIN_RATING};
use crate::escrow::{
    credit_ind, credits_sum, lemma_credits_sum_update, lemma_rated_count_le_len,
    lemma_rated_count_update, lemma_unrated_count_update, rated_count, record_wf, rep_lookup,
    reputation_matches, unique_entries, unrated_count, Escrow, ReputationCredit, ReputationEntry,
};
use crate::types::{AccountId, Contract, ContractStatus, Error, Reputation};

verus! {

/// The aggregate after one more rating of `rating`.
pub open spec fn with_rating(r: Option<Reputation>, rating: u32) -> Reputation {
    match r {
        None => Reputation { completed_contracts: 1, total_rating: rating as i128, last_rating: rating as i128 },
        Some(x) => Reputation {
            completed_contracts: (x.completed_contracts + 1) as i128,
            total_rating: (x.total_rating + rating) as i128,
            last_rating: rating as i128,
        },
    }
}

/// The average rating scaled by 10 000, for a freelancer with at least one rating.
pub open spec fn scaled_average(r: Option<Reputation>) -> Option<i128> {
    match r {
        Some(x) => if x.completed_contracts > 0 {
            Some((x.total_rating * 10_000 / (x.completed_contracts as int)) as i128)
        } else {
            None
        },
        None => None,
    }
}

/// With unique entries, the entry at `i` is the one found for its freelancer.
pub proof fn lemma_rep_lookup_found(s: Seq<ReputationEntry>, i: int)
    requires
        unique_entries(s),
        0 <= i < s.len(),
    ensures
        rep_lookup(s, s[i].freelancer) == Some(s[i].record),
    decreases s.len(),
{
    if i < s.len() - 1 {
        assert(s[i].freelancer != s[s.len() - 1].freelancer);
        assert(s.drop_last()[i] == s[i]);
        assert(unique_entries(s.drop_last())) by {
            assert forall|a: int, b: int| 0 <= a < b < s.drop_last().len() implies (
            #[trigger] s.drop_last()[a]).freelancer != (#[trigger] s.drop_last()[b]).freelancer by {
                assert(s.drop_last()[a] == s[a] && s.drop_last()[b] == s[b]);
            }
        }
        lemma_rep_lookup_found(s.drop_last(), i);
    }
}

/// A freelancer with no entry has no aggregate.
pub proof fn lemma_rep_lookup_absent(s: Seq<ReputationEntry>, f: AccountId)
    requires
        forall|k: int| 0 <= k < s.len() ==> (#[trigger] s[k]).freelancer != f,
    ensures
        rep_lookup(s, f) is None,
    decreases s.len(),
{
    if s.len() > 0 {
        assert(s.last() == s[s.len() - 1]);
        assert forall|k: int| 0 <= k < s.drop_last().len() implies (#[trigger] s.drop_last()[k]).freelancer
            != f by {
            assert(s.drop_last()[k] == s[k]);
        }
        lemma_rep_lookup_absent(s.drop_last(), f);
    }
}

/// Replacing an entry by one of the same freelancer changes only that
/// freelancer's aggregate.
pub proof fn lemma_rep_lookup_update(s: Seq<ReputationEntry>, i: int, e: ReputationEntry, g: AccountId)
    requires
        unique_entries(s),
        0 <= i < s.len(),
        s[i].freelancer == e.freelancer,
    ensures
        rep_lookup(s.update(i, e), g) == if g == e.freelancer {
            Some(e.record)
        } else {
            rep_lookup(s, g)
        },
    decreases s.len(),
{
    let u = s.update(i, e);
    if i < s.len() - 1 {
        assert(u.drop_last() =~= s.drop_last().update(i, e));
        assert(u.last() == s.last());
        assert(s[i].freelancer != s[s.len() - 1].freelancer);
        assert(unique_entries(s.drop_last())) by {
            assert forall|a: int, b: int| 0 <= a < b < s.drop_last().len() implies (
            #[trigger] s.drop_last()[a]).freelancer != (#[trigger] s.drop_last()[b]).freelancer by {
                assert(s.drop_last()[a] == s[a] && s.drop_last()[b] == s[b]);
            }
        }
        assert(s.drop_last()[i] == s[i]);
        lemma_rep_lookup_update(s.drop_last(), i, e, g);
    } else {
        assert(u.drop_last() =~= s.drop_last());
        if g != e.freelancer {
        }
    }
}

impl Escrow {
    /// The error, if any, with which `issue_reputation` rejects.
    pub open spec fn issue_error(self, contract_id: u32, caller: AccountId, rating: u32, comment_len: int) -> Option<Error> {
        if !self.initialized {
            Some(Error::NotInitialized)
        } else if self.pause_error() is Some {
            self.pause_error()
        } else if !self.has_contract(contract_id) {
            Some(Error::ContractNotFound)
        } else {
            let c = self.contract_at(contract_id);
            if caller != c.client {
                Some(Error::UnauthorizedRole)
            } else if comment_len == 0 {
                Some(Error::EmptyComment)
            } else if comment_len > MAX_COMMENT_BYTES {
                Some(Error::CommentTooLong)
            } else if c.client == c.freelancer {
                Some(Error::SelfRating)
            } else if c.status != ContractStatus::Completed {
                Some(Error::NotCompleted)
            } else if rating < MIN_RATING || rating > MAX_RATING {
                Some(Error::InvalidRating)
            } else if c.reputation_issued {
                Some(Error::ReputationAlreadyIssued)
            } else {
                None
            }
        }
    }

    /// Removes one pending credit of `f`, who holds at least one.
    fn consume_pending_reputation_credit(&mut self, f: AccountId)
        requires
            forall|k: int|
                0 <= k < old(self).reputation_credits@.len() ==> #[trigger] old(self).reputation_credits@[k].credits >= 0,
            old(self).credits_of(f) >= 1,
        ensures
            forall|g: AccountId|
                #[trigger] final(self).credits_of(g) == old(self).credits_of(g) - if g == f {
                    1int
                } else {
                    0int
                },
            forall|k: int|
                0 <= k < final(self).reputation_credits@.len() ==> #[trigger] final(self).reputation_credits@[k].credits >= 0,
            final(self).contracts@ == old(self).contracts@,
            final(self).milestones@ == old(self).milestones@,
            final(self).approvals@ == old(self).approvals@,
            final(self).finalizations@ == old(self).finalizations@,
            final(self).status_index@ == old(self).status_index@,
            final(self).config_unchanged(*old(self)),
    {
        let ghost s = self.reputation_credits@;
        let n = self.reputation_credits.len();
        let mut i: usize = 0;
        while i < n
            invariant
                n == s.len(),
                s == self.reputation_credits@,
                *self == *old(self),
                i <= n,
                forall|k: int| 0 <= k < s.len() ==> #[trigger] s[k].credits >= 0,
                credits_sum(s.take(i as int), f) == 0,
            decreases n - i,
        {
            proof {
                assert(s.take(i + 1).drop_last() =~= s.take(i as int));
                assert(s.take(i + 1).last() == s[i as int]);
            }
            let e = self.reputation_credits[i];
            if e.freelancer == f && e.credits > 0 {
                let e2 = ReputationCredit { freelancer: f, credits: e.credits - 1 };
                self.reputation_credits.set(i, e2);
                proof {
                    assert forall|g: AccountId| #[trigger] credits_sum(self.reputation_credits@, g)
                        == credits_sum(s, g) - if g == f {
                        1int
                    } else {
                        0int
                    } by {
                        lemma_credits_sum_update(s, i as int, e2, g);
                    }
                }
                return;
            }
            i = i + 1;
        }
        proof {
            assert(s.take(i as int) =~= s);
        }
    }

    /// The client of a completed contract rates its freelancer (`rating` in
    /// `1..=5`, with a comment of 1 to 200 bytes, which is kept with the
    /// contract). Consumes one pending credit of the freelancer and adds the
    /// rating to their aggregate.
    pub fn issue_reputation(&mut self, contract_id: u32, caller: AccountId, rating: u32, comment: &str) -> (r: Result<(), Error>)
        requires
            old(self).wf(),
        ensures
            final(self).wf(),
            match r {
                Err(e) => old(self).issue_error(contract_id, caller, rating, comment.len() as int)
                    == Some(e) && *final(self) == *old(self),
                Ok(()) => {
                    let c = old(self).contract_at(contract_id);
                    let f = c.freelancer;
                    &&& old(self).issue_error(contract_id, caller, rating, comment.len() as int) is None
                    &&& final(self).contracts@ == old(self).contracts@.update(
                        contract_id - 1,
                        Contract { reputation_issued: true, ..c },
                    )
                    &&& final(self).reputation_of(f) == Some(with_rating(old(self).reputation_of(f), rating))
                    &&& forall|g: AccountId| g != f ==> #[trigger] final(self).reputation_of(g)
                        == old(self).reputation_of(g)
                    &&& final(self).credits_of(f) == old(self).credits_of(f) - 1
                    &&& forall|g: AccountId| g != f ==> #[trigger] final(self).credits_of(g)
                        == old(self).credits_of(g)
                    &&& final(self).milestones@ == old(self).milestones@
                    &&& final(self).approvals@ == old(self).approvals@
                    &&& final(self).finalizations@ == old(self).finalizations@
                    &&& final(self).status_index@ == old(self).status_index@
                    &&& final(self).migrations@ == old(self).migrations@
                    &&& final(self).evidence@ == old(self).evidence@
                    &&& final(self).participants@ == old(self).participants@
                    &&& final(self).reputation_comments@.len() == old(self).reputation_comments@.len()
                    &&& final(self).reputation_comments@[contract_id - 1] matches Some(s) && s@ == comment@
                    &&& forall|k: int|
                        0 <= k < old(self).reputation_comments@.len() && k != contract_id - 1
                            ==> #[trigger] final(self).reputation_comments@[k] == old(
                            self,
                        ).reputation_comments@[k]
                    &&& final(self).settings_unchanged(*old(self))
                },
            },
    {
        self.require_initialized()?;
        self.require_not_paused()?;
        if contract_id == 0 || contract_id as usize > self.contracts.len() {
            return Err(Error::ContractNotFound);
        }
        let idx = (contract_id - 1) as usize;
        let c = self.contracts[idx];
        if caller != c.client {
            return Err(Error::UnauthorizedRole);
        }
        let comment_len = comment.len();
        if comment_len == 0 {
            return Err(Error::EmptyComment);
        }
        if comment_len > MAX_COMMENT_BYTES as usize {
            return Err(Error::CommentTooLong);
        }
        if c.client == c.freelancer {
            return Err(Error::SelfRating);
        }
        if c.status != ContractStatus::Completed {
            return Err(Error::NotCompleted);
        }
        if rating < MIN_RATING || rating > MAX_RATING {
            return Err(Error::InvalidRating);
        }
        if c.reputation_issued {
            return Err(Error::ReputationAlreadyIssued);
        }
        let f = c.freelancer;
        let ghost old_self = *self;
        proof {
            assert(record_wf(self.contracts@[idx as int], self.milestones@[idx as int]@, self.approvals@[idx as int]@));
            assert(reputation_matches(old_self.reputation_of(f), rated_count(old_self.contracts@, f)));
            lemma_rated_count_le_len(old_self.contracts@, f);
            assert(old_self.credits_of(f) == unrated_count(old_self.contracts@, f));
            lemma_unrated_count_update(old_self.contracts@, idx as int, Contract { reputation_issued: true, ..c }, f);
            crate::escrow::lemma_unrated_count_le_len(
                old_self.contracts@.update(idx as int, Contract { reputation_issued: true, ..c }),
                f,
            );
        }
        // Update the freelancer's aggregate.
        let ghost reps = self.reputations@;
        let n = self.reputations.len();
        let mut i: usize = 0;
        let mut found = false;
        while i < n && !found
            invariant
                n == reps.len(),
                reps == self.reputations@,
                i <= n,
                found ==> i < n && reps[i as int].freelancer == f,
                !found ==> forall|k: int| 0 <= k < i ==> (#[trigger] reps[k]).freelancer != f,
            decreases n - i + (if found {
                0int
            } else {
                1int
            }),
        {
            if self.reputations[i].freelancer == f {
                found = true;
            } else {
                i = i + 1;
            }
        }
        if found {
            let x = self.reputations[i].record;
            proof {
                lemma_rep_lookup_found(reps, i as int);
            }
            let rec = Reputation {
                completed_contracts: x.completed_contracts + 1,
                total_rating: x.total_rating + rating as i128,
                last_rating: rating as i128,
            };
            let e2 = ReputationEntry { freelancer: f, record: rec };
            self.reputations.set(i, e2);
            proof {
                assert forall|g: AccountId| #[trigger] rep_lookup(self.reputations@, g) == if g == f {
                    Some(rec)
                } else {
                    rep_lookup(reps, g)
                } by {
                    lemma_rep_lookup_update(reps, i as int, e2, g);
                }
                assert forall|a: int, b: int| 0 <= a < b < self.reputations@.len() implies (
                #[trigger] self.reputations@[a]).freelancer != (#[trigger] self.reputations@[b]).freelancer by {
                    assert(reps[a].freelancer != reps[b].freelancer);
                }
            }
        } else {
            let rec = Reputation { completed_contracts: 1, total_rating: rating as i128, last_rating: rating as i128 };
            let e2 = ReputationEntry { freelancer: f, record: rec };
            self.reputations.push(e2);
            proof {
                lemma_rep_lookup_absent(reps, f);
                assert(self.reputations@.drop_last() =~= reps);
                assert forall|g: AccountId| #[trigger] rep_lookup(self.reputations@, g) == if g == f {
                    Some(rec)
                } else {
                    rep_lookup(reps, g)
                } by {
                }
                assert forall|a: int, b: int| 0 <= a < b < self.reputations@.len() implies (
                #[trigger] self.reputations@[a]).freelancer != (#[trigger] self.reputations@[b]).freelancer by {
                    if b < reps.len() {
                        assert(reps[a].freelancer != reps[b].freelancer);
                    } else {
                        assert(self.reputations@[a] == reps[a]);
                    }
                }
            }
        }
        self.reputation_comments.set(idx, Some(comment.to_owned()));
        let c2 = Contract { reputation_issued: true, ..c };
        self.contracts.set(idx, c2);
        let ghost mid = *self;
        proof {
            assert(mid.contracts@ == old_self.contracts@.update(idx as int, c2));
        }
        self.consume_pending_reputation_credit(f);
        proof {
            assert(self.statuses() =~= old_self.statuses());
            assert forall|k: int| 0 <= k < self.contracts@.len() implies record_wf(
                #[trigger] self.contracts@[k],
                self.milestones@[k]@,
                self.approvals@[k]@,
            ) by {
                assert(record_wf(
                    old_self.contracts@[k],
                    old_self.milestones@[k]@,
                    old_self.approvals@[k]@,
                ));
            }
            assert forall|g: AccountId| #[trigger] self.credits_of(g) == unrated_count(self.contracts@, g) by {
                assert(old_self.credits_of(g) == unrated_count(old_self.contracts@, g));
                lemma_unrated_count_update(old_self.contracts@, idx as int, c2, g);
            }
            assert forall|g: AccountId| reputation_matches(
                #[trigger] self.reputation_of(g),
                rated_count(self.contracts@, g),
            ) by {
                assert(reputation_matches(old_self.reputation_of(g), rated_count(old_self.contracts@, g)));
                lemma_rated_count_update(old_self.contracts@, idx as int, c2, g);
            }
        }
        Ok(())
    }

    /// The aggregate reputation of `freelancer`, if any rating was issued.
    pub fn get_reputation(&self, freelancer: AccountId) -> (r: Option<Reputation>)
        requires
            self.wf(),
        ensures
            r == self.reputation_of(freelancer),
    {
        let ghost reps = self.reputations@;
        let mut i: usize = 0;
        while i < self.reputations.len()
            invariant
                reps == self.reputations@,
                unique_entries(reps),
                i <= reps.len(),
                forall|k: int| 0 <= k < i ==> (#[trigger] reps[k]).freelancer != freelancer,
            decreases reps.len() - i,
        {
            if self.reputations[i].freelancer == freelancer {
                proof {
                    lemma_rep_lookup_found(reps, i as int);
                }
                return Some(self.reputations[i].record);
            }
            i = i + 1;
        }
        proof {
            lemma_rep_lookup_absent(reps, freelancer);
        }
        None
    }

    /// The average rating of `freelancer` scaled by 10 000 (`40_000` is 4.0),
    /// or `None` before their first rating.
    pub fn get_average_rating(&self, freelancer: AccountId) -> (r: Option<i128>)
        requires
            self.wf(),
        ensures
            r == scaled_average(self.reputation_of(freelancer)),
    {
        let rep = self.get_reputation(freelancer);
        proof {
            assert(reputation_matches(self.reputation_of(freelancer), rated_count(self.contracts@, freelancer)));
            lemma_rated_count_le_len(self.contracts@, freelancer);
        }
        match rep {
            None => None,
            Some(x) => {
                if x.completed_contracts > 0 {
                    Some(x.total_rating * 10_000 / x.completed_contracts)
                } else {
                    None
                }
            },
        }
    }
}

} // verus!
