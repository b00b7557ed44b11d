//! Contract creation: participant and milestone validation, id allocation.

use vstd::prelude::*;

use crate::amount::{
    amounts_error, lemma_amounts_valid, single_amount_error, sum_amounts, validate_amount_array,
};
use crate::constants::MAX_MILESTONES;
use crate::escrow::{
    unrated_count, fresh_milestone, lemma_unrated_count_push, lemma_ms_total_bounds,
    ms_total, new_contract, record_wf, Escrow,
};
use crate::status_index::{
    buckets, index_new_contract, lemma_index_push, spec_status_code, STATUS_BUCKETS,
};
use crate::types::{
    AccountId, Contract, ContractStatus, Error, Milestone, MilestoneApprovals,
    ReleaseAuthorization,
};

verus! {

/// The deadlines as values: `None`, or the deadline of each milestone.
pub open spec fn deadlines_view(deadlines: Option<Vec<u64>>) -> Option<Seq<u64>> {
    match deadlines {
        Some(d) => Some(d@),
        None => None,
    }
}

/// The deadline that `deadlines` gives milestone `j`, if any.
pub open spec fn deadline_at(deadlines: Option<Seq<u64>>, j: int) -> Option<u64> {
    match deadlines {
        Some(d) => Some(d[j]),
        None => None,
    }
}

/// Freshly created milestones of `amounts`, each with the deadline that
/// `deadlines` gives it.
pub open spec fn fresh_milestones(amounts: Seq<i128>, deadlines: Option<Seq<u64>>) -> Seq<Milestone> {
    Seq::new(
        amounts.len(),
        |j: int| Milestone { deadline: deadline_at(deadlines, j), ..fresh_milestone(amounts[j]) },
    )
}

impl Escrow {
    /// The error, if any, with which `create_contract_with_deadlines` rejects
    /// its arguments: those of `create_contract`, then a deadline list whose
    /// length differs from the number of milestones.
    pub open spec fn create_error_with_deadlines(
        self,
        client: AccountId,
        freelancer: AccountId,
        arbiter: Option<AccountId>,
        amounts: Seq<i128>,
        release_authorization: ReleaseAuthorization,
        deadlines: Option<Seq<u64>>,
    ) -> Option<Error> {
        let e = self.create_error(client, freelancer, arbiter, amounts, release_authorization);
        if e is Some {
            e
        } else if deadlines matches Some(d) && d.len() != amounts.len() {
            Some(Error::InvalidMilestone)
        } else {
            None
        }
    }

    /// The error, if any, with which `create_contract` rejects its arguments.
    pub open spec fn create_error(
        self,
        client: AccountId,
        freelancer: AccountId,
        arbiter: Option<AccountId>,
        amounts: Seq<i128>,
        release_authorization: ReleaseAuthorization,
    ) -> Option<Error> {
        if self.pause_error() is Some {
            self.pause_error()
        } else if client == freelancer {
            Some(Error::InvalidParticipant)
        } else if (release_authorization == ReleaseAuthorization::ArbiterOnly
            || release_authorization == ReleaseAuthorization::ClientAndArbiter)
            && arbiter is None {
            Some(Error::MissingArbiter)
        } else if (match arbiter {
            Some(a) => a == client || a == freelancer,
            None => false,
        }) {
            Some(Error::InvalidArbiter)
        } else if amounts.len() == 0 {
            Some(Error::EmptyMilestones)
        } else if amounts.len() > MAX_MILESTONES {
            Some(Error::TooManyMilestones)
        } else if amounts_error(amounts) is Some {
            Some(Error::InvalidMilestoneAmount)
        } else if sum_amounts(amounts) > self.max_total_escrow() {
            Some(Error::TotalCapExceeded)
        } else if self.next_contract_id <= self.contracts@.len() {
            Some(Error::ContractIdCollision)
        } else if self.next_contract_id == u32::MAX {
            Some(Error::ContractIdOverflow)
        } else {
            None
        }
    }

    /// Creates a contract between `client` and `freelancer` with one
    /// milestone per amount and returns its id.
    pub fn create_contract(
        &mut self,
        client: AccountId,
        freelancer: AccountId,
        arbiter: Option<AccountId>,
        milestones: Vec<i128>,
        release_authorization: ReleaseAuthorization,
    ) -> (r: Result<u32, Error>)
        requires
            old(self).wf(),
        ensures
            final(self).wf(),
            match r {
                Err(e) => old(self).create_error(
                    client,
                    freelancer,
                    arbiter,
                    milestones@,
                    release_authorization,
                ) == Some(e) && *final(self) == *old(self),
                Ok(id) => {
                    &&& old(self).create_error(
                        client,
                        freelancer,
                        arbiter,
                        milestones@,
                        release_authorization,
                    ) is None
                    &&& id == old(self).next_contract_id
                    &&& id == old(self).contracts@.len() + 1
                    &&& final(self).contracts@ == old(self).contracts@.push(
                        new_contract(client, freelancer, arbiter, release_authorization),
                    )
                    &&& final(self).milestones@.len() == id
                    &&& final(self).milestones@.drop_last() == old(self).milestones@
                    &&& final(self).milestones_at(id) == milestones@.map_values(
                        |a: i128| fresh_milestone(a),
                    )
                    &&& final(self).approvals@.len() == id
                    &&& final(self).approvals@.drop_last() == old(self).approvals@
                    &&& final(self).approvals_at(id) == Seq::new(
                        milestones@.len(),
                        |j: int| None::<MilestoneApprovals>,
                    )
                    &&& final(self).finalizations@ == old(self).finalizations@.push(None)
                    &&& buckets(final(self).status_index@) == buckets(
                        old(self).status_index@,
                    ).update(0, buckets(old(self).status_index@)[0].push(id))
                    &&& final(self).reputation_credits@ == old(self).reputation_credits@
                    &&& final(self).next_contract_id == id + 1
                    &&& final(self).migrations@ == old(self).migrations@.push(None)
                    &&& final(self).evidence@.len() == id
                    &&& final(self).evidence@.drop_last() == old(self).evidence@
                    &&& final(self).evidence@[id - 1]@ == Seq::new(
                        milestones@.len(),
                        |j: int| None::<String>,
                    )
                    &&& final(self).reputation_comments@ == old(self).reputation_comments@.push(None)
                    &&& final(self).participants@ == old(self).participants@.push((client, freelancer))
                    &&& final(self).config_unchanged(
                        Escrow {
                            next_contract_id: (id + 1) as u32,
                            migrations: final(self).migrations,
                            evidence: final(self).evidence,
                            reputation_comments: final(self).reputation_comments,
                            participants: final(self).participants,
                            ..*old(self)
                        },
                    )
                },
            },
    {
        let ghost amounts = milestones@;
        let r = self.create_contract_with_deadlines(
            client,
            freelancer,
            arbiter,
            milestones,
            release_authorization,
            None,
        );
        proof {
            assert(fresh_milestones(amounts, None) =~= amounts.map_values(|a: i128| fresh_milestone(a)));
        }
        r
    }

    /// Creates a contract between `client` and `freelancer` with one
    /// milestone per amount, each with the deadline (seconds) at the same
    /// position of `deadlines` when given, and returns its id.
    pub fn create_contract_with_deadlines(
        &mut self,
        client: AccountId,
        freelancer: AccountId,
        arbiter: Option<AccountId>,
        milestones: Vec<i128>,
        release_authorization: ReleaseAuthorization,
        deadlines: Option<Vec<u64>>,
    ) -> (r: Result<u32, Error>)
        requires
            old(self).wf(),
        ensures
            final(self).wf(),
            match r {
                Err(e) => old(self).create_error_with_deadlines(
                    client,
                    freelancer,
                    arbiter,
                    milestones@,
                    release_authorization,
                    deadlines_view(deadlines),
                ) == Some(e) && *final(self) == *old(self),
                Ok(id) => {
                    &&& old(self).create_error_with_deadlines(
                        client,
                        freelancer,
                        arbiter,
                        milestones@,
                        release_authorization,
                        deadlines_view(deadlines),
                    ) is None
                    &&& id == old(self).next_contract_id
                    &&& id == old(self).contracts@.len() + 1
                    &&& final(self).contracts@ == old(self).contracts@.push(
                        new_contract(client, freelancer, arbiter, release_authorization),
                    )
                    &&& final(self).milestones@.len() == id
                    &&& final(self).milestones@.drop_last() == old(self).milestones@
                    &&& final(self).milestones_at(id) == fresh_milestones(
                        milestones@,
                        deadlines_view(deadlines),
                    )
                    &&& final(self).approvals@.len() == id
                    &&& final(self).approvals@.drop_last() == old(self).approvals@
                    &&& final(self).approvals_at(id) == Seq::new(
                        milestones@.len(),
                        |j: int| None::<MilestoneApprovals>,
                    )
                    &&& final(self).finalizations@ == old(self).finalizations@.push(None)
                    &&& buckets(final(self).status_index@) == buckets(
                        old(self).status_index@,
                    ).update(0, buckets(old(self).status_index@)[0].push(id))
                    &&& final(self).reputation_credits@ == old(self).reputation_credits@
                    &&& final(self).next_contract_id == id + 1
                    &&& final(self).migrations@ == old(self).migrations@.push(None)
                    &&& final(self).evidence@.len() == id
                    &&& final(self).evidence@.drop_last() == old(self).evidence@
                    &&& final(self).evidence@[id - 1]@ == Seq::new(
                        milestones@.len(),
                        |j: int| None::<String>,
                    )
                    &&& final(self).reputation_comments@ == old(self).reputation_comments@.push(None)
                    &&& final(self).participants@ == old(self).participants@.push((client, freelancer))
                    &&& final(self).config_unchanged(
                        Escrow {
                            next_contract_id: (id + 1) as u32,
                            migrations: final(self).migrations,
                            evidence: final(self).evidence,
                            reputation_comments: final(self).reputation_comments,
                            participants: final(self).participants,
                            ..*old(self)
                        },
                    )
                },
            },
    {
        self.require_not_paused()?;
        if client == freelancer {
            return Err(Error::InvalidParticipant);
        }
        match release_authorization {
            ReleaseAuthorization::ArbiterOnly | ReleaseAuthorization::ClientAndArbiter => {
                if arbiter.is_none() {
                    return Err(Error::MissingArbiter);
                }
            },
            _ => {},
        }
        match arbiter {
            Some(a) => {
                if a == client || a == freelancer {
                    return Err(Error::InvalidArbiter);
                }
            },
            None => {},
        }
        if milestones.len() == 0 {
            return Err(Error::EmptyMilestones);
        }
        if milestones.len() > MAX_MILESTONES as usize {
            return Err(Error::TooManyMilestones);
        }
        let max_total = match self.governed_parameters {
            Some(g) => g.max_escrow_total_stroops,
            None => i128::MAX,
        };
        let total = match validate_amount_array(milestones.as_slice()) {
            Ok(t) => t,
            Err(_) => return Err(Error::InvalidMilestoneAmount),
        };
        if total > max_total {
            return Err(Error::TotalCapExceeded);
        }
        let id = self.next_contract_id;
        if id as usize <= self.contracts.len() {
            return Err(Error::ContractIdCollision);
        }
        if id == u32::MAX {
            return Err(Error::ContractIdOverflow);
        }
        match &deadlines {
            Some(d) => {
                if d.len() != milestones.len() {
                    return Err(Error::InvalidMilestone);
                }
            },
            None => {},
        }
        let ghost amounts = milestones@;
        let ghost dl = deadlines_view(deadlines);
        proof {
            lemma_amounts_valid(amounts);
        }
        let mut milestone_vec: Vec<Milestone> = Vec::new();
        let mut approval_vec: Vec<Option<MilestoneApprovals>> = Vec::new();
        let mut evidence_vec: Vec<Option<String>> = Vec::new();
        let mut i: usize = 0;
        while i < milestones.len()
            invariant
                amounts == milestones@,
                i <= amounts.len(),
                dl == deadlines_view(deadlines),
                dl matches Some(d) ==> d.len() == amounts.len(),
                milestone_vec@ == fresh_milestones(amounts, dl).take(i as int),
                approval_vec@ == Seq::new(i as nat, |j: int| None::<MilestoneApprovals>),
                evidence_vec@ == Seq::new(i as nat, |j: int| None::<String>),
            decreases amounts.len() - i,
        {
            let amount = milestones[i];
            let deadline = match &deadlines {
                Some(d) => Some(d[i]),
                None => None,
            };
            let m = Milestone {
                amount,
                funded_amount: 0,
                released: false,
                refunded: false,
                refunded_amount: 0,
                deadline,
            };
            milestone_vec.push(m);
            approval_vec.push(None);
            evidence_vec.push(None);
            proof {
                assert(evidence_vec@ =~= Seq::new((i + 1) as nat, |j: int| None::<String>));
                assert(fresh_milestones(amounts, dl).take(i + 1) =~= fresh_milestones(amounts, dl).take(
                    i as int,
                ).push(m));
                assert(approval_vec@ =~= Seq::new((i + 1) as nat, |j: int| None::<MilestoneApprovals>));
            }
            i = i + 1;
        }
        proof {
            assert(fresh_milestones(amounts, dl).take(i as int) =~= fresh_milestones(amounts, dl));
        }
        let contract = Contract {
            client,
            freelancer,
            arbiter,
            status: ContractStatus::Created,
            total_deposited: 0,
            funded_amount: 0,
            released_amount: 0,
            refunded_amount: 0,
            release_authorization,
            reputation_issued: false,
        };
        let ghost old_self = *self;
        self.contracts.push(contract);
        self.milestones.push(milestone_vec);
        self.approvals.push(approval_vec);
        self.finalizations.push(None);
        self.migrations.push(None);
        self.evidence.push(evidence_vec);
        self.reputation_comments.push(None);
        self.participants.push((client, freelancer));
        index_new_contract(&mut self.status_index, id, &contract.status);
        self.next_contract_id = id + 1;
        proof {
            let ms = fresh_milestones(amounts, dl);
            assert(self.milestones_at(id) == ms);
            assert forall|j: int| 0 <= j < ms.len() implies 0 < #[trigger] ms[j].amount
                <= crate::amount::MAX_SINGLE_AMOUNT_STROOPS && !(ms[j].released
                && ms[j].refunded) by {
                assert(single_amount_error(amounts[j] as int) is None);
            }
            lemma_ms_total_bounds(ms);
            assert(record_wf(contract, ms, self.approvals_at(id)));
            assert(self.milestones@.drop_last() =~= old_self.milestones@);
            assert(self.approvals@.drop_last() =~= old_self.approvals@);
            assert(self.evidence@.drop_last() =~= old_self.evidence@);
            assert forall|k: int| 0 <= k < self.evidence@.len() implies (#[trigger] self.evidence@[k])@.len()
                == self.milestones@[k]@.len() by {
                if k < old_self.evidence@.len() {
                    assert(self.evidence@[k] == old_self.evidence@[k]);
                    assert(self.milestones@[k] == old_self.milestones@[k]);
                }
            }
            assert forall|k: int| 0 <= k < self.contracts@.len() implies record_wf(
                #[trigger] self.contracts@[k],
                self.milestones@[k]@,
                self.approvals@[k]@,
            ) by {
                if k < old_self.contracts@.len() {
                    assert(self.contracts@[k] == old_self.contracts@[k]);
                    assert(self.milestones@[k] == old_self.milestones@[k]);
                    assert(self.approvals@[k] == old_self.approvals@[k]);
                    assert(record_wf(
                        old_self.contracts@[k],
                        old_self.milestones@[k]@,
                        old_self.approvals@[k]@,
                    ));
                }
            }
            assert(self.statuses() =~= old_self.statuses().push(ContractStatus::Created));
            lemma_index_push(buckets(old_self.status_index@), old_self.statuses(), ContractStatus::Created);
            assert forall|f: AccountId| #[trigger] self.credits_of(f) == unrated_count(
                self.contracts@,
                f,
            ) by {
                assert(old_self.credits_of(f) == unrated_count(old_self.contracts@, f));
                lemma_unrated_count_push(old_self.contracts@, contract, f);
            }
            assert forall|f: AccountId| crate::escrow::reputation_matches(
                #[trigger] self.reputation_of(f),
                crate::escrow::rated_count(self.contracts@, f),
            ) by {
                assert(crate::escrow::reputation_matches(
                    old_self.reputation_of(f),
                    crate::escrow::rated_count(old_self.contracts@, f),
                ));
                crate::escrow::lemma_rated_count_push(old_self.contracts@, contract, f);
            }
        }
        Ok(id)
    }
}

} // verus!
