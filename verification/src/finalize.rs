//! Finalization: immutable close records, finalization guards and contract
//! summaries.

use vstd::prelude::*;

use crate::escrow::{unrated_count, lemma_ms_total_bounds, ms_total, record_wf, Escrow, FinalizationRecord};
use crate::types::{
    AccountId, Contract, ContractStatus, ContractSummary, Error, Milestone, MilestoneSummary,
    StorageKey, CONTRACT_SUMMARY_SCHEMA_VERSION,
};

verus! {

/// Number of released milestones.
pub open spec fn released_count(ms: Seq<Milestone>) -> int
    decreases ms.len(),
{
    if ms.len() == 0 {
        0
    } else {
        released_count(ms.drop_last()) + if ms.last().released {
            1int
        } else {
            0int
        }
    }
}

/// The summary entry of milestone `m` at position `j`.
pub open spec fn milestone_summary(j: int, m: Milestone) -> MilestoneSummary {
    MilestoneSummary { index: j as u32, amount: m.amount, released: m.released, refunded: m.refunded }
}

/// `s` is the summary of contract `c` with milestones `ms`.
pub open spec fn is_summary_of(s: ContractSummary, c: Contract, ms: Seq<Milestone>) -> bool {
    &&& s.schema_version == CONTRACT_SUMMARY_SCHEMA_VERSION
    &&& s.client == c.client
    &&& s.freelancer == c.freelancer
    &&& s.arbiter == c.arbiter
    &&& s.status == c.status
    &&& s.reputation_issued == c.reputation_issued
    &&& s.total_amount == ms_total(ms)
    &&& s.funded_amount == c.funded_amount
    &&& s.released_amount == c.released_amount
    &&& s.refundable_balance == c.funded_amount - c.released_amount - c.refunded_amount
    &&& s.released_milestone_count == released_count(ms)
    &&& s.milestones@ == ms.map(|j: int, m: Milestone| milestone_summary(j, m))
}

/// Whether `who` is the client, the freelancer or the assigned arbiter.
pub open spec fn is_participant(c: Contract, who: AccountId) -> bool {
    who == c.client || who == c.freelancer || c.arbiter == Some(who)
}

impl Escrow {
    /// Storage name of contract `contract_id`'s close record.
    pub fn finalization_key(contract_id: u32) -> (k: StorageKey)
        ensures
            k == StorageKey::Finalization(contract_id),
    {
        StorageKey::finalization(contract_id)
    }

    /// Whether contract `contract_id` exists and has been finalized.
    pub fn is_finalized(&self, contract_id: u32) -> (b: bool)
        requires
            self.wf(),
        ensures
            b == (self.has_contract(contract_id) && self.is_finalized_at(contract_id)),
    {
        contract_id >= 1 && contract_id as usize <= self.contracts.len()
            && self.finalizations[(contract_id - 1) as usize].is_some()
    }

    /// Fails with `AlreadyFinalized` once contract `contract_id` is finalized.
    pub fn require_not_finalized(&self, contract_id: u32) -> (r: Result<(), Error>)
        requires
            self.wf(),
        ensures
            r == if self.has_contract(contract_id) && self.is_finalized_at(contract_id) {
                Err::<(), Error>(Error::AlreadyFinalized)
            } else {
                Ok(())
            },
    {
        if self.is_finalized(contract_id) {
            return Err(Error::AlreadyFinalized);
        }
        Ok(())
    }

    /// The contract, for finalization.
    pub fn load_contract_for_finalization(&self, contract_id: u32) -> (r: Result<Contract, Error>)
        requires
            self.wf(),
        ensures
            r == if self.has_contract(contract_id) {
                Ok::<Contract, Error>(self.contract_at(contract_id))
            } else {
                Err(Error::ContractNotFound)
            },
    {
        self.get_contract(contract_id)
    }

    /// Loads a contract that exists and is not finalized.
    pub fn load_and_check_contract(&self, contract_id: u32) -> (r: Result<Contract, Error>)
        requires
            self.wf(),
        ensures
            r == if !self.has_contract(contract_id) {
                Err::<Contract, Error>(Error::ContractNotFound)
            } else if self.is_finalized_at(contract_id) {
                Err(Error::AlreadyFinalized)
            } else {
                Ok(self.contract_at(contract_id))
            },
    {
        let c = self.get_contract(contract_id)?;
        self.require_not_finalized(contract_id)?;
        Ok(c)
    }

    /// Loads a contract for mutation: not paused, existing, not finalized.
    pub fn require_contract_mutable(&self, contract_id: u32) -> (r: Result<Contract, Error>)
        requires
            self.wf(),
        ensures
            r == if self.pause_error() is Some {
                Err::<Contract, Error>(self.pause_error().unwrap())
            } else if !self.has_contract(contract_id) {
                Err(Error::ContractNotFound)
            } else if self.is_finalized_at(contract_id) {
                Err(Error::AlreadyFinalized)
            } else {
                Ok(self.contract_at(contract_id))
            },
    {
        self.require_not_paused()?;
        let c = self.load_contract_for_finalization(contract_id)?;
        self.require_not_finalized(contract_id)?;
        Ok(c)
    }

    /// Fails with `UnauthorizedRole` unless `finalizer` is a participant.
    pub fn require_finalizer_role(contract: &Contract, finalizer: AccountId) -> (r: Result<(), Error>)
        ensures
            r == if is_participant(*contract, finalizer) {
                Ok::<(), Error>(())
            } else {
                Err(Error::UnauthorizedRole)
            },
    {
        let is_arbiter = match contract.arbiter {
            Some(a) => a == finalizer,
            None => false,
        };
        if finalizer == contract.client || finalizer == contract.freelancer || is_arbiter {
            Ok(())
        } else {
            Err(Error::UnauthorizedRole)
        }
    }

    /// Snapshot of contract `contract_id`'s participants, milestones and accounting.
    pub fn summarize_contract(&self, contract_id: u32) -> (s: ContractSummary)
        requires
            self.wf(),
            self.has_contract(contract_id),
        ensures
            is_summary_of(s, self.contract_at(contract_id), self.milestones_at(contract_id)),
    {
        let idx = (contract_id - 1) as usize;
        let c = self.contracts[idx];
        let ms = &self.milestones[idx];
        proof {
            assert(record_wf(self.contracts@[idx as int], self.milestones@[idx as int]@, self.approvals@[idx as int]@));
        }
        let mut total_amount: i128 = 0;
        let mut released_milestone_count: u32 = 0;
        let mut summaries: Vec<MilestoneSummary> = Vec::new();
        let mut i: usize = 0;
        while i < ms.len()
            invariant
                i <= ms@.len() <= crate::constants::MAX_MILESTONES,
                forall|j: int| 0 <= j < ms@.len() ==> 0 < #[trigger] ms@[j].amount <= crate::amount::MAX_SINGLE_AMOUNT_STROOPS,
                total_amount == ms_total(ms@.take(i as int)),
                0 <= total_amount <= i * crate::amount::MAX_SINGLE_AMOUNT_STROOPS,
                released_milestone_count == released_count(ms@.take(i as int)),
                released_milestone_count <= i,
                summaries@ == ms@.take(i as int).map(|j: int, m: Milestone| milestone_summary(j, m)),
            decreases ms@.len() - i,
        {
            let m = ms[i];
            proof {
                assert(ms@.take(i + 1).drop_last() =~= ms@.take(i as int));
            }
            total_amount = total_amount + m.amount;
            if m.released {
                released_milestone_count = released_milestone_count + 1;
            }
            summaries.push(MilestoneSummary { index: i as u32, amount: m.amount, released: m.released, refunded: m.refunded });
            proof {
                assert(summaries@ =~= ms@.take(i + 1).map(|j: int, m: Milestone| milestone_summary(j, m)));
            }
            i = i + 1;
        }
        proof {
            assert(ms@.take(i as int) =~= ms@);
        }
        ContractSummary {
            schema_version: CONTRACT_SUMMARY_SCHEMA_VERSION,
            client: c.client,
            freelancer: c.freelancer,
            arbiter: c.arbiter,
            status: c.status,
            reputation_issued: c.reputation_issued,
            total_amount,
            funded_amount: c.funded_amount,
            released_amount: c.released_amount,
            refundable_balance: c.funded_amount - c.released_amount - c.refunded_amount,
            released_milestone_count,
            milestones: summaries,
        }
    }

    /// The error, if any, with which `finalize_contract` rejects.
    pub open spec fn finalize_error(self, contract_id: u32, finalizer: AccountId) -> Option<Error> {
        if self.pause_error() is Some {
            self.pause_error()
        } else if !self.has_contract(contract_id) {
            Some(Error::ContractNotFound)
        } else if self.is_finalized_at(contract_id) {
            Some(Error::AlreadyFinalized)
        } else if !is_participant(self.contract_at(contract_id), finalizer) {
            Some(Error::UnauthorizedRole)
        } else if self.contract_at(contract_id).status != ContractStatus::Completed
            && self.contract_at(contract_id).status != ContractStatus::Disputed {
            Some(Error::InvalidStatusTransition)
        } else {
            None
        }
    }

    /// A participant closes a `Completed` or `Disputed` contract at ledger
    /// time `now`, writing its immutable close record.
    pub fn finalize_contract(&mut self, contract_id: u32, finalizer: AccountId, now: u64) -> (r: Result<(), Error>)
        requires
            old(self).wf(),
        ensures
            final(self).wf(),
            match r {
                Err(e) => old(self).finalize_error(contract_id, finalizer) == Some(e) && *final(self)
                    == *old(self),
                Ok(()) => {
                    &&& old(self).finalize_error(contract_id, finalizer) is None
                    &&& final(self).finalizations@.len() == old(self).finalizations@.len()
                    &&& final(self).finalizations@[contract_id - 1] matches Some(rec) && rec.finalizer
                        == finalizer && rec.timestamp == now && is_summary_of(
                        rec.summary,
                        old(self).contract_at(contract_id),
                        old(self).milestones_at(contract_id),
                    )
                    &&& forall|k: int|
                        0 <= k < old(self).finalizations@.len() && k != contract_id - 1
                            ==> #[trigger] final(self).finalizations@[k] == old(self).finalizations@[k]
                    &&& final(self).contracts@ == old(self).contracts@
                    &&& final(self).milestones@ == old(self).milestones@
                    &&& final(self).approvals@ == old(self).approvals@
                    &&& final(self).status_index@ == old(self).status_index@
                    &&& final(self).reputation_credits@ == old(self).reputation_credits@
                    &&& final(self).config_unchanged(*old(self))
                },
            },
    {
        self.require_not_paused()?;
        let c = self.load_contract_for_finalization(contract_id)?;
        self.require_not_finalized(contract_id)?;
        Self::require_finalizer_role(&c, finalizer)?;
        if c.status != ContractStatus::Completed && c.status != ContractStatus::Disputed {
            return Err(Error::InvalidStatusTransition);
        }
        let summary = self.summarize_contract(contract_id);
        let record = FinalizationRecord { finalizer, timestamp: now, summary };
        let ghost old_self = *self;
        self.finalizations.set((contract_id - 1) as usize, Some(record));
        proof {
            assert(self.statuses() =~= old_self.statuses());
            assert forall|f: AccountId| #[trigger] self.credits_of(f) == unrated_count(self.contracts@, f) by {
                assert(old_self.credits_of(f) == unrated_count(old_self.contracts@, f));
            }
            crate::escrow::lemma_wf_reputation_same(old_self, *self);
            assert forall|k: int| 0 <= k < self.contracts@.len() implies record_wf(
                #[trigger] self.contracts@[k],
                self.milestones@[k]@,
                self.approvals@[k]@,
            ) by {
                assert(record_wf(
                    old_self.contracts@[k],
                    old_self.milestones@[k]@,
                    old_self.approvals@[k]@,
                ));
            }
        }
        Ok(())
    }

    /// The error, if any, with which `rollback_contract` rejects.
    pub open spec fn rollback_error(self, admin: AccountId, contract_id: u32) -> Option<Error> {
        if !self.initialized || self.admin is None {
            Some(Error::NotInitialized)
        } else if admin != self.admin.unwrap() {
            Some(Error::UnauthorizedRole)
        } else if !self.has_contract(contract_id) {
            Some(Error::ContractNotFound)
        } else if !self.is_finalized_at(contract_id) {
            Some(Error::RollbackNotAllowed)
        } else {
            None
        }
    }

    /// The admin reopens a finalized contract by discarding its close record;
    /// the contract itself is left as it was.
    pub fn rollback_contract(&mut self, admin: AccountId, contract_id: u32) -> (r: Result<(), Error>)
        requires
            old(self).wf(),
        ensures
            final(self).wf(),
            match r {
                Err(e) => old(self).rollback_error(admin, contract_id) == Some(e) && *final(self)
                    == *old(self),
                Ok(()) => {
                    &&& old(self).rollback_error(admin, contract_id) is None
                    &&& final(self).finalizations@ == old(self).finalizations@.update(
                        contract_id - 1,
                        None,
                    )
                    &&& *final(self) == (Escrow { finalizations: final(self).finalizations, ..*old(self) })
                },
            },
    {
        self.require_initialized()?;
        let stored_admin = match self.admin {
            Some(a) => a,
            None => return Err(Error::NotInitialized),
        };
        if admin != stored_admin {
            return Err(Error::UnauthorizedRole);
        }
        if contract_id == 0 || contract_id as usize > self.contracts.len() {
            return Err(Error::ContractNotFound);
        }
        let idx = (contract_id - 1) as usize;
        if self.finalizations[idx].is_none() {
            return Err(Error::RollbackNotAllowed);
        }
        let ghost old_self = *self;
        self.finalizations.set(idx, None);
        proof {
            crate::escrow::lemma_wf_config_change(old_self, *self);
        }
        Ok(())
    }

    /// The close record of contract `contract_id`, if it has been finalized.
    pub fn get_finalization_record(&self, contract_id: u32) -> (r: Option<&FinalizationRecord>)
        requires
            self.wf(),
        ensures
            match r {
                Some(rec) => self.has_contract(contract_id) && self.finalizations@[contract_id - 1]
                    == Some(*rec),
                None => !self.has_contract(contract_id) || !self.is_finalized_at(contract_id),
            },
    {
        if contract_id == 0 || contract_id as usize > self.contracts.len() {
            return None;
        }
        match &self.finalizations[(contract_id - 1) as usize] {
            Some(rec) => Some(rec),
            None => None,
        }
    }
}

} // verus!
