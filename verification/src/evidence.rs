//! Work evidence: the freelancer attaches a reference (an IPFS CID or a URL
//! hash) to an unsettled milestone of a funded contract.

use vstd::prelude::*;

use crate::constants::MAX_EVIDENCE_BYTES;
use crate::escrow::{lemma_wf_config_change, record_wf, Escrow};
use crate::types::{AccountId, ContractStatus, Error};

verus! {

impl Escrow {
    /// The error, if any, with which `submit_work_evidence` rejects.
    pub open spec fn evidence_error(self, contract_id: u32, caller: AccountId, milestone_index: u32, evidence_len: int) -> Option<Error> {
        if !self.initialized {
            Some(Error::NotInitialized)
        } else if self.pause_error() is Some {
            self.pause_error()
        } else if !self.has_contract(contract_id) {
            Some(Error::ContractNotFound)
        } else if self.is_finalized_at(contract_id) {
            Some(Error::AlreadyFinalized)
        } else {
            let c = self.contract_at(contract_id);
            let ms = self.milestones_at(contract_id);
            if caller != c.freelancer {
                Some(Error::UnauthorizedRole)
            } else if c.status != ContractStatus::Funded {
                Some(Error::InvalidState)
            } else if milestone_index >= ms.len() {
                Some(Error::IndexOutOfBounds)
            } else if ms[milestone_index as int].released {
                Some(Error::MilestoneAlreadyReleased)
            } else if ms[milestone_index as int].refunded {
                Some(Error::AlreadyRefunded)
            } else if evidence_len > MAX_EVIDENCE_BYTES {
                Some(Error::EvidenceTooLong)
            } else {
                None
            }
        }
    }

    /// The freelancer records `evidence` (at most 256 bytes) for milestone
    /// `milestone_index`, replacing any earlier submission.
    pub fn submit_work_evidence(&mut self, contract_id: u32, caller: AccountId, milestone_index: u32, evidence: &str) -> (r: Result<(), Error>)
        requires
            old(self).wf(),
        ensures
            final(self).wf(),
            match r {
                Err(e) => old(self).evidence_error(contract_id, caller, milestone_index, evidence.len() as int)
                    == Some(e) && *final(self) == *old(self),
                Ok(()) => {
                    &&& old(self).evidence_error(
                        contract_id,
                        caller,
                        milestone_index,
                        evidence.len() as int,
                    ) is None
                    &&& final(self).evidence@.len() == old(self).evidence@.len()
                    &&& final(self).evidence@[contract_id - 1]@.len() == old(
                        self,
                    ).evidence@[contract_id - 1]@.len()
                    &&& final(self).evidence@[contract_id - 1]@[milestone_index as int] matches Some(s)
                        && s@ == evidence@
                    &&& forall|j: int|
                        0 <= j < old(self).evidence@[contract_id - 1]@.len() && j != milestone_index
                            ==> #[trigger] final(self).evidence@[contract_id - 1]@[j] == old(
                            self,
                        ).evidence@[contract_id - 1]@[j]
                    &&& forall|k: int|
                        0 <= k < old(self).evidence@.len() && k != contract_id - 1
                            ==> #[trigger] final(self).evidence@[k] == old(self).evidence@[k]
                    &&& *final(self) == (Escrow { evidence: final(self).evidence, ..*old(self) })
                },
            },
    {
        self.require_initialized()?;
        self.require_not_paused()?;
        if contract_id == 0 || contract_id as usize > self.contracts.len() {
            return Err(Error::ContractNotFound);
        }
        let idx = (contract_id - 1) as usize;
        if self.finalizations[idx].is_some() {
            return Err(Error::AlreadyFinalized);
        }
        let c = self.contracts[idx];
        if caller != c.freelancer {
            return Err(Error::UnauthorizedRole);
        }
        if c.status != ContractStatus::Funded {
            return Err(Error::InvalidState);
        }
        proof {
            assert(record_wf(self.contracts@[idx as int], self.milestones@[idx as int]@, self.approvals@[idx as int]@));
        }
        let j = milestone_index as usize;
        if j >= self.milestones[idx].len() {
            return Err(Error::IndexOutOfBounds);
        }
        let m = self.milestones[idx][j];
        if m.released {
            return Err(Error::MilestoneAlreadyReleased);
        }
        if m.refunded {
            return Err(Error::AlreadyRefunded);
        }
        if evidence.len() > MAX_EVIDENCE_BYTES as usize {
            return Err(Error::EvidenceTooLong);
        }
        let stored = evidence.to_owned();
        let ghost old_self = *self;
        self.evidence[idx].set(j, Some(stored));
        proof {
            assert forall|k: int| 0 <= k < self.evidence@.len() implies (#[trigger] self.evidence@[k])@.len()
                == self.milestones@[k]@.len() by {
                assert(old_self.evidence@[k]@.len() == old_self.milestones@[k]@.len());
            }
            lemma_wf_config_change(old_self, *self);
        }
        Ok(())
    }
}

} // verus!
