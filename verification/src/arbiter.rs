//! Arbiter assignment: the client or freelancer of an open contract sets its
//! arbiter after creation, or replaces it before any dispute.

use vstd::prelude::*;

use crate::escrow::{
    lemma_rated_count_update, lemma_unrated_count_update, rated_count, record_wf,
    reputation_matches, unrated_count, Escrow,
};
use crate::types::{AccountId, Contract, ContractStatus, Error};

verus! {

/// Whether a contract in `status` still accepts arbiter changes.
pub open spec fn arbiter_changeable(status: ContractStatus) -> bool {
    status == ContractStatus::Created || status == ContractStatus::PartiallyFunded || status
        == ContractStatus::Funded
}

impl Escrow {
    /// The error, if any, of `caller` setting `arbiter` on contract
    /// `contract_id`; `replacing` tells a reassignment from a first assignment.
    pub open spec fn arbiter_change_error(
        self,
        contract_id: u32,
        caller: AccountId,
        arbiter: AccountId,
        replacing: bool,
    ) -> Option<Error> {
        if !self.initialized {
            Some(Error::NotInitialized)
        } else if self.pause_error() is Some {
            self.pause_error()
        } else if !self.has_contract(contract_id) {
            Some(Error::ContractNotFound)
        } else if self.is_finalized_at(contract_id) {
            Some(Error::AlreadyFinalized)
        } else {
            let c = self.contract_at(contract_id);
            if caller != c.client && caller != c.freelancer {
                Some(Error::UnauthorizedRole)
            } else if replacing && c.arbiter is None {
                Some(Error::InvalidState)
            } else if !replacing && c.arbiter is Some {
                Some(Error::InvalidState)
            } else if arbiter == c.client || arbiter == c.freelancer {
                Some(Error::InvalidArbiter)
            } else if !arbiter_changeable(c.status) {
                Some(Error::InvalidState)
            } else {
                None
            }
        }
    }

    /// Sets the arbiter of contract `contract_id` to `arbiter` after the checks
    /// of `arbiter_change_error`.
    fn change_arbiter(&mut self, contract_id: u32, caller: AccountId, arbiter: AccountId, replacing: bool) -> (r: Result<(), Error>)
        requires
            old(self).wf(),
        ensures
            final(self).wf(),
            match r {
                Err(e) => old(self).arbiter_change_error(contract_id, caller, arbiter, replacing) == Some(e)
                    && *final(self) == *old(self),
                Ok(()) => {
                    &&& old(self).arbiter_change_error(contract_id, caller, arbiter, replacing) is None
                    &&& final(self).contracts@ == old(self).contracts@.update(
                        contract_id - 1,
                        Contract { arbiter: Some(arbiter), ..old(self).contract_at(contract_id) },
                    )
                    &&& *final(self) == (Escrow { contracts: final(self).contracts, ..*old(self) })
                },
            },
    {
        self.require_initialized()?;
        self.require_not_paused()?;
        if contract_id == 0 || contract_id as usize > self.contracts.len() {
            return Err(Error::ContractNotFound);
        }
        let idx = (contract_id - 1) as usize;
        if self.finalizations[idx].is_some() {
            return Err(Error::AlreadyFinalized);
        }
        let c = self.contracts[idx];
        if caller != c.client && caller != c.freelancer {
            return Err(Error::UnauthorizedRole);
        }
        if replacing && c.arbiter.is_none() {
            return Err(Error::InvalidState);
        }
        if !replacing && c.arbiter.is_some() {
            return Err(Error::InvalidState);
        }
        if arbiter == c.client || arbiter == c.freelancer {
            return Err(Error::InvalidArbiter);
        }
        match c.status {
            ContractStatus::Created | ContractStatus::PartiallyFunded | ContractStatus::Funded => {},
            _ => return Err(Error::InvalidState),
        }
        proof {
            assert(record_wf(self.contracts@[idx as int], self.milestones@[idx as int]@, self.approvals@[idx as int]@));
        }
        let ghost old_self = *self;
        let c2 = Contract { arbiter: Some(arbiter), ..c };
        self.contracts.set(idx, c2);
        proof {
            assert(self.statuses() =~= old_self.statuses());
            assert forall|k: int| 0 <= k < self.contracts@.len() implies record_wf(
                #[trigger] self.contracts@[k],
                self.milestones@[k]@,
                self.approvals@[k]@,
            ) by {
                assert(record_wf(
                    old_self.contracts@[k],
                    old_self.milestones@[k]@,
                    old_self.approvals@[k]@,
                ));
            }
            assert forall|f: AccountId| #[trigger] self.credits_of(f) == unrated_count(self.contracts@, f) by {
                assert(old_self.credits_of(f) == unrated_count(old_self.contracts@, f));
                lemma_unrated_count_update(old_self.contracts@, idx as int, c2, f);
            }
            assert forall|f: AccountId| reputation_matches(
                #[trigger] self.reputation_of(f),
                rated_count(self.contracts@, f),
            ) by {
                assert(reputation_matches(old_self.reputation_of(f), rated_count(old_self.contracts@, f)));
                lemma_rated_count_update(old_self.contracts@, idx as int, c2, f);
            }
        }
        Ok(())
    }

    /// The client or freelancer gives an open contract without an arbiter
    /// the arbiter `arbiter`, who must be neither of them.
    pub fn assign_arbiter(&mut self, contract_id: u32, caller: AccountId, arbiter: AccountId) -> (r: Result<(), Error>)
        requires
            old(self).wf(),
        ensures
            final(self).wf(),
            match r {
                Err(e) => old(self).arbiter_change_error(contract_id, caller, arbiter, false) == Some(e)
                    && *final(self) == *old(self),
                Ok(()) => {
                    &&& old(self).arbiter_change_error(contract_id, caller, arbiter, false) is None
                    &&& final(self).contracts@ == old(self).contracts@.update(
                        contract_id - 1,
                        Contract { arbiter: Some(arbiter), ..old(self).contract_at(contract_id) },
                    )
                    &&& *final(self) == (Escrow { contracts: final(self).contracts, ..*old(self) })
                },
            },
    {
        self.change_arbiter(contract_id, caller, arbiter, false)
    }

    /// The client or freelancer replaces the arbiter of an open contract
    /// before any dispute; naming the current arbiter changes nothing.
    pub fn reassign_arbiter(&mut self, contract_id: u32, caller: AccountId, new_arbiter: AccountId) -> (r: Result<(), Error>)
        requires
            old(self).wf(),
        ensures
            final(self).wf(),
            match r {
                Err(e) => old(self).arbiter_change_error(contract_id, caller, new_arbiter, true) == Some(e)
                    && *final(self) == *old(self),
                Ok(()) => {
                    &&& old(self).arbiter_change_error(contract_id, caller, new_arbiter, true) is None
                    &&& final(self).contracts@ == old(self).contracts@.update(
                        contract_id - 1,
                        Contract { arbiter: Some(new_arbiter), ..old(self).contract_at(contract_id) },
                    )
                    &&& *final(self) == (Escrow { contracts: final(self).contracts, ..*old(self) })
                },
            },
    {
        self.change_arbiter(contract_id, caller, new_arbiter, true)
    }
}

} // verus!
