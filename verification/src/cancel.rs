//! Cancellation of a contract before any milestone is released, and the
//! protocol-state view.

use vstd::prelude::*;

use crate::escrow::{record_wf, Escrow};
use crate::finalize::is_participant;
use crate::status_index::{buckets, moved, spec_status_code};
use crate::types::{AccountId, Contract, ContractStatus, Error, ReadinessChecklist};

verus! {

/// Contract `c` cancelled, its refundable balance returned to the client.
pub open spec fn cancelled(c: Contract) -> Contract {
    Contract {
        status: ContractStatus::Cancelled,
        refunded_amount: (c.funded_amount - c.released_amount) as i128,
        ..c
    }
}

/// Read-only snapshot of the protocol-wide configuration.
#[derive(Clone, Copy, Debug, PartialEq, Eq, Structural)]
pub struct ProtocolState {
    pub initialized: bool,
    pub admin: Option<AccountId>,
    pub paused: bool,
    pub emergency: bool,
    pub settlement_token: Option<AccountId>,
    pub next_contract_id: u32,
    pub protocol_fee_bps: u32,
    pub accumulated_protocol_fees: i128,
    pub max_escrow_total_stroops: Option<i128>,
    pub readiness: ReadinessChecklist,
}

impl Escrow {
    /// The error, if any, with which `cancel_contract` rejects.
    pub open spec fn cancel_error(self, contract_id: u32, caller: AccountId) -> Option<Error> {
        if !self.initialized {
            Some(Error::NotInitialized)
        } else if self.pause_error() is Some {
            self.pause_error()
        } else if !self.has_contract(contract_id) {
            Some(Error::ContractNotFound)
        } else if self.is_finalized_at(contract_id) {
            Some(Error::AlreadyFinalized)
        } else {
            let c = self.contract_at(contract_id);
            if !is_participant(c, caller) {
                Some(Error::PartyNotAuthorized)
            } else if c.status == ContractStatus::Cancelled {
                Some(Error::AlreadyCancelled)
            } else if c.status != ContractStatus::Created && c.status != ContractStatus::Funded {
                Some(Error::InvalidState)
            } else if c.released_amount != 0 {
                Some(Error::InvalidState)
            } else {
                None
            }
        }
    }

    /// A participant cancels a `Created` or `Funded` contract from which
    /// nothing has been released. Returns the refund, the whole refundable
    /// balance, which the host transfers to the client.
    pub fn cancel_contract(&mut self, contract_id: u32, caller: AccountId) -> (r: Result<i128, Error>)
        requires
            old(self).wf(),
        ensures
            final(self).wf(),
            match r {
                Err(e) => old(self).cancel_error(contract_id, caller) == Some(e) && *final(self)
                    == *old(self),
                Ok(refund) => {
                    let c = old(self).contract_at(contract_id);
                    &&& old(self).cancel_error(contract_id, caller) is None
                    &&& refund == c.funded_amount - c.released_amount - c.refunded_amount
                    &&& final(self).contracts@ == old(self).contracts@.update(
                        contract_id - 1,
                        cancelled(c),
                    )
                    &&& buckets(final(self).status_index@) == moved(
                        buckets(old(self).status_index@),
                        contract_id,
                        spec_status_code(c.status),
                        spec_status_code(ContractStatus::Cancelled),
                    )
                    &&& final(self).milestones@ == old(self).milestones@
                    &&& final(self).approvals@ == old(self).approvals@
                    &&& final(self).finalizations@ == old(self).finalizations@
                    &&& final(self).reputation_credits@ == old(self).reputation_credits@
                    &&& final(self).config_unchanged(*old(self))
                },
            },
    {
        self.require_initialized()?;
        self.require_not_paused()?;
        if contract_id == 0 || contract_id as usize > self.contracts.len() {
            return Err(Error::ContractNotFound);
        }
        let idx = (contract_id - 1) as usize;
        if self.finalizations[idx].is_some() {
            return Err(Error::AlreadyFinalized);
        }
        let c = self.contracts[idx];
        if Self::require_finalizer_role(&c, caller).is_err() {
            return Err(Error::PartyNotAuthorized);
        }
        if c.status == ContractStatus::Cancelled {
            return Err(Error::AlreadyCancelled);
        }
        if c.status != ContractStatus::Created && c.status != ContractStatus::Funded {
            return Err(Error::InvalidState);
        }
        if c.released_amount != 0 {
            return Err(Error::InvalidState);
        }
        proof {
            assert(record_wf(self.contracts@[idx as int], self.milestones@[idx as int]@, self.approvals@[idx as int]@));
        }
        let refund = c.funded_amount - c.released_amount - c.refunded_amount;
        let c2 = Contract {
            status: ContractStatus::Cancelled,
            refunded_amount: c.funded_amount - c.released_amount,
            ..c
        };
        let ghost old_self = *self;
        self.store_contract(contract_id, c2);
        proof {
            assert forall|k: int| 0 <= k < self.contracts@.len() implies record_wf(
                #[trigger] self.contracts@[k],
                self.milestones@[k]@,
                self.approvals@[k]@,
            ) by {
                assert(record_wf(
                    old_self.contracts@[k],
                    old_self.milestones@[k]@,
                    old_self.approvals@[k]@,
                ));
            }
        }
        Ok(refund)
    }

    /// Snapshot of the protocol-wide configuration.
    pub fn get_protocol_state(&self) -> (s: ProtocolState)
        ensures
            s == (ProtocolState {
                initialized: self.initialized,
                admin: self.admin,
                paused: self.paused,
                emergency: self.emergency,
                settlement_token: self.settlement_token,
                next_contract_id: self.next_contract_id,
                protocol_fee_bps: self.protocol_fee_bps,
                accumulated_protocol_fees: self.accumulated_protocol_fees,
                max_escrow_total_stroops: match self.governed_parameters {
                    Some(g) => Some(g.max_escrow_total_stroops),
                    None => None,
                },
                readiness: self.readiness,
            }),
    {
        ProtocolState {
            initialized: self.initialized,
            admin: self.admin,
            paused: self.paused,
            emergency: self.emergency,
            settlement_token: self.settlement_token,
            next_contract_id: self.next_contract_id,
            protocol_fee_bps: self.protocol_fee_bps,
            accumulated_protocol_fees: self.accumulated_protocol_fees,
            max_escrow_total_stroops: match self.governed_parameters {
                Some(g) => Some(g.max_escrow_total_stroops),
                None => None,
            },
            readiness: self.readiness,
        }
    }
}

} // verus!
