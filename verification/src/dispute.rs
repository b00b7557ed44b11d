//! Dispute payout arithmetic, final-status selection, and the dispute
//! entrypoints.

use vstd::prelude::*;

use crate::amount::in_i128;
use crate::constants::{PARTIAL_REFUND_DENOMINATOR, PARTIAL_REFUND_FREELANCER_SHARE};
use crate::escrow::{unrated_count, record_wf, Escrow};
use crate::status_index::{buckets, moved, spec_status_code};
use crate::types::{AccountId, Contract, ContractStatus, DisputeResolution, Error};

verus! {

/// `funded - released - refunded` of a contract.
pub open spec fn available_of(c: Contract) -> int {
    c.funded_amount - c.released_amount - c.refunded_amount
}

/// The `(client_payout, freelancer_payout)` split of the available balance
/// for a resolution, or the error it is rejected with.
pub open spec fn spec_resolution_payouts(c: Contract, resolution: DisputeResolution) -> Result<
    (i128, i128),
    Error,
> {
    let step = c.funded_amount - c.released_amount;
    if !in_i128(step) || !in_i128(step - c.refunded_amount) {
        Err(Error::AccountingInvariantViolated)
    } else {
        let available = available_of(c);
        if available < 0 {
            Err(Error::AccountingInvariantViolated)
        } else {
            match resolution {
                DisputeResolution::FullRefund => Ok((available as i128, 0i128)),
                DisputeResolution::PartialRefund => {
                    if available * PARTIAL_REFUND_FREELANCER_SHARE > i128::MAX {
                        Err(Error::PotentialOverflow)
                    } else {
                        let freelancer = available * PARTIAL_REFUND_FREELANCER_SHARE
                            / (PARTIAL_REFUND_DENOMINATOR as int);
                        Ok(((available - freelancer) as i128, freelancer as i128))
                    }
                },
                DisputeResolution::FullPayout => Ok((0i128, available as i128)),
                DisputeResolution::Split(split) => {
                    if split.client_amount < 0 || split.freelancer_amount < 0 {
                        Err(Error::InvalidDisputeSplit)
                    } else if split.client_amount > available || split.freelancer_amount
                        > available {
                        Err(Error::InvalidDisputeSplit)
                    } else if !in_i128(split.client_amount + split.freelancer_amount) {
                        Err(Error::PotentialOverflow)
                    } else if split.client_amount + split.freelancer_amount != available {
                        Err(Error::InvalidDisputeSplit)
                    } else {
                        Ok((split.client_amount, split.freelancer_amount))
                    }
                },
            }
        }
    }
}

/// Splits the available balance `funded - released - refunded` between client
/// and freelancer according to `resolution`. Every accepted split is
/// non-negative on both legs and sums to exactly the available balance.
pub fn resolution_payouts(contract: &Contract, resolution: &DisputeResolution) -> (r: Result<
    (i128, i128),
    Error,
>)
    ensures
        r == spec_resolution_payouts(*contract, *resolution),
        r matches Ok((client, freelancer)) ==> client >= 0 && freelancer >= 0 && client
            + freelancer == available_of(*contract),
{
    let step = match contract.funded_amount.checked_sub(contract.released_amount) {
        Some(v) => v,
        None => return Err(Error::AccountingInvariantViolated),
    };
    let available = match step.checked_sub(contract.refunded_amount) {
        Some(v) => v,
        None => return Err(Error::AccountingInvariantViolated),
    };
    if available < 0 {
        return Err(Error::AccountingInvariantViolated);
    }
    match resolution {
        DisputeResolution::FullRefund => Ok((available, 0)),
        DisputeResolution::PartialRefund => {
            let scaled = match available.checked_mul(PARTIAL_REFUND_FREELANCER_SHARE) {
                Some(v) => v,
                None => return Err(Error::PotentialOverflow),
            };
            let freelancer_payout = scaled / PARTIAL_REFUND_DENOMINATOR;
            proof {
                assert(0 <= freelancer_payout <= available) by (nonlinear_arith)
                    requires
                        scaled == available * 30,
                        freelancer_payout == scaled / 100,
                        available >= 0,
                ;
            }
            Ok((available - freelancer_payout, freelancer_payout))
        },
        DisputeResolution::FullPayout => Ok((0, available)),
        DisputeResolution::Split(split) => {
            if split.client_amount < 0 || split.freelancer_amount < 0 {
                return Err(Error::InvalidDisputeSplit);
            }
            if split.client_amount > available || split.freelancer_amount > available {
                return Err(Error::InvalidDisputeSplit);
            }
            let total = match split.client_amount.checked_add(split.freelancer_amount) {
                Some(t) => t,
                None => return Err(Error::PotentialOverflow),
            };
            if total > available || total != available {
                return Err(Error::InvalidDisputeSplit);
            }
            Ok((split.client_amount, split.freelancer_amount))
        },
    }
}

/// `Refunded` exactly when everything funded has been refunded, else `Completed`.
pub open spec fn spec_final_status(c: Contract) -> ContractStatus {
    if c.refunded_amount == c.funded_amount {
        ContractStatus::Refunded
    } else {
        ContractStatus::Completed
    }
}

/// The status a contract ends in after its dispute is resolved.
pub fn final_status_after_resolution(contract: &Contract) -> (s: ContractStatus)
    ensures
        s == spec_final_status(*contract),
{
    if contract.refunded_amount == contract.funded_amount {
        ContractStatus::Refunded
    } else {
        ContractStatus::Completed
    }
}

/// Contract `c` after a resolution paying `client` to the client and
/// `freelancer` to the freelancer.
pub open spec fn resolved(c: Contract, client: i128, freelancer: i128) -> Contract {
    let paid = Contract {
        refunded_amount: (c.refunded_amount + client) as i128,
        released_amount: (c.released_amount + freelancer) as i128,
        ..c
    };
    Contract { status: spec_final_status(paid), ..paid }
}

impl Escrow {
    /// The error, if any, with which `raise_dispute` rejects.
    pub open spec fn raise_error(self, contract_id: u32, caller: AccountId) -> Option<Error> {
        if !self.initialized {
            Some(Error::NotInitialized)
        } else if self.pause_error() is Some {
            self.pause_error()
        } else if !self.has_contract(contract_id) {
            Some(Error::ContractNotFound)
        } else if self.is_finalized_at(contract_id) {
            Some(Error::AlreadyFinalized)
        } else {
            let c = self.contract_at(contract_id);
            if caller != c.client && caller != c.freelancer {
                Some(Error::UnauthorizedRole)
            } else if c.arbiter is None {
                Some(Error::ArbiterRequired)
            } else if c.status != ContractStatus::Funded && c.status
                != ContractStatus::PartiallyFunded {
                Some(Error::InvalidState)
            } else {
                None
            }
        }
    }

    /// The client or freelancer opens a dispute on a funded or partially
    /// funded contract that has an arbiter; releases stop until it is resolved.
    pub fn raise_dispute(&mut self, contract_id: u32, caller: AccountId) -> (r: Result<(), Error>)
        requires
            old(self).wf(),
        ensures
            final(self).wf(),
            match r {
                Err(e) => old(self).raise_error(contract_id, caller) == Some(e) && *final(self)
                    == *old(self),
                Ok(()) => {
                    let c = old(self).contract_at(contract_id);
                    &&& old(self).raise_error(contract_id, caller) is None
                    &&& final(self).contracts@ == old(self).contracts@.update(
                        contract_id - 1,
                        Contract { status: ContractStatus::Disputed, ..c },
                    )
                    &&& buckets(final(self).status_index@) == moved(
                        buckets(old(self).status_index@),
                        contract_id,
                        spec_status_code(c.status),
                        spec_status_code(ContractStatus::Disputed),
                    )
                    &&& final(self).milestones@ == old(self).milestones@
                    &&& final(self).approvals@ == old(self).approvals@
                    &&& final(self).finalizations@ == old(self).finalizations@
                    &&& final(self).reputation_credits@ == old(self).reputation_credits@
                    &&& final(self).config_unchanged(*old(self))
                },
            },
    {
        self.require_initialized()?;
        self.require_not_paused()?;
        if contract_id == 0 || contract_id as usize > self.contracts.len() {
            return Err(Error::ContractNotFound);
        }
        let idx = (contract_id - 1) as usize;
        if self.finalizations[idx].is_some() {
            return Err(Error::AlreadyFinalized);
        }
        let c = self.contracts[idx];
        if caller != c.client && caller != c.freelancer {
            return Err(Error::UnauthorizedRole);
        }
        if c.arbiter.is_none() {
            return Err(Error::ArbiterRequired);
        }
        match c.status {
            ContractStatus::Funded | ContractStatus::PartiallyFunded => {},
            _ => return Err(Error::InvalidState),
        }
        let ghost old_self = *self;
        self.store_contract(contract_id, Contract { status: ContractStatus::Disputed, ..c });
        proof {
            assert forall|k: int| 0 <= k < self.contracts@.len() implies record_wf(
                #[trigger] self.contracts@[k],
                self.milestones@[k]@,
                self.approvals@[k]@,
            ) by {
                assert(record_wf(
                    old_self.contracts@[k],
                    old_self.milestones@[k]@,
                    old_self.approvals@[k]@,
                ));
            }
        }
        Ok(())
    }

    /// The error, if any, with which `resolve_dispute` rejects.
    pub open spec fn resolve_error(self, contract_id: u32, arbiter: AccountId, resolution: DisputeResolution) -> Option<Error> {
        if !self.initialized {
            Some(Error::NotInitialized)
        } else if self.pause_error() is Some {
            self.pause_error()
        } else if !self.has_contract(contract_id) {
            Some(Error::ContractNotFound)
        } else if self.is_finalized_at(contract_id) {
            Some(Error::AlreadyFinalized)
        } else {
            let c = self.contract_at(contract_id);
            if c.status != ContractStatus::Disputed {
                Some(Error::InvalidStatusTransition)
            } else if c.arbiter != Some(arbiter) {
                Some(Error::UnauthorizedRole)
            } else if spec_resolution_payouts(c, resolution) is Err {
                Some(spec_resolution_payouts(c, resolution)->Err_0)
            } else {
                None
            }
        }
    }

    /// The assigned arbiter resolves a dispute: the available balance is paid
    /// out as `resolution` says (returned as `(client, freelancer)` payouts),
    /// and the contract ends `Refunded` when everything funded was refunded,
    /// `Completed` otherwise, earning the freelancer a reputation credit.
    pub fn resolve_dispute(&mut self, contract_id: u32, arbiter: AccountId, resolution: DisputeResolution) -> (r: Result<(i128, i128), Error>)
        requires
            old(self).wf(),
        ensures
            final(self).wf(),
            match r {
                Err(e) => old(self).resolve_error(contract_id, arbiter, resolution) == Some(e)
                    && *final(self) == *old(self),
                Ok((client_payout, freelancer_payout)) => {
                    let c = old(self).contract_at(contract_id);
                    let c2 = resolved(c, client_payout, freelancer_payout);
                    &&& old(self).resolve_error(contract_id, arbiter, resolution) is None
                    &&& spec_resolution_payouts(c, resolution) == Ok::<(i128, i128), Error>(
                        (client_payout, freelancer_payout),
                    )
                    &&& final(self).contracts@ == old(self).contracts@.update(contract_id - 1, c2)
                    &&& buckets(final(self).status_index@) == moved(
                        buckets(old(self).status_index@),
                        contract_id,
                        spec_status_code(c.status),
                        spec_status_code(c2.status),
                    )
                    &&& final(self).milestones@ == old(self).milestones@
                    &&& final(self).approvals@ == old(self).approvals@
                    &&& final(self).finalizations@ == old(self).finalizations@
                    &&& c2.status != ContractStatus::Completed ==> final(self).reputation_credits@
                        == old(self).reputation_credits@
                    &&& c2.status == ContractStatus::Completed ==> forall|g: AccountId|
                        #[trigger] final(self).credits_of(g) == old(self).credits_of(g) + if g
                            == c.freelancer {
                            1int
                        } else {
                            0int
                        }
                    &&& final(self).config_unchanged(*old(self))
                },
            },
    {
        self.require_initialized()?;
        self.require_not_paused()?;
        if contract_id == 0 || contract_id as usize > self.contracts.len() {
            return Err(Error::ContractNotFound);
        }
        let idx = (contract_id - 1) as usize;
        if self.finalizations[idx].is_some() {
            return Err(Error::AlreadyFinalized);
        }
        let c = self.contracts[idx];
        if c.status != ContractStatus::Disputed {
            return Err(Error::InvalidStatusTransition);
        }
        match c.arbiter {
            Some(a) => {
                if a != arbiter {
                    return Err(Error::UnauthorizedRole);
                }
            },
            None => return Err(Error::UnauthorizedRole),
        }
        let (client_payout, freelancer_payout) = match resolution_payouts(&c, &resolution) {
            Ok(p) => p,
            Err(e) => return Err(e),
        };
        proof {
            assert(record_wf(self.contracts@[idx as int], self.milestones@[idx as int]@, self.approvals@[idx as int]@));
        }
        let paid = Contract {
            refunded_amount: c.refunded_amount + client_payout,
            released_amount: c.released_amount + freelancer_payout,
            ..c
        };
        let status = final_status_after_resolution(&paid);
        let c2 = Contract { status, ..paid };
        let ghost old_self = *self;
        self.store_contract(contract_id, c2);
        proof {
            assert forall|k: int| 0 <= k < self.contracts@.len() implies record_wf(
                #[trigger] self.contracts@[k],
                self.milestones@[k]@,
                self.approvals@[k]@,
            ) by {
                assert(record_wf(
                    old_self.contracts@[k],
                    old_self.milestones@[k]@,
                    old_self.approvals@[k]@,
                ));
            }
        }
        Ok((client_payout, freelancer_payout))
    }
}

} // verus!
