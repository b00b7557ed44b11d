//! Governance: protocol fee, events and storage limits, governed parameters,
//! dispute configuration and two-step admin rotation.

use vstd::prelude::*;

use crate::amount::MAX_SINGLE_AMOUNT_STROOPS;
use crate::constants::{
    DEFAULT_EVENTS_LIMIT, DEFAULT_STORAGE_LIMIT, MAX_BPS, MAX_EVENTS_LIMIT, MAX_MILESTONES,
    MAX_STORAGE_LIMIT, MAX_TOTAL_ESCROW_STROOPS, MIN_STORAGE_LIMIT,
};
use crate::escrow::{lemma_wf_config_change, Escrow};
use crate::ttl::ADMIN_ROTATION_MIN_DELAY_LEDGERS;
use crate::types::{
    AccountId, ContractBounds, DisputeConfig, Error, GovernedParameters, PendingAdminProposal, ReadinessChecklist,
};

verus! {

/// Ledgers elapsed from `from` to `to`, saturating at zero.
pub open spec fn elapsed_ledgers(to: u32, from: u32) -> int {
    if to >= from {
        to - from
    } else {
        0
    }
}

impl Escrow {
    /// The protocol-wide limits that validation enforces; a contract can be
    /// disputed at most once, since a resolution is terminal.
    pub fn get_bounds() -> (b: ContractBounds)
        ensures
            b == (ContractBounds {
                max_milestones: MAX_MILESTONES,
                max_single_milestone_stroops: MAX_SINGLE_AMOUNT_STROOPS,
                max_total_escrow_stroops: MAX_TOTAL_ESCROW_STROOPS,
                max_fee_bps: MAX_BPS,
                max_disputes: 1,
            }),
    {
        ContractBounds {
            max_milestones: MAX_MILESTONES,
            max_single_milestone_stroops: MAX_SINGLE_AMOUNT_STROOPS,
            max_total_escrow_stroops: MAX_TOTAL_ESCROW_STROOPS,
            max_fee_bps: MAX_BPS,
            max_disputes: 1,
        }
    }

    /// The admin withdraws `amount` of the accrued protocol fees; the host
    /// transfers it to the treasury.
    pub fn withdraw_protocol_fees(&mut self, amount: i128) -> (r: Result<(), Error>)
        requires
            old(self).wf(),
        ensures
            final(self).wf(),
            match r {
                Err(e) => *final(self) == *old(self) && e == if !old(self).initialized {
                    Error::NotInitialized
                } else if amount <= 0 {
                    Error::AmountMustBePositive
                } else {
                    Error::InsufficientAccumulatedFees
                } && (old(self).initialized && amount > 0 ==> amount
                    > old(self).accumulated_protocol_fees),
                Ok(()) => old(self).initialized && 0 < amount <= old(self).accumulated_protocol_fees
                    && *final(self) == (Escrow {
                    accumulated_protocol_fees: (old(self).accumulated_protocol_fees - amount) as i128,
                    ..*old(self)
                }),
            },
    {
        self.require_initialized()?;
        if amount <= 0 {
            return Err(Error::AmountMustBePositive);
        }
        if amount > self.accumulated_protocol_fees {
            return Err(Error::InsufficientAccumulatedFees);
        }
        self.accumulated_protocol_fees = self.accumulated_protocol_fees - amount;
        proof {
            lemma_wf_config_change(*old(self), *self);
        }
        Ok(())
    }

    /// Sets the protocol fee (at most 10 000 bps = 100 %), effective for the
    /// next release. The host authenticates the stored admin.
    pub fn set_protocol_fee_bps(&mut self, new_bps: u32) -> (r: Result<(), Error>)
        requires
            old(self).wf(),
        ensures
            final(self).wf(),
            match r {
                Err(e) => *final(self) == *old(self) && e == if !old(self).initialized {
                    Error::NotInitialized
                } else {
                    Error::InvalidProtocolParameters
                } && (old(self).initialized ==> new_bps > 10_000),
                Ok(()) => old(self).initialized && new_bps <= 10_000 && *final(self) == (Escrow {
                    protocol_fee_bps: new_bps,
                    ..*old(self)
                }),
            },
    {
        self.require_initialized()?;
        if new_bps > 10_000 {
            return Err(Error::InvalidProtocolParameters);
        }
        self.protocol_fee_bps = new_bps;
        proof {
            lemma_wf_config_change(*old(self), *self);
        }
        Ok(())
    }

    /// The protocol fee in basis points.
    pub fn get_protocol_fee_bps(&self) -> (bps: u32)
        ensures
            bps == self.protocol_fee_bps,
    {
        self.protocol_fee_bps
    }

    /// Sets the events limit, which must lie in `1..=1000`.
    pub fn set_events_limit(&mut self, new_limit: u32) -> (r: Result<(), Error>)
        requires
            old(self).wf(),
        ensures
            final(self).wf(),
            match r {
                Err(e) => *final(self) == *old(self) && e == if !old(self).initialized {
                    Error::NotInitialized
                } else {
                    Error::InvalidEventsLimit
                } && (old(self).initialized ==> new_limit == 0 || new_limit > MAX_EVENTS_LIMIT),
                Ok(()) => old(self).initialized && 1 <= new_limit <= MAX_EVENTS_LIMIT && *final(self)
                    == (Escrow { events_limit: Some(new_limit), ..*old(self) }),
            },
    {
        self.require_initialized()?;
        if new_limit == 0 || new_limit > MAX_EVENTS_LIMIT {
            return Err(Error::InvalidEventsLimit);
        }
        self.events_limit = Some(new_limit);
        proof {
            lemma_wf_config_change(*old(self), *self);
        }
        Ok(())
    }

    /// The events limit, 100 until set.
    pub fn get_events_limit(&self) -> (l: u32)
        ensures
            l == match self.events_limit {
                Some(v) => v,
                None => DEFAULT_EVENTS_LIMIT,
            },
    {
        match self.events_limit {
            Some(v) => v,
            None => DEFAULT_EVENTS_LIMIT,
        }
    }

    /// The error, if any, with which `propose_governance_admin` rejects `proposed`.
    pub open spec fn propose_admin_error(self, proposed: AccountId) -> Option<Error> {
        if !self.initialized {
            Some(Error::NotInitialized)
        } else if self.admin == Some(proposed) {
            Some(Error::CannotProposeSelf)
        } else {
            None
        }
    }

    /// The current admin proposes `proposed`, someone other than itself, as
    /// the next admin at ledger `ledger`.
    pub fn propose_governance_admin(&mut self, proposed: AccountId, ledger: u32) -> (r: Result<(), Error>)
        requires
            old(self).wf(),
        ensures
            final(self).wf(),
            match r {
                Err(e) => *final(self) == *old(self) && old(self).propose_admin_error(proposed)
                    == Some(e),
                Ok(()) => old(self).propose_admin_error(proposed) is None && *final(self) == (Escrow {
                    pending_admin: Some(
                        PendingAdminProposal { proposed, proposed_at_ledger: ledger },
                    ),
                    ..*old(self)
                }),
            },
    {
        self.require_initialized()?;
        match self.admin {
            Some(a) => {
                if a == proposed {
                    return Err(Error::CannotProposeSelf);
                }
            },
            None => {
                return Err(Error::ContractNotFound);
            },
        }
        self.pending_admin = Some(PendingAdminProposal { proposed, proposed_at_ledger: ledger });
        proof {
            lemma_wf_config_change(*old(self), *self);
        }
        Ok(())
    }

    /// The error, if any, with which `accept_governance_admin` rejects at `ledger`.
    pub open spec fn accept_admin_error(self, ledger: u32) -> Option<Error> {
        if !self.initialized {
            Some(Error::NotInitialized)
        } else if self.pending_admin is None {
            Some(Error::InvalidState)
        } else if elapsed_ledgers(ledger, self.pending_admin.unwrap().proposed_at_ledger)
            < ADMIN_ROTATION_MIN_DELAY_LEDGERS {
            Some(Error::TimelockNotElapsed)
        } else {
            None
        }
    }

    /// The proposed admin takes over once the timelock has elapsed; the host
    /// authenticates the proposed address.
    pub fn accept_governance_admin(&mut self, ledger: u32) -> (r: Result<(), Error>)
        requires
            old(self).wf(),
        ensures
            final(self).wf(),
            match r {
                Err(e) => *final(self) == *old(self) && old(self).accept_admin_error(ledger) == Some(e),
                Ok(()) => old(self).accept_admin_error(ledger) is None && *final(self) == (Escrow {
                    admin: Some(old(self).pending_admin.unwrap().proposed),
                    pending_admin: None,
                    ..*old(self)
                }),
            },
    {
        self.require_initialized()?;
        let pending = match self.pending_admin {
            Some(p) => p,
            None => return Err(Error::InvalidState),
        };
        let elapsed = ledger.saturating_sub(pending.proposed_at_ledger);
        if elapsed < ADMIN_ROTATION_MIN_DELAY_LEDGERS {
            return Err(Error::TimelockNotElapsed);
        }
        self.admin = Some(pending.proposed);
        self.pending_admin = None;
        proof {
            lemma_wf_config_change(*old(self), *self);
        }
        Ok(())
    }

    /// The current admin withdraws the pending proposal.
    pub fn cancel_governance_admin_proposal(&mut self) -> (r: Result<(), Error>)
        requires
            old(self).wf(),
        ensures
            final(self).wf(),
            match r {
                Err(e) => *final(self) == *old(self) && e == if !old(self).initialized {
                    Error::NotInitialized
                } else {
                    Error::InvalidState
                } && (old(self).initialized ==> old(self).pending_admin is None),
                Ok(()) => old(self).initialized && old(self).pending_admin is Some && *final(self)
                    == (Escrow { pending_admin: None, ..*old(self) }),
            },
    {
        self.require_initialized()?;
        if self.admin.is_none() {
            return Err(Error::ContractNotFound);
        }
        if self.pending_admin.is_none() {
            return Err(Error::InvalidState);
        }
        self.pending_admin = None;
        proof {
            lemma_wf_config_change(*old(self), *self);
        }
        Ok(())
    }

    /// The pending admin proposal's address, if any.
    pub fn get_pending_governance_admin(&self) -> (a: Option<AccountId>)
        ensures
            a == match self.pending_admin {
                Some(p) => Some(p.proposed),
                None => None,
            },
    {
        match self.pending_admin {
            Some(p) => Some(p.proposed),
            None => None,
        }
    }

    /// The current admin.
    pub fn get_governance_admin(&self) -> (a: Option<AccountId>)
        ensures
            a == self.admin,
    {
        self.admin
    }

    /// The error, if any, with which `set_governed_params` rejects.
    pub open spec fn governed_params_error(self, admin: AccountId, protocol_fee_bps: u32) -> Option<Error> {
        if !self.initialized || self.admin is None {
            Some(Error::NotInitialized)
        } else if admin != self.admin.unwrap() {
            Some(Error::UnauthorizedRole)
        } else if protocol_fee_bps > 10_000 {
            Some(Error::InvalidProtocolParameters)
        } else {
            None
        }
    }

    /// Sets the protocol fee and the escrow cap together and records that the
    /// governed parameters have been set.
    pub fn set_governed_params(&mut self, admin: AccountId, protocol_fee_bps: u32, max_escrow_total_stroops: i128) -> (r: Result<(), Error>)
        requires
            old(self).wf(),
        ensures
            final(self).wf(),
            match r {
                Err(e) => *final(self) == *old(self) && old(self).governed_params_error(
                    admin,
                    protocol_fee_bps,
                ) == Some(e),
                Ok(()) => old(self).governed_params_error(admin, protocol_fee_bps) is None
                    && *final(self) == (Escrow {
                    governed_parameters: Some(
                        GovernedParameters { protocol_fee_bps, max_escrow_total_stroops },
                    ),
                    protocol_fee_bps,
                    readiness: ReadinessChecklist {
                        governed_params_set: true,
                        ..old(self).readiness
                    },
                    ..*old(self)
                }),
            },
    {
        self.require_initialized()?;
        let stored_admin = match self.admin {
            Some(a) => a,
            None => return Err(Error::NotInitialized),
        };
        if admin != stored_admin {
            return Err(Error::UnauthorizedRole);
        }
        if protocol_fee_bps > 10_000 {
            return Err(Error::InvalidProtocolParameters);
        }
        self.governed_parameters = Some(GovernedParameters { protocol_fee_bps, max_escrow_total_stroops });
        self.protocol_fee_bps = protocol_fee_bps;
        self.readiness.governed_params_set = true;
        proof {
            lemma_wf_config_change(*old(self), *self);
        }
        Ok(())
    }

    /// The governed parameters; `{0, i128::MAX}` (no fee, no cap) until set.
    pub fn get_governed_parameters(&self) -> (g: GovernedParameters)
        ensures
            g == match self.governed_parameters {
                Some(p) => p,
                None => GovernedParameters { protocol_fee_bps: 0, max_escrow_total_stroops: i128::MAX },
            },
            g.max_escrow_total_stroops == self.max_total_escrow(),
    {
        match self.governed_parameters {
            Some(p) => p,
            None => GovernedParameters { protocol_fee_bps: 0, max_escrow_total_stroops: i128::MAX },
        }
    }

    /// Whether `set_governed_params` has ever succeeded.
    pub fn is_governed_params_set(&self) -> (b: bool)
        ensures
            b == self.readiness.governed_params_set,
    {
        self.readiness.governed_params_set
    }

    /// The error, if any, with which `set_storage_limit` rejects.
    pub open spec fn storage_limit_error(self, admin: AccountId, new_limit: u32) -> Option<Error> {
        if !self.initialized || self.admin is None {
            Some(Error::NotInitialized)
        } else if admin != self.admin.unwrap() {
            Some(Error::UnauthorizedRole)
        } else if new_limit < MIN_STORAGE_LIMIT || new_limit > MAX_STORAGE_LIMIT {
            Some(Error::StorageLimitOutOfRange)
        } else {
            None
        }
    }

    /// Sets the per-contract storage limit, which must lie in `1..=1_000_000` bytes.
    pub fn set_storage_limit(&mut self, admin: AccountId, new_limit: u32) -> (r: Result<(), Error>)
        requires
            old(self).wf(),
        ensures
            final(self).wf(),
            match r {
                Err(e) => *final(self) == *old(self) && old(self).storage_limit_error(admin, new_limit)
                    == Some(e),
                Ok(()) => old(self).storage_limit_error(admin, new_limit) is None && *final(self)
                    == (Escrow { storage_limit: Some(new_limit), ..*old(self) }),
            },
    {
        self.require_initialized()?;
        let stored_admin = match self.admin {
            Some(a) => a,
            None => return Err(Error::NotInitialized),
        };
        if admin != stored_admin {
            return Err(Error::UnauthorizedRole);
        }
        if new_limit < MIN_STORAGE_LIMIT || new_limit > MAX_STORAGE_LIMIT {
            return Err(Error::StorageLimitOutOfRange);
        }
        self.storage_limit = Some(new_limit);
        proof {
            lemma_wf_config_change(*old(self), *self);
        }
        Ok(())
    }

    /// The per-contract storage limit, 65 536 bytes until set.
    pub fn get_storage_limit(&self) -> (l: u32)
        ensures
            l == match self.storage_limit {
                Some(v) => v,
                None => DEFAULT_STORAGE_LIMIT,
            },
    {
        match self.storage_limit {
            Some(v) => v,
            None => DEFAULT_STORAGE_LIMIT,
        }
    }

    /// The dispute configuration, all zero until set.
    pub fn get_disputes_config(&self) -> (c: DisputeConfig)
        ensures
            c == match self.disputes_config {
                Some(v) => v,
                None => DisputeConfig { partial_refund_freelancer_bps: 0, partial_refund_client_bps: 0 },
            },
    {
        match self.disputes_config {
            Some(v) => v,
            None => DisputeConfig { partial_refund_freelancer_bps: 0, partial_refund_client_bps: 0 },
        }
    }

    /// Another name for [`Escrow::get_disputes_config`].
    pub fn get_dispute_config(&self) -> (c: DisputeConfig)
        ensures
            c == match self.disputes_config {
                Some(v) => v,
                None => DisputeConfig { partial_refund_freelancer_bps: 0, partial_refund_client_bps: 0 },
            },
    {
        self.get_disputes_config()
    }

    /// Records the dispute configuration.
    pub fn set_disputes_config(&mut self, freelancer_share_bps: u32, client_share_bps: u32) -> (r: Result<(), Error>)
        requires
            old(self).wf(),
        ensures
            final(self).wf(),
            match r {
                Err(e) => *final(self) == *old(self) && !old(self).initialized && e
                    == Error::NotInitialized,
                Ok(()) => old(self).initialized && *final(self) == (Escrow {
                    disputes_config: Some(
                        DisputeConfig {
                            partial_refund_freelancer_bps: freelancer_share_bps,
                            partial_refund_client_bps: client_share_bps,
                        },
                    ),
                    ..*old(self)
                }),
            },
    {
        self.require_initialized()?;
        if self.admin.is_none() {
            return Err(Error::NotInitialized);
        }
        self.disputes_config = Some(
            DisputeConfig {
                partial_refund_freelancer_bps: freelancer_share_bps,
                partial_refund_client_bps: client_share_bps,
            },
        );
        proof {
            lemma_wf_config_change(*old(self), *self);
        }
        Ok(())
    }
}

} // verus!
