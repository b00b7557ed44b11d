//! Funding: the client deposits toward the sum of the milestone amounts.

use vstd::prelude::*;

use crate::amount::{deposit_result, validate_deposit_amount};
use crate::escrow::{milestones_total, ms_total, record_wf, Escrow, lemma_ms_total_bounds};
use crate::status_index::{buckets, moved, spec_status_code};
use crate::types::{AccountId, Contract, ContractStatus, Error};

verus! {

/// Contract `c` after a deposit of `amount` toward milestones totalling `total`.
pub open spec fn deposited(c: Contract, amount: i128, total: int) -> Contract {
    let funded = c.funded_amount + amount;
    Contract {
        funded_amount: funded as i128,
        total_deposited: (c.total_deposited + amount) as i128,
        status: if funded == total {
            ContractStatus::Funded
        } else {
            ContractStatus::PartiallyFunded
        },
        ..c
    }
}

impl Escrow {
    /// The error, if any, with which `deposit_funds` rejects a deposit.
    pub open spec fn deposit_error(self, contract_id: u32, caller: AccountId, amount: i128) -> Option<Error> {
        if !self.initialized {
            Some(Error::NotInitialized)
        } else if self.pause_error() is Some {
            self.pause_error()
        } else if amount <= 0 {
            Some(Error::AmountMustBePositive)
        } else if !self.has_contract(contract_id) {
            Some(Error::ContractNotFound)
        } else if self.is_finalized_at(contract_id) {
            Some(Error::AlreadyFinalized)
        } else if caller != self.contract_at(contract_id).client {
            Some(Error::UnauthorizedRole)
        } else if self.contract_at(contract_id).status != ContractStatus::Created
            && self.contract_at(contract_id).status != ContractStatus::PartiallyFunded {
            Some(Error::InvalidState)
        } else if self.contract_at(contract_id).funded_amount + amount > ms_total(
            self.milestones_at(contract_id),
        ) {
            Some(Error::InvalidDepositAmount)
        } else if deposit_result(
            amount as int,
            self.contract_at(contract_id).funded_amount as int,
            ms_total(self.milestones_at(contract_id)),
        ) is Err {
            Some(
                deposit_result(
                    amount as int,
                    self.contract_at(contract_id).funded_amount as int,
                    ms_total(self.milestones_at(contract_id)),
                )->Err_0,
            )
        } else if self.settlement_token is None {
            Some(Error::SettlementTokenNotConfigured)
        } else {
            None
        }
    }

    /// The client deposits `amount` into contract `contract_id`. The
    /// contract becomes `Funded` once the deposits reach the milestone total,
    /// `PartiallyFunded` before. The host transfers the settlement token from
    /// the client to the escrow for a successful deposit.
    pub fn deposit_funds(&mut self, contract_id: u32, caller: AccountId, amount: i128) -> (r: Result<(), Error>)
        requires
            old(self).wf(),
        ensures
            final(self).wf(),
            match r {
                Err(e) => old(self).deposit_error(contract_id, caller, amount) == Some(e)
                    && *final(self) == *old(self),
                Ok(()) => {
                    let c = deposited(
                        old(self).contract_at(contract_id),
                        amount,
                        ms_total(old(self).milestones_at(contract_id)),
                    );
                    &&& old(self).deposit_error(contract_id, caller, amount) is None
                    &&& final(self).contracts@ == old(self).contracts@.update(contract_id - 1, c)
                    &&& buckets(final(self).status_index@) == moved(
                        buckets(old(self).status_index@),
                        contract_id,
                        spec_status_code(old(self).contract_at(contract_id).status),
                        spec_status_code(c.status),
                    )
                    &&& final(self).milestones@ == old(self).milestones@
                    &&& final(self).approvals@ == old(self).approvals@
                    &&& final(self).finalizations@ == old(self).finalizations@
                    &&& final(self).reputation_credits@ == old(self).reputation_credits@
                    &&& final(self).config_unchanged(*old(self))
                },
            },
    {
        self.require_initialized()?;
        self.require_not_paused()?;
        if amount <= 0 {
            return Err(Error::AmountMustBePositive);
        }
        if contract_id == 0 || contract_id as usize > self.contracts.len() {
            return Err(Error::ContractNotFound);
        }
        let idx = (contract_id - 1) as usize;
        if self.finalizations[idx].is_some() {
            return Err(Error::AlreadyFinalized);
        }
        let c = self.contracts[idx];
        if caller != c.client {
            return Err(Error::UnauthorizedRole);
        }
        if c.status != ContractStatus::Created && c.status != ContractStatus::PartiallyFunded {
            return Err(Error::InvalidState);
        }
        proof {
            assert(record_wf(self.contracts@[idx as int], self.milestones@[idx as int]@, self.approvals@[idx as int]@));
        }
        let total = milestones_total(&self.milestones[idx]);
        if amount > total - c.funded_amount {
            return Err(Error::InvalidDepositAmount);
        }
        match validate_deposit_amount(amount, c.funded_amount, total) {
            Ok(()) => {},
            Err(e) => return Err(e),
        }
        if self.settlement_token.is_none() {
            return Err(Error::SettlementTokenNotConfigured);
        }
        let funded = c.funded_amount + amount;
        let status = if funded == total {
            ContractStatus::Funded
        } else {
            ContractStatus::PartiallyFunded
        };
        let c2 = Contract {
            funded_amount: funded,
            total_deposited: c.total_deposited + amount,
            status,
            ..c
        };
        let ghost old_self = *self;
        self.store_contract(contract_id, c2);
        proof {
            assert forall|k: int| 0 <= k < self.contracts@.len() implies record_wf(
                #[trigger] self.contracts@[k],
                self.milestones@[k]@,
                self.approvals@[k]@,
            ) by {
                assert(record_wf(
                    old_self.contracts@[k],
                    old_self.milestones@[k]@,
                    old_self.approvals@[k]@,
                ));
            }
        }
        Ok(())
    }
}

} // verus!
