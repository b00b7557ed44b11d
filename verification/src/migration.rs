//! Client migration: the client of a contract hands it over to a new client
//! in two steps, a proposal that lives for `PENDING_MIGRATION_TTL_LEDGERS`
//! and the new client's acceptance.

use vstd::prelude::*;

use crate::escrow::{
    lemma_rated_count_update, lemma_unrated_count_update, rated_count, record_wf,
    reputation_matches, unrated_count, Escrow,
};
use crate::ttl::{compute_expiry, spec_expiry, PENDING_MIGRATION_TTL_LEDGERS};
use crate::types::{AccountId, Contract, ContractStatus, Error, PendingClientMigration};

verus! {

/// The proposal `p`, if it is still live at `ledger`.
pub open spec fn live_migration(p: Option<PendingClientMigration>, ledger: u32) -> Option<PendingClientMigration> {
    match p {
        Some(x) => if ledger <= x.live_until_ledger {
            Some(x)
        } else {
            None
        },
        None => None,
    }
}

impl Escrow {
    /// The live pending migration of contract `id` at `ledger`, if any.
    pub open spec fn migration_at(self, id: u32, ledger: u32) -> Option<PendingClientMigration> {
        if self.has_contract(id) {
            live_migration(self.migrations@[id - 1], ledger)
        } else {
            None
        }
    }

    /// The error, if any, with which `propose_client_migration` rejects.
    pub open spec fn propose_migration_error(
        self,
        contract_id: u32,
        current_client: AccountId,
        new_client: AccountId,
        ledger: u32,
    ) -> Option<Error> {
        if self.pause_error() is Some {
            self.pause_error()
        } else if !self.has_contract(contract_id) {
            Some(Error::ContractNotFound)
        } else if self.is_finalized_at(contract_id) {
            Some(Error::AlreadyFinalized)
        } else {
            let c = self.contract_at(contract_id);
            if current_client != c.client {
                Some(Error::UnauthorizedRole)
            } else if new_client == c.client || new_client == c.freelancer {
                Some(Error::InvalidParticipant)
            } else if c.arbiter == Some(new_client) {
                Some(Error::InvalidArbiter)
            } else if c.status != ContractStatus::Created && c.status
                != ContractStatus::PartiallyFunded && c.status != ContractStatus::Funded {
                Some(Error::InvalidState)
            } else if self.migration_at(contract_id, ledger) is Some {
                Some(Error::InvalidState)
            } else {
                None
            }
        }
    }

    /// The current client of an open contract proposes `new_client` at
    /// ledger `ledger`; the proposal stays live for
    /// `PENDING_MIGRATION_TTL_LEDGERS` ledgers. The new client must be none
    /// of the contract's participants.
    pub fn propose_client_migration(
        &mut self,
        contract_id: u32,
        current_client: AccountId,
        new_client: AccountId,
        ledger: u32,
    ) -> (r: Result<(), Error>)
        requires
            old(self).wf(),
        ensures
            final(self).wf(),
            match r {
                Err(e) => old(self).propose_migration_error(contract_id, current_client, new_client, ledger)
                    == Some(e) && *final(self) == *old(self),
                Ok(()) => {
                    &&& old(self).propose_migration_error(
                        contract_id,
                        current_client,
                        new_client,
                        ledger,
                    ) is None
                    &&& final(self).migrations@ == old(self).migrations@.update(
                        contract_id - 1,
                        Some(
                            PendingClientMigration {
                                current_client,
                                new_client,
                                requested_at_ledger: ledger,
                                live_until_ledger: spec_expiry(ledger, PENDING_MIGRATION_TTL_LEDGERS),
                            },
                        ),
                    )
                    &&& *final(self) == (Escrow { migrations: final(self).migrations, ..*old(self) })
                },
            },
    {
        self.require_not_paused()?;
        if contract_id == 0 || contract_id as usize > self.contracts.len() {
            return Err(Error::ContractNotFound);
        }
        let idx = (contract_id - 1) as usize;
        if self.finalizations[idx].is_some() {
            return Err(Error::AlreadyFinalized);
        }
        let c = self.contracts[idx];
        if current_client != c.client {
            return Err(Error::UnauthorizedRole);
        }
        if new_client == c.client || new_client == c.freelancer {
            return Err(Error::InvalidParticipant);
        }
        match c.arbiter {
            Some(a) => {
                if a == new_client {
                    return Err(Error::InvalidArbiter);
                }
            },
            None => {},
        }
        match c.status {
            ContractStatus::Created | ContractStatus::PartiallyFunded | ContractStatus::Funded => {},
            _ => return Err(Error::InvalidState),
        }
        match self.migrations[idx] {
            Some(p) => {
                if ledger <= p.live_until_ledger {
                    return Err(Error::InvalidState);
                }
            },
            None => {},
        }
        let proposal = PendingClientMigration {
            current_client,
            new_client,
            requested_at_ledger: ledger,
            live_until_ledger: compute_expiry(ledger, PENDING_MIGRATION_TTL_LEDGERS),
        };
        let ghost old_self = *self;
        self.migrations.set(idx, Some(proposal));
        proof {
            crate::escrow::lemma_wf_config_change(old_self, *self);
        }
        Ok(())
    }

    /// The error, if any, with which `accept_client_migration` rejects.
    pub open spec fn accept_migration_error(self, contract_id: u32, new_client: AccountId, ledger: u32) -> Option<Error> {
        if self.pause_error() is Some {
            self.pause_error()
        } else if !self.has_contract(contract_id) {
            Some(Error::ContractNotFound)
        } else if self.is_finalized_at(contract_id) {
            Some(Error::AlreadyFinalized)
        } else {
            let c = self.contract_at(contract_id);
            match self.migration_at(contract_id, ledger) {
                None => Some(Error::InvalidState),
                Some(p) => if p.new_client != new_client {
                    Some(Error::UnauthorizedRole)
                } else if p.current_client != c.client {
                    Some(Error::InvalidState)
                } else if new_client == c.freelancer {
                    Some(Error::InvalidParticipant)
                } else if c.arbiter == Some(new_client) {
                    Some(Error::InvalidArbiter)
                } else {
                    None
                },
            }
        }
    }

    /// The proposed client accepts a live proposal at ledger `ledger` and
    /// becomes the contract's client; the proposal is consumed.
    pub fn accept_client_migration(&mut self, contract_id: u32, new_client: AccountId, ledger: u32) -> (r: Result<(), Error>)
        requires
            old(self).wf(),
        ensures
            final(self).wf(),
            match r {
                Err(e) => old(self).accept_migration_error(contract_id, new_client, ledger) == Some(e)
                    && *final(self) == *old(self),
                Ok(()) => {
                    &&& old(self).accept_migration_error(contract_id, new_client, ledger) is None
                    &&& final(self).contracts@ == old(self).contracts@.update(
                        contract_id - 1,
                        Contract { client: new_client, ..old(self).contract_at(contract_id) },
                    )
                    &&& final(self).migrations@ == old(self).migrations@.update(contract_id - 1, None)
                    &&& final(self).milestones@ == old(self).milestones@
                    &&& final(self).approvals@ == old(self).approvals@
                    &&& final(self).finalizations@ == old(self).finalizations@
                    &&& final(self).status_index@ == old(self).status_index@
                    &&& final(self).reputation_credits@ == old(self).reputation_credits@
                    &&& final(self).reputations@ == old(self).reputations@
                    &&& final(self).evidence@ == old(self).evidence@
                    &&& final(self).reputation_comments@ == old(self).reputation_comments@
                    &&& final(self).participants@ == old(self).participants@
                    &&& final(self).settings_unchanged(*old(self))
                },
            },
    {
        self.require_not_paused()?;
        if contract_id == 0 || contract_id as usize > self.contracts.len() {
            return Err(Error::ContractNotFound);
        }
        let idx = (contract_id - 1) as usize;
        if self.finalizations[idx].is_some() {
            return Err(Error::AlreadyFinalized);
        }
        let c = self.contracts[idx];
        let p = match self.migrations[idx] {
            Some(p) => {
                if ledger > p.live_until_ledger {
                    return Err(Error::InvalidState);
                }
                p
            },
            None => return Err(Error::InvalidState),
        };
        if p.new_client != new_client {
            return Err(Error::UnauthorizedRole);
        }
        if p.current_client != c.client {
            return Err(Error::InvalidState);
        }
        if new_client == c.freelancer {
            return Err(Error::InvalidParticipant);
        }
        match c.arbiter {
            Some(a) => {
                if a == new_client {
                    return Err(Error::InvalidArbiter);
                }
            },
            None => {},
        }
        proof {
            assert(record_wf(self.contracts@[idx as int], self.milestones@[idx as int]@, self.approvals@[idx as int]@));
        }
        let ghost old_self = *self;
        let c2 = Contract { client: new_client, ..c };
        self.migrations.set(idx, None);
        self.contracts.set(idx, c2);
        proof {
            assert(self.statuses() =~= old_self.statuses());
            assert forall|k: int| 0 <= k < self.contracts@.len() implies record_wf(
                #[trigger] self.contracts@[k],
                self.milestones@[k]@,
                self.approvals@[k]@,
            ) by {
                assert(record_wf(
                    old_self.contracts@[k],
                    old_self.milestones@[k]@,
                    old_self.approvals@[k]@,
                ));
            }
            assert forall|f: AccountId| #[trigger] self.credits_of(f) == unrated_count(self.contracts@, f) by {
                assert(old_self.credits_of(f) == unrated_count(old_self.contracts@, f));
                lemma_unrated_count_update(old_self.contracts@, idx as int, c2, f);
            }
            assert forall|f: AccountId| reputation_matches(
                #[trigger] self.reputation_of(f),
                rated_count(self.contracts@, f),
            ) by {
                assert(reputation_matches(old_self.reputation_of(f), rated_count(old_self.contracts@, f)));
                lemma_rated_count_update(old_self.contracts@, idx as int, c2, f);
            }
        }
        Ok(())
    }

    /// The error, if any, with which `cancel_client_migration` rejects.
    pub open spec fn cancel_migration_error(self, contract_id: u32, current_client: AccountId, ledger: u32) -> Option<Error> {
        if self.pause_error() is Some {
            self.pause_error()
        } else if !self.has_contract(contract_id) {
            Some(Error::ContractNotFound)
        } else if current_client != self.contract_at(contract_id).client {
            Some(Error::UnauthorizedRole)
        } else if self.migration_at(contract_id, ledger) is None {
            Some(Error::InvalidState)
        } else {
            None
        }
    }

    /// The current client withdraws a live proposal at ledger `ledger`.
    pub fn cancel_client_migration(&mut self, contract_id: u32, current_client: AccountId, ledger: u32) -> (r: Result<(), Error>)
        requires
            old(self).wf(),
        ensures
            final(self).wf(),
            match r {
                Err(e) => old(self).cancel_migration_error(contract_id, current_client, ledger) == Some(e)
                    && *final(self) == *old(self),
                Ok(()) => {
                    &&& old(self).cancel_migration_error(contract_id, current_client, ledger) is None
                    &&& final(self).migrations@ == old(self).migrations@.update(contract_id - 1, None)
                    &&& *final(self) == (Escrow { migrations: final(self).migrations, ..*old(self) })
                },
            },
    {
        self.require_not_paused()?;
        if contract_id == 0 || contract_id as usize > self.contracts.len() {
            return Err(Error::ContractNotFound);
        }
        let idx = (contract_id - 1) as usize;
        if current_client != self.contracts[idx].client {
            return Err(Error::UnauthorizedRole);
        }
        match self.migrations[idx] {
            Some(p) => {
                if ledger > p.live_until_ledger {
                    return Err(Error::InvalidState);
                }
            },
            None => return Err(Error::InvalidState),
        }
        let ghost old_self = *self;
        self.migrations.set(idx, None);
        proof {
            crate::escrow::lemma_wf_config_change(old_self, *self);
        }
        Ok(())
    }

    /// Whether contract `contract_id` has a migration proposal live at `ledger`.
    pub fn has_pending_client_migration(&self, contract_id: u32, ledger: u32) -> (b: bool)
        requires
            self.wf(),
        ensures
            b == self.migration_at(contract_id, ledger) is Some,
    {
        if contract_id == 0 || contract_id as usize > self.contracts.len() {
            return false;
        }
        match self.migrations[(contract_id - 1) as usize] {
            Some(p) => ledger <= p.live_until_ledger,
            None => false,
        }
    }

    /// The migration proposal of contract `contract_id` live at `ledger`;
    /// `InvalidState` when there is none.
    pub fn get_pending_client_migration(&self, contract_id: u32, ledger: u32) -> (r: Result<PendingClientMigration, Error>)
        requires
            self.wf(),
        ensures
            r == match self.migration_at(contract_id, ledger) {
                Some(p) => Ok::<PendingClientMigration, Error>(p),
                None => Err(Error::InvalidState),
            },
    {
        if contract_id == 0 || contract_id as usize > self.contracts.len() {
            return Err(Error::InvalidState);
        }
        match self.migrations[(contract_id - 1) as usize] {
            Some(p) => {
                if ledger <= p.live_until_ledger {
                    Ok(p)
                } else {
                    Err(Error::InvalidState)
                }
            },
            None => Err(Error::InvalidState),
        }
    }
}

} // verus!
