//! Milestone approvals, releases (single and batch) and protocol fees.

use vstd::prelude::*;

use crate::escrow::{
    lemma_ms_total_update, ms_total, record_wf, Escrow,
};
use crate::status_index::{buckets, moved, spec_status_code};
use crate::ttl::{compute_expiry, spec_expiry, PENDING_APPROVAL_TTL_LEDGERS};
use crate::types::{
    AccountId, Contract, ContractStatus, Error, Milestone, MilestoneApprovals,
    ReleaseAuthorization,
};

verus! {

/// Rust's truncating division of `a` by a positive `d`.
pub open spec fn trunc_div(a: int, d: int) -> int {
    if a >= 0 {
        a / d
    } else {
        -((-a) / d)
    }
}

/// The protocol fee, in stroops, taken from `amount` at `fee_bps` basis points.
pub open spec fn spec_protocol_fee(amount: int, fee_bps: int) -> int {
    if fee_bps == 0 {
        0
    } else {
        trunc_div(amount * fee_bps, 10_000)
    }
}

/// `amount * fee_bps / 10_000`, or 0 for a zero rate.
pub fn calculate_protocol_fee(amount: i128, fee_bps: u32) -> (fee: i128)
    requires
        -i128::MAX <= amount * fee_bps <= i128::MAX,
    ensures
        fee == spec_protocol_fee(amount as int, fee_bps as int),
        0 <= amount && fee_bps <= 10_000 ==> 0 <= fee <= amount,
{
    if fee_bps == 0 {
        return 0;
    }
    let product = amount * (fee_bps as i128);
    let fee = if product >= 0 {
        product / 10_000
    } else {
        -((-product) / 10_000)
    };
    proof {
        if 0 <= amount && fee_bps <= 10_000 {
            assert(0 <= product / 10_000 <= amount) by (nonlinear_arith)
                requires
                    product == amount * fee_bps,
                    0 <= amount,
                    0 <= fee_bps <= 10_000,
            ;
        }
    }
    fee
}

/// The approvals of a milestone that are still live at `ledger`.
pub open spec fn live_approvals(a: Option<MilestoneApprovals>, ledger: u32) -> Option<MilestoneApprovals> {
    match a {
        Some(x) => if ledger <= x.live_until_ledger {
            Some(x)
        } else {
            None
        },
        None => None,
    }
}

/// Whether `caller` is a party that approves and releases under the
/// contract's release authorization.
pub open spec fn is_release_party(c: Contract, caller: AccountId) -> bool {
    match c.release_authorization {
        ReleaseAuthorization::ClientOnly => caller == c.client,
        ReleaseAuthorization::ArbiterOnly => c.arbiter == Some(caller),
        ReleaseAuthorization::ClientAndArbiter => caller == c.client || c.arbiter == Some(caller),
        ReleaseAuthorization::MultiSig => caller == c.client || caller == c.freelancer,
    }
}

/// Whether the live approvals meet the contract's release authorization.
pub open spec fn approvals_satisfied(c: Contract, a: Option<MilestoneApprovals>, ledger: u32) -> bool {
    match live_approvals(a, ledger) {
        None => false,
        Some(x) => match c.release_authorization {
            ReleaseAuthorization::ClientOnly => x.client_approved,
            ReleaseAuthorization::ArbiterOnly => x.arbiter_approved,
            ReleaseAuthorization::ClientAndArbiter => x.client_approved || x.arbiter_approved,
            ReleaseAuthorization::MultiSig => x.client_approved && x.freelancer_approved,
        },
    }
}

/// Whether `caller`'s approval is already recorded and live.
pub open spec fn already_approved(c: Contract, a: Option<MilestoneApprovals>, caller: AccountId, ledger: u32) -> bool {
    match live_approvals(a, ledger) {
        None => false,
        Some(x) => if caller == c.client {
            x.client_approved
        } else if c.arbiter == Some(caller) {
            x.arbiter_approved
        } else {
            x.freelancer_approved
        },
    }
}

/// The approvals after `caller` approves at `ledger`: the live flags plus
/// `caller`'s, live for another approval lifetime.
pub open spec fn approved_by(c: Contract, a: Option<MilestoneApprovals>, caller: AccountId, ledger: u32) -> MilestoneApprovals {
    let base = match live_approvals(a, ledger) {
        Some(x) => x,
        None => MilestoneApprovals {
            client_approved: false,
            freelancer_approved: false,
            arbiter_approved: false,
            live_until_ledger: 0,
        },
    };
    MilestoneApprovals {
        client_approved: base.client_approved || caller == c.client,
        arbiter_approved: base.arbiter_approved || (caller != c.client && c.arbiter == Some(caller)),
        freelancer_approved: base.freelancer_approved || (caller != c.client && c.arbiter != Some(caller)),
        live_until_ledger: spec_expiry(ledger, PENDING_APPROVAL_TTL_LEDGERS),
    }
}

/// Whether every milestone is released or refunded.
pub open spec fn all_settled(ms: Seq<Milestone>) -> bool {
    forall|j: int| 0 <= j < ms.len() ==> #[trigger] ms[j].released || ms[j].refunded
}

/// What a successful release paid out.
#[derive(Clone, Copy, Debug, PartialEq, Eq, Structural)]
pub struct ReleaseOutcome {
    /// Gross milestone amount released.
    pub amount: i128,
    /// Protocol fee withheld from it; the freelancer receives `amount - fee`.
    pub fee: i128,
    /// Whether this release completed the contract.
    pub completed: bool,
}

/// Whether every milestone of `ms` is released or refunded.
pub fn milestones_settled(ms: &Vec<Milestone>) -> (b: bool)
    ensures
        b == all_settled(ms@),
{
    let mut i: usize = 0;
    while i < ms.len()
        invariant
            i <= ms@.len(),
            forall|j: int| 0 <= j < i ==> #[trigger] ms@[j].released || ms@[j].refunded,
        decreases ms@.len() - i,
    {
        if !(ms[i].released || ms[i].refunded) {
            return false;
        }
        i = i + 1;
    }
    true
}

impl Escrow {
    /// The fee withheld from a release of `amount` under the current configuration.
    pub open spec fn release_fee(self, amount: int) -> int {
        if self.initialized && self.protocol_fee_bps > 0 {
            spec_protocol_fee(amount, self.protocol_fee_bps as int)
        } else {
            0
        }
    }

    /// The error, if any, with which `approve_milestone_release` rejects.
    pub open spec fn approve_error(self, contract_id: u32, caller: AccountId, milestone_index: u32, ledger: u32) -> Option<Error> {
        if self.pause_error() is Some {
            self.pause_error()
        } else if self.has_contract(contract_id) && self.is_finalized_at(contract_id) {
            Some(Error::AlreadyFinalized)
        } else if !self.has_contract(contract_id) {
            Some(Error::ContractNotFound)
        } else {
            let c = self.contract_at(contract_id);
            let ms = self.milestones_at(contract_id);
            if c.status != ContractStatus::Funded && c.status != ContractStatus::PartiallyFunded {
                Some(Error::InvalidState)
            } else if milestone_index >= ms.len() {
                Some(Error::IndexOutOfBounds)
            } else if ms[milestone_index as int].released {
                Some(Error::MilestoneAlreadyReleased)
            } else if ms[milestone_index as int].refunded {
                Some(Error::AlreadyRefunded)
            } else if !is_release_party(c, caller) {
                Some(Error::UnauthorizedRole)
            } else if already_approved(
                c,
                self.approvals_at(contract_id)[milestone_index as int],
                caller,
                ledger,
            ) {
                Some(Error::AlreadyApproved)
            } else {
                None
            }
        }
    }

    /// Records `caller`'s approval of milestone `milestone_index` at ledger
    /// `ledger`; the approvals stay live for `PENDING_APPROVAL_TTL_LEDGERS`.
    pub fn approve_milestone_release(&mut self, contract_id: u32, caller: AccountId, milestone_index: u32, ledger: u32) -> (r: Result<(), Error>)
        requires
            old(self).wf(),
        ensures
            final(self).wf(),
            match r {
                Err(e) => old(self).approve_error(contract_id, caller, milestone_index, ledger)
                    == Some(e) && *final(self) == *old(self),
                Ok(()) => {
                    &&& old(self).approve_error(contract_id, caller, milestone_index, ledger) is None
                    &&& final(self).approvals@.len() == old(self).approvals@.len()
                    &&& final(self).approvals_at(contract_id) == old(self).approvals_at(
                        contract_id,
                    ).update(
                        milestone_index as int,
                        Some(
                            approved_by(
                                old(self).contract_at(contract_id),
                                old(self).approvals_at(contract_id)[milestone_index as int],
                                caller,
                                ledger,
                            ),
                        ),
                    )
                    &&& forall|k: int|
                        0 <= k < old(self).approvals@.len() && k != contract_id - 1
                            ==> #[trigger] final(self).approvals@[k] == old(self).approvals@[k]
                    &&& final(self).contracts@ == old(self).contracts@
                    &&& final(self).milestones@ == old(self).milestones@
                    &&& final(self).finalizations@ == old(self).finalizations@
                    &&& final(self).status_index@ == old(self).status_index@
                    &&& final(self).reputation_credits@ == old(self).reputation_credits@
                    &&& final(self).config_unchanged(*old(self))
                },
            },
    {
        self.require_not_paused()?;
        if contract_id >= 1 && contract_id as usize <= self.contracts.len() && self.finalizations[(
        contract_id - 1) as usize].is_some() {
            return Err(Error::AlreadyFinalized);
        }
        if contract_id == 0 || contract_id as usize > self.contracts.len() {
            return Err(Error::ContractNotFound);
        }
        let idx = (contract_id - 1) as usize;
        let c = self.contracts[idx];
        if c.status != ContractStatus::Funded && c.status != ContractStatus::PartiallyFunded {
            return Err(Error::InvalidState);
        }
        proof {
            assert(record_wf(self.contracts@[idx as int], self.milestones@[idx as int]@, self.approvals@[idx as int]@));
        }
        if milestone_index as usize >= self.milestones[idx].len() {
            return Err(Error::IndexOutOfBounds);
        }
        let j = milestone_index as usize;
        let m = self.milestones[idx][j];
        if m.released {
            return Err(Error::MilestoneAlreadyReleased);
        }
        if m.refunded {
            return Err(Error::AlreadyRefunded);
        }
        let is_client = caller == c.client;
        let is_freelancer = caller == c.freelancer;
        let is_arbiter = match c.arbiter {
            Some(a) => a == caller,
            None => false,
        };
        let allowed = match c.release_authorization {
            ReleaseAuthorization::ClientOnly => is_client,
            ReleaseAuthorization::ArbiterOnly => is_arbiter,
            ReleaseAuthorization::ClientAndArbiter => is_client || is_arbiter,
            ReleaseAuthorization::MultiSig => is_client || is_freelancer,
        };
        if !allowed {
            return Err(Error::UnauthorizedRole);
        }
        let current = self.approvals[idx][j];
        let live = match current {
            Some(x) => if ledger <= x.live_until_ledger {
                Some(x)
            } else {
                None
            },
            None => None,
        };
        let base = match live {
            Some(x) => x,
            None => MilestoneApprovals {
                client_approved: false,
                freelancer_approved: false,
                arbiter_approved: false,
                live_until_ledger: 0,
            },
        };
        let already = match live {
            Some(x) => if is_client {
                x.client_approved
            } else if is_arbiter {
                x.arbiter_approved
            } else {
                x.freelancer_approved
            },
            None => false,
        };
        if already {
            return Err(Error::AlreadyApproved);
        }
        let updated = MilestoneApprovals {
            client_approved: base.client_approved || is_client,
            arbiter_approved: base.arbiter_approved || (!is_client && is_arbiter),
            freelancer_approved: base.freelancer_approved || (!is_client && !is_arbiter),
            live_until_ledger: compute_expiry(ledger, PENDING_APPROVAL_TTL_LEDGERS),
        };
        let ghost old_self = *self;
        self.approvals[idx].set(j, Some(updated));
        proof {
            assert(self.statuses() =~= old_self.statuses());
            assert forall|k: int| 0 <= k < self.contracts@.len() implies record_wf(
                #[trigger] self.contracts@[k],
                self.milestones@[k]@,
                self.approvals@[k]@,
            ) by {
                assert(record_wf(
                    old_self.contracts@[k],
                    old_self.milestones@[k]@,
                    old_self.approvals@[k]@,
                ));
            }
            assert forall|f: AccountId| #[trigger] self.credits_of(f)
                == crate::escrow::unrated_count(self.contracts@, f) by {
                assert(old_self.credits_of(f) == crate::escrow::unrated_count(old_self.contracts@, f));
            }
            crate::escrow::lemma_wf_reputation_same(old_self, *self);
        }
        Ok(())
    }
}

/// Milestone `m` marked released.
pub open spec fn released_milestone(m: Milestone) -> Milestone {
    Milestone { released: true, ..m }
}

impl Escrow {
    /// The error, if any, with which `release_milestone` rejects.
    pub open spec fn release_error(self, contract_id: u32, caller: AccountId, milestone_index: u32, ledger: u32) -> Option<Error> {
        if self.pause_error() is Some {
            self.pause_error()
        } else if !self.has_contract(contract_id) {
            Some(Error::ContractNotFound)
        } else if self.is_finalized_at(contract_id) {
            Some(Error::AlreadyFinalized)
        } else {
            let c = self.contract_at(contract_id);
            let ms = self.milestones_at(contract_id);
            if c.status != ContractStatus::Funded {
                Some(Error::InvalidState)
            } else if !is_release_party(c, caller) {
                Some(Error::UnauthorizedRole)
            } else if milestone_index >= ms.len() {
                Some(Error::InvalidMilestone)
            } else if ms[milestone_index as int].released {
                Some(Error::AlreadyReleased)
            } else if ms[milestone_index as int].refunded {
                Some(Error::AlreadyRefunded)
            } else if !approvals_satisfied(
                c,
                self.approvals_at(contract_id)[milestone_index as int],
                ledger,
            ) {
                Some(Error::InsufficientApprovals)
            } else if c.funded_amount - c.released_amount - c.refunded_amount
                < ms[milestone_index as int].amount {
                Some(Error::InsufficientFunds)
            } else if self.accumulated_protocol_fees + self.release_fee(
                ms[milestone_index as int].amount as int,
            ) > i128::MAX {
                Some(Error::PotentialOverflow)
            } else {
                None
            }
        }
    }

    /// Releases milestone `milestone_index` of contract `contract_id` on behalf
    /// of `caller`, once its approvals are live at `ledger`. Accrues the
    /// protocol fee, clears the milestone's approvals and completes the
    /// contract when every milestone is settled. The host transfers
    /// `amount - fee` from the escrow to the freelancer.
    pub fn release_milestone(&mut self, contract_id: u32, caller: AccountId, milestone_index: u32, ledger: u32) -> (r: Result<ReleaseOutcome, Error>)
        requires
            old(self).wf(),
        ensures
            final(self).wf(),
            match r {
                Err(e) => old(self).release_error(contract_id, caller, milestone_index, ledger)
                    == Some(e) && *final(self) == *old(self),
                Ok(out) => {
                    let c = old(self).contract_at(contract_id);
                    let m = old(self).milestones_at(contract_id)[milestone_index as int];
                    let ms2 = old(self).milestones_at(contract_id).update(
                        milestone_index as int,
                        released_milestone(m),
                    );
                    let c2 = Contract {
                        released_amount: (c.released_amount + m.amount) as i128,
                        status: if all_settled(ms2) {
                            ContractStatus::Completed
                        } else {
                            c.status
                        },
                        ..c
                    };
                    &&& old(self).release_error(contract_id, caller, milestone_index, ledger) is None
                    &&& out == ReleaseOutcome {
                        amount: m.amount,
                        fee: old(self).release_fee(m.amount as int) as i128,
                        completed: all_settled(ms2),
                    }
                    &&& final(self).contracts@ == old(self).contracts@.update(contract_id - 1, c2)
                    &&& final(self).milestones_at(contract_id) == ms2
                    &&& final(self).approvals_at(contract_id) == old(self).approvals_at(
                        contract_id,
                    ).update(milestone_index as int, None)
                    &&& final(self).others_unchanged(*old(self), contract_id)
                    &&& final(self).finalizations@ == old(self).finalizations@
                    &&& buckets(final(self).status_index@) == moved(
                        buckets(old(self).status_index@),
                        contract_id,
                        spec_status_code(c.status),
                        spec_status_code(c2.status),
                    )
                    &&& final(self).accumulated_protocol_fees == old(self).accumulated_protocol_fees
                        + old(self).release_fee(m.amount as int)
                    &&& !all_settled(ms2) ==> final(self).reputation_credits@ == old(
                        self,
                    ).reputation_credits@
                    &&& all_settled(ms2) ==> forall|g: AccountId|
                        #[trigger] final(self).credits_of(g) == old(self).credits_of(g) + if g
                            == c.freelancer {
                            1int
                        } else {
                            0int
                        }
                    &&& final(self).config_unchanged(
                        Escrow {
                            accumulated_protocol_fees: final(self).accumulated_protocol_fees,
                            ..*old(self)
                        },
                    )
                },
            },
    {
        self.require_not_paused()?;
        if contract_id == 0 || contract_id as usize > self.contracts.len() {
            return Err(Error::ContractNotFound);
        }
        let idx = (contract_id - 1) as usize;
        if self.finalizations[idx].is_some() {
            return Err(Error::AlreadyFinalized);
        }
        let c = self.contracts[idx];
        if c.status != ContractStatus::Funded {
            return Err(Error::InvalidState);
        }
        proof {
            assert(record_wf(self.contracts@[idx as int], self.milestones@[idx as int]@, self.approvals@[idx as int]@));
        }
        if !self.is_release_party_exec(&c, caller) {
            return Err(Error::UnauthorizedRole);
        }
        let j = milestone_index as usize;
        if j >= self.milestones[idx].len() {
            return Err(Error::InvalidMilestone);
        }
        let m = self.milestones[idx][j];
        if m.released {
            return Err(Error::AlreadyReleased);
        }
        if m.refunded {
            return Err(Error::AlreadyRefunded);
        }
        if !self.approvals_met(&c, idx, j, ledger) {
            return Err(Error::InsufficientApprovals);
        }
        let available = c.funded_amount - c.released_amount - c.refunded_amount;
        if available < m.amount {
            return Err(Error::InsufficientFunds);
        }
        let fee = self.fee_for(m.amount);
        let accumulated = match self.accumulated_protocol_fees.checked_add(fee) {
            Some(a) => a,
            None => return Err(Error::PotentialOverflow),
        };
        let ghost old_self = *self;
        let m2 = Milestone { released: true, ..m };
        self.milestones[idx].set(j, m2);
        self.approvals[idx].set(j, None);
        self.accumulated_protocol_fees = accumulated;
        let completed = milestones_settled(&self.milestones[idx]);
        let c2 = Contract {
            released_amount: c.released_amount + m.amount,
            status: if completed {
                ContractStatus::Completed
            } else {
                c.status
            },
            ..c
        };
        let ghost mid = *self;
        proof {
            assert(mid.statuses() =~= old_self.statuses());
            assert forall|f: AccountId| #[trigger] mid.credits_of(f)
                == crate::escrow::unrated_count(mid.contracts@, f) by {
                assert(old_self.credits_of(f) == crate::escrow::unrated_count(old_self.contracts@, f));
            }
            crate::escrow::lemma_wf_reputation_same(old_self, mid);
        }
        self.store_contract(contract_id, c2);
        proof {
            let ms2 = self.milestones@[idx as int]@;
            lemma_ms_total_update(old_self.milestones@[idx as int]@, j as int, m2);
            assert forall|k: int| 0 <= k < self.contracts@.len() implies record_wf(
                #[trigger] self.contracts@[k],
                self.milestones@[k]@,
                self.approvals@[k]@,
            ) by {
                assert(record_wf(
                    old_self.contracts@[k],
                    old_self.milestones@[k]@,
                    old_self.approvals@[k]@,
                ));
                if k == idx {
                    assert forall|t: int| 0 <= t < ms2.len() implies 0 < #[trigger] ms2[t].amount
                        <= crate::amount::MAX_SINGLE_AMOUNT_STROOPS && !(ms2[t].released
                        && ms2[t].refunded) by {
                        assert(old_self.milestones@[k]@[t].amount == ms2[t].amount);
                    }
                }
            }
        }
        Ok(ReleaseOutcome { amount: m.amount, fee, completed })
    }

    /// Whether `caller` may approve and release under `c`'s authorization mode.
    fn is_release_party_exec(&self, c: &Contract, caller: AccountId) -> (b: bool)
        ensures
            b == is_release_party(*c, caller),
    {
        let is_arbiter = match c.arbiter {
            Some(a) => a == caller,
            None => false,
        };
        match c.release_authorization {
            ReleaseAuthorization::ClientOnly => caller == c.client,
            ReleaseAuthorization::ArbiterOnly => is_arbiter,
            ReleaseAuthorization::ClientAndArbiter => caller == c.client || is_arbiter,
            ReleaseAuthorization::MultiSig => caller == c.client || caller == c.freelancer,
        }
    }

    /// Whether the live approvals of milestone `j` of record `idx` meet `c`'s
    /// authorization mode at `ledger`.
    fn approvals_met(&self, c: &Contract, idx: usize, j: usize, ledger: u32) -> (b: bool)
        requires
            idx < self.approvals@.len(),
            j < self.approvals@[idx as int]@.len(),
        ensures
            b == approvals_satisfied(*c, self.approvals@[idx as int]@[j as int], ledger),
    {
        match self.approvals[idx][j] {
            None => false,
            Some(x) => {
                if ledger > x.live_until_ledger {
                    false
                } else {
                    match c.release_authorization {
                        ReleaseAuthorization::ClientOnly => x.client_approved,
                        ReleaseAuthorization::ArbiterOnly => x.arbiter_approved,
                        ReleaseAuthorization::ClientAndArbiter => x.client_approved
                            || x.arbiter_approved,
                        ReleaseAuthorization::MultiSig => x.client_approved
                            && x.freelancer_approved,
                    }
                }
            },
        }
    }

    /// The fee withheld from a release of `amount` (a milestone amount).
    fn fee_for(&self, amount: i128) -> (fee: i128)
        requires
            self.protocol_fee_bps <= 10_000,
            0 < amount <= crate::amount::MAX_SINGLE_AMOUNT_STROOPS,
        ensures
            fee == self.release_fee(amount as int),
            0 <= fee <= amount,
    {
        if self.initialized && self.protocol_fee_bps > 0 {
            proof {
                assert(0 <= amount * self.protocol_fee_bps <= crate::amount::MAX_SINGLE_AMOUNT_STROOPS * 10_000) by (nonlinear_arith)
                    requires
                        0 < amount <= crate::amount::MAX_SINGLE_AMOUNT_STROOPS,
                        self.protocol_fee_bps <= 10_000,
                ;
            }
            calculate_protocol_fee(amount, self.protocol_fee_bps)
        } else {
            0
        }
    }
}

/// The error, if any, of releasing milestone `i` in a batch.
pub open spec fn index_error(c: Contract, ms: Seq<Milestone>, aps: Seq<Option<MilestoneApprovals>>, i: u32, ledger: u32) -> Option<Error> {
    if i >= ms.len() {
        Some(Error::IndexOutOfBounds)
    } else if ms[i as int].released {
        Some(Error::MilestoneAlreadyReleased)
    } else if ms[i as int].refunded {
        Some(Error::AlreadyRefunded)
    } else if !approvals_satisfied(c, aps[i as int], ledger) {
        Some(Error::InsufficientApprovals)
    } else {
        None
    }
}

/// The error of the first index of `idxs` that cannot be released.
pub open spec fn batch_index_error(c: Contract, ms: Seq<Milestone>, aps: Seq<Option<MilestoneApprovals>>, idxs: Seq<u32>, ledger: u32) -> Option<Error>
    decreases idxs.len(),
{
    if idxs.len() == 0 {
        None
    } else {
        match batch_index_error(c, ms, aps, idxs.drop_last(), ledger) {
            Some(e) => Some(e),
            None => index_error(c, ms, aps, idxs.last(), ledger),
        }
    }
}

/// Sum of the amounts of the milestones at `idxs`.
pub open spec fn batch_total(ms: Seq<Milestone>, idxs: Seq<u32>) -> int
    decreases idxs.len(),
{
    if idxs.len() == 0 {
        0
    } else {
        batch_total(ms, idxs.drop_last()) + ms[idxs.last() as int].amount
    }
}

/// `ms` with the milestones at `idxs` marked released.
pub open spec fn batch_released(ms: Seq<Milestone>, idxs: Seq<u32>) -> Seq<Milestone> {
    Seq::new(
        ms.len(),
        |j: int|
            if idxs.contains(j as u32) {
                released_milestone(ms[j])
            } else {
                ms[j]
            },
    )
}

/// `aps` with the approvals at `idxs` cleared.
pub open spec fn batch_cleared(aps: Seq<Option<MilestoneApprovals>>, idxs: Seq<u32>) -> Seq<Option<MilestoneApprovals>> {
    Seq::new(
        aps.len(),
        |j: int|
            if idxs.contains(j as u32) {
                None
            } else {
                aps[j]
            },
    )
}

/// A batch without a rejected index holds only releasable indices.
pub proof fn lemma_batch_valid(c: Contract, ms: Seq<Milestone>, aps: Seq<Option<MilestoneApprovals>>, idxs: Seq<u32>, ledger: u32)
    requires
        batch_index_error(c, ms, aps, idxs, ledger) is None,
    ensures
        forall|k: int| 0 <= k < idxs.len() ==> index_error(c, ms, aps, #[trigger] idxs[k], ledger) is None,
    decreases idxs.len(),
{
    if idxs.len() > 0 {
        lemma_batch_valid(c, ms, aps, idxs.drop_last(), ledger);
        assert forall|k: int| 0 <= k < idxs.len() implies index_error(c, ms, aps, #[trigger] idxs[k], ledger) is None by {
            if k < idxs.len() - 1 {
                assert(idxs.drop_last()[k] == idxs[k]);
            }
        }
    }
}

/// A rejected prefix makes the whole batch rejected with the same error.
pub proof fn lemma_batch_error_prefix(c: Contract, ms: Seq<Milestone>, aps: Seq<Option<MilestoneApprovals>>, idxs: Seq<u32>, n: int, ledger: u32)
    requires
        0 <= n <= idxs.len(),
        batch_index_error(c, ms, aps, idxs.take(n), ledger) is Some,
    ensures
        batch_index_error(c, ms, aps, idxs, ledger) == batch_index_error(c, ms, aps, idxs.take(n), ledger),
    decreases idxs.len() - n,
{
    if n < idxs.len() {
        assert(idxs.take(n + 1).drop_last() =~= idxs.take(n));
        lemma_batch_error_prefix(c, ms, aps, idxs, n + 1, ledger);
    } else {
        assert(idxs.take(n) =~= idxs);
    }
}

impl Escrow {
    /// Sum of the fees withheld from releasing the milestones at `idxs`.
    pub open spec fn batch_fee(self, ms: Seq<Milestone>, idxs: Seq<u32>) -> int
        decreases idxs.len(),
    {
        if idxs.len() == 0 {
            0
        } else {
            self.batch_fee(ms, idxs.drop_last()) + self.release_fee(ms[idxs.last() as int].amount as int)
        }
    }

    /// The error, if any, with which `release_milestones_batch` rejects.
    pub open spec fn batch_error(self, contract_id: u32, caller: AccountId, indices: Seq<u32>, ledger: u32) -> Option<Error> {
        if self.pause_error() is Some {
            self.pause_error()
        } else if indices.len() == 0 {
            Some(Error::EmptyBatchRelease)
        } else if !crate::status_index::no_dups(indices) {
            Some(Error::DuplicateMilestoneInBatch)
        } else if !self.has_contract(contract_id) {
            Some(Error::ContractNotFound)
        } else if self.is_finalized_at(contract_id) {
            Some(Error::AlreadyFinalized)
        } else {
            let c = self.contract_at(contract_id);
            let ms = self.milestones_at(contract_id);
            let aps = self.approvals_at(contract_id);
            if c.status != ContractStatus::Funded {
                Some(Error::InvalidState)
            } else if !is_release_party(c, caller) {
                Some(Error::UnauthorizedRole)
            } else if batch_index_error(c, ms, aps, indices, ledger) is Some {
                batch_index_error(c, ms, aps, indices, ledger)
            } else if c.funded_amount - c.released_amount - c.refunded_amount < batch_total(ms, indices) {
                Some(Error::InsufficientFunds)
            } else if self.accumulated_protocol_fees + self.batch_fee(ms, indices) > i128::MAX {
                Some(Error::PotentialOverflow)
            } else {
                None
            }
        }
    }

    /// Releases every milestone of `milestone_indices` at once, all or nothing,
    /// and returns the total amount released.
    pub fn release_milestones_batch(&mut self, contract_id: u32, caller: AccountId, milestone_indices: Vec<u32>, ledger: u32) -> (r: Result<i128, Error>)
        requires
            old(self).wf(),
        ensures
            final(self).wf(),
            match r {
                Err(e) => old(self).batch_error(contract_id, caller, milestone_indices@, ledger)
                    == Some(e) && *final(self) == *old(self),
                Ok(total) => {
                    let c = old(self).contract_at(contract_id);
                    let ms = old(self).milestones_at(contract_id);
                    let ms2 = batch_released(ms, milestone_indices@);
                    let c2 = Contract {
                        released_amount: (c.released_amount + total) as i128,
                        status: if all_settled(ms2) {
                            ContractStatus::Completed
                        } else {
                            c.status
                        },
                        ..c
                    };
                    &&& old(self).batch_error(contract_id, caller, milestone_indices@, ledger) is None
                    &&& total == batch_total(ms, milestone_indices@)
                    &&& final(self).contracts@ == old(self).contracts@.update(contract_id - 1, c2)
                    &&& final(self).milestones_at(contract_id) == ms2
                    &&& final(self).approvals_at(contract_id) == batch_cleared(
                        old(self).approvals_at(contract_id),
                        milestone_indices@,
                    )
                    &&& final(self).others_unchanged(*old(self), contract_id)
                    &&& final(self).finalizations@ == old(self).finalizations@
                    &&& buckets(final(self).status_index@) == moved(
                        buckets(old(self).status_index@),
                        contract_id,
                        spec_status_code(c.status),
                        spec_status_code(c2.status),
                    )
                    &&& final(self).accumulated_protocol_fees == old(self).accumulated_protocol_fees
                        + old(self).batch_fee(ms, milestone_indices@)
                    &&& !all_settled(ms2) ==> final(self).reputation_credits@ == old(
                        self,
                    ).reputation_credits@
                    &&& all_settled(ms2) ==> forall|g: AccountId|
                        #[trigger] final(self).credits_of(g) == old(self).credits_of(g) + if g
                            == c.freelancer {
                            1int
                        } else {
                            0int
                        }
                    &&& final(self).config_unchanged(
                        Escrow {
                            accumulated_protocol_fees: final(self).accumulated_protocol_fees,
                            ..*old(self)
                        },
                    )
                },
            },
    {
        self.require_not_paused()?;
        let n = milestone_indices.len();
        if n == 0 {
            return Err(Error::EmptyBatchRelease);
        }
        let ghost idxs = milestone_indices@;
        let mut a: usize = 0;
        while a < n
            invariant
                *self == *old(self),
                old(self).wf(),
                old(self).pause_error() is None,
                idxs == milestone_indices@,
                n == idxs.len(),
                a <= n,
                forall|x: int, y: int| 0 <= x < a && x < y < n ==> idxs[x] != idxs[y],
            decreases n - a,
        {
            let mut b: usize = a + 1;
            while b < n
                invariant
                    *self == *old(self),
                    old(self).wf(),
                    old(self).pause_error() is None,
                    idxs == milestone_indices@,
                    n == idxs.len(),
                    a < n,
                    a + 1 <= b <= n,
                    forall|x: int, y: int| 0 <= x < a && x < y < n ==> idxs[x] != idxs[y],
                    forall|y: int| a < y < b ==> idxs[a as int] != idxs[y],
                decreases n - b,
            {
                if milestone_indices[a] == milestone_indices[b] {
                    proof {
                        assert(idxs[a as int] == idxs[b as int]);
                        assert(!crate::status_index::no_dups(idxs));
                    }
                    return Err(Error::DuplicateMilestoneInBatch);
                }
                b = b + 1;
            }
            a = a + 1;
        }
        proof {
            assert forall|x: int, y: int| 0 <= x < idxs.len() && 0 <= y < idxs.len() && x != y implies idxs[x] != idxs[y] by {
                if x > y {
                    assert(idxs[y] != idxs[x]);
                }
            }
        }
        if contract_id == 0 || contract_id as usize > self.contracts.len() {
            return Err(Error::ContractNotFound);
        }
        let idx = (contract_id - 1) as usize;
        if self.finalizations[idx].is_some() {
            return Err(Error::AlreadyFinalized);
        }
        let c = self.contracts[idx];
        if c.status != ContractStatus::Funded {
            return Err(Error::InvalidState);
        }
        proof {
            assert(record_wf(self.contracts@[idx as int], self.milestones@[idx as int]@, self.approvals@[idx as int]@));
        }
        if !self.is_release_party_exec(&c, caller) {
            return Err(Error::UnauthorizedRole);
        }
        let ghost ms = self.milestones@[idx as int]@;
        let ghost aps = self.approvals@[idx as int]@;
        let mut total: i128 = 0;
        let mut total_fee: i128 = 0;
        let mut t: usize = 0;
        while t < n
            invariant
                *self == *old(self),
                old(self).wf(),
                old(self).batch_error(contract_id, caller, idxs, ledger) == (if batch_index_error(c, ms, aps, idxs, ledger) is Some {
                    batch_index_error(c, ms, aps, idxs, ledger)
                } else if c.funded_amount - c.released_amount - c.refunded_amount < batch_total(ms, idxs) {
                    Some(Error::InsufficientFunds)
                } else if old(self).accumulated_protocol_fees + old(self).batch_fee(ms, idxs) > i128::MAX {
                    Some(Error::PotentialOverflow)
                } else {
                    None
                }),
                idxs == milestone_indices@,
                n == idxs.len(),
                t <= n,
                idx < self.milestones@.len(),
                idx < self.approvals@.len(),
                ms == self.milestones@[idx as int]@,
                aps == self.approvals@[idx as int]@,
                aps.len() == ms.len(),
                self.protocol_fee_bps <= 10_000,
                forall|j: int| 0 <= j < ms.len() ==> 0 < #[trigger] ms[j].amount <= crate::amount::MAX_SINGLE_AMOUNT_STROOPS,
                batch_index_error(c, ms, aps, idxs.take(t as int), ledger) is None,
                total == batch_total(ms, idxs.take(t as int)),
                total_fee == self.batch_fee(ms, idxs.take(t as int)),
                0 <= total_fee <= total <= t * crate::amount::MAX_SINGLE_AMOUNT_STROOPS,
            decreases n - t,
        {
            let p = milestone_indices[t];
            proof {
                assert(idxs.take(t + 1).drop_last() =~= idxs.take(t as int));
                assert(idxs.take(t + 1).last() == p);
            }
            if p as usize >= self.milestones[idx].len() {
                proof {
                    lemma_batch_error_prefix(c, ms, aps, idxs, t + 1, ledger);
                }
                return Err(Error::IndexOutOfBounds);
            }
            let m = self.milestones[idx][p as usize];
            if m.released {
                proof {
                    lemma_batch_error_prefix(c, ms, aps, idxs, t + 1, ledger);
                }
                return Err(Error::MilestoneAlreadyReleased);
            }
            if m.refunded {
                proof {
                    lemma_batch_error_prefix(c, ms, aps, idxs, t + 1, ledger);
                }
                return Err(Error::AlreadyRefunded);
            }
            if !self.approvals_met(&c, idx, p as usize, ledger) {
                proof {
                    lemma_batch_error_prefix(c, ms, aps, idxs, t + 1, ledger);
                }
                return Err(Error::InsufficientApprovals);
            }
            let fee = self.fee_for(m.amount);
            total = total + m.amount;
            total_fee = total_fee + fee;
            t = t + 1;
        }
        proof {
            assert(idxs.take(n as int) =~= idxs);
            assert(n <= usize::MAX);
        }
        let available = c.funded_amount - c.released_amount - c.refunded_amount;
        if available < total {
            return Err(Error::InsufficientFunds);
        }
        let accumulated = match self.accumulated_protocol_fees.checked_add(total_fee) {
            Some(v) => v,
            None => return Err(Error::PotentialOverflow),
        };
        proof {
            lemma_batch_valid(c, ms, aps, idxs, ledger);
        }
        let ghost old_self = *self;
        let mut t: usize = 0;
        while t < n
            invariant
                idxs == milestone_indices@,
                n == idxs.len(),
                t <= n,
                crate::status_index::no_dups(idxs),
                forall|k: int| 0 <= k < idxs.len() ==> index_error(c, ms, aps, #[trigger] idxs[k], ledger) is None,
                old_self.wf(),
                idx < old_self.contracts@.len(),
                ms.len() <= crate::constants::MAX_MILESTONES,
                ms == old_self.milestones@[idx as int]@,
                aps == old_self.approvals@[idx as int]@,
                aps.len() == ms.len(),
                *self == (Escrow { milestones: self.milestones, approvals: self.approvals, ..old_self }),
                self.milestones@.len() == old_self.milestones@.len(),
                self.approvals@.len() == old_self.approvals@.len(),
                forall|k: int| 0 <= k < self.milestones@.len() && k != idx ==> #[trigger] self.milestones@[k] == old_self.milestones@[k],
                forall|k: int| 0 <= k < self.approvals@.len() && k != idx ==> #[trigger] self.approvals@[k] == old_self.approvals@[k],
                self.milestones@[idx as int]@ == batch_released(ms, idxs.take(t as int)),
                self.approvals@[idx as int]@ == batch_cleared(aps, idxs.take(t as int)),
                ms_total(self.milestones@[idx as int]@) == ms_total(ms),
            decreases n - t,
        {
            let p = milestone_indices[t] as usize;
            proof {
                assert(index_error(c, ms, aps, idxs[t as int], ledger) is None);
                assert(!idxs.take(t as int).contains(p as u32)) by {
                    if idxs.take(t as int).contains(p as u32) {
                        let k = choose|k: int| 0 <= k < t && #[trigger] idxs.take(t as int)[k] == p as u32;
                        assert(idxs[k] == idxs[t as int]);
                    }
                }
            }
            let ghost before = self.milestones@[idx as int]@;
            let m = self.milestones[idx][p];
            let m2 = Milestone { released: true, ..m };
            self.milestones[idx].set(p, m2);
            self.approvals[idx].set(p, None);
            proof {
                lemma_ms_total_update(before, p as int, m2);
                assert forall|j: int| 0 <= j < ms.len() implies #[trigger] idxs.take(t + 1).contains(j as u32)
                    == (idxs.take(t as int).contains(j as u32) || j == p) by {
                    if idxs.take(t + 1).contains(j as u32) {
                        let k = choose|k: int| 0 <= k < t + 1 && #[trigger] idxs.take(t + 1)[k] == j as u32;
                        if k < t {
                            assert(idxs.take(t as int)[k] == j as u32);
                        }
                    }
                    if idxs.take(t as int).contains(j as u32) {
                        let k = choose|k: int| 0 <= k < t && #[trigger] idxs.take(t as int)[k] == j as u32;
                        assert(idxs.take(t + 1)[k] == j as u32);
                    }
                    if j == p {
                        assert(idxs.take(t + 1)[t as int] == j as u32);
                    }
                }
                assert(self.milestones@[idx as int]@ =~= batch_released(ms, idxs.take(t + 1)));
                assert(self.approvals@[idx as int]@ =~= batch_cleared(aps, idxs.take(t + 1)));
            }
            t = t + 1;
        }
        proof {
            assert(idxs.take(n as int) =~= idxs);
        }
        self.accumulated_protocol_fees = accumulated;
        let completed = milestones_settled(&self.milestones[idx]);
        let c2 = Contract {
            released_amount: c.released_amount + total,
            status: if completed {
                ContractStatus::Completed
            } else {
                c.status
            },
            ..c
        };
        let ghost mid = *self;
        proof {
            assert(mid.statuses() =~= old_self.statuses());
            assert forall|f: AccountId| #[trigger] mid.credits_of(f)
                == crate::escrow::unrated_count(mid.contracts@, f) by {
                assert(old_self.credits_of(f) == crate::escrow::unrated_count(old_self.contracts@, f));
            }
            crate::escrow::lemma_wf_reputation_same(old_self, mid);
        }
        self.store_contract(contract_id, c2);
        proof {
            let ms2 = self.milestones@[idx as int]@;
            assert forall|k: int| 0 <= k < self.contracts@.len() implies record_wf(
                #[trigger] self.contracts@[k],
                self.milestones@[k]@,
                self.approvals@[k]@,
            ) by {
                assert(record_wf(
                    old_self.contracts@[k],
                    old_self.milestones@[k]@,
                    old_self.approvals@[k]@,
                ));
                if k == idx {
                    assert forall|j: int| 0 <= j < ms2.len() implies 0 < #[trigger] ms2[j].amount
                        <= crate::amount::MAX_SINGLE_AMOUNT_STROOPS && !(ms2[j].released
                        && ms2[j].refunded) by {
                        if idxs.contains(j as u32) {
                            let q = choose|q: int| 0 <= q < idxs.len() && #[trigger] idxs[q] == j as u32;
                            assert(index_error(c, ms, aps, idxs[q], ledger) is None);
                        }
                    }
                }
            }
        }
        Ok(total)
    }
}

} // verus!
