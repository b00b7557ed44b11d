//! Refunds of unreleased milestones back to the client, and milestone
//! deadlines.

use vstd::prelude::*;

use crate::escrow::{lemma_ms_total_update, ms_total, record_wf, Escrow};
use crate::release::{all_settled, batch_total, milestones_settled};
use crate::status_index::{buckets, moved, no_dups, spec_status_code};
use crate::types::{AccountId, Contract, ContractStatus, Error, Milestone};

verus! {

/// Milestone `m` refunded in full.
pub open spec fn refunded_milestone(m: Milestone) -> Milestone {
    Milestone { refunded: true, refunded_amount: m.amount, ..m }
}

/// Whether milestone `m` carries a deadline that has passed at `now` (seconds).
pub open spec fn overdue(m: Milestone, now: u64) -> bool {
    match m.deadline {
        Some(d) => now > d,
        None => false,
    }
}

/// The error, if any, of refunding milestone `i` of `ms` at time `now`.
pub open spec fn refund_index_error(ms: Seq<Milestone>, i: u32, now: u64) -> Option<Error> {
    if i >= ms.len() {
        Some(Error::IndexOutOfBounds)
    } else if ms[i as int].released {
        Some(Error::AlreadyReleased)
    } else if ms[i as int].refunded {
        Some(Error::AlreadyRefunded)
    } else if ms[i as int].deadline is Some && !overdue(ms[i as int], now) {
        Some(Error::MilestoneNotOverdue)
    } else {
        None
    }
}

/// The error of the first index of `idxs` that cannot be refunded.
pub open spec fn refund_indices_error(ms: Seq<Milestone>, idxs: Seq<u32>, now: u64) -> Option<Error>
    decreases idxs.len(),
{
    if idxs.len() == 0 {
        None
    } else {
        match refund_indices_error(ms, idxs.drop_last(), now) {
            Some(e) => Some(e),
            None => refund_index_error(ms, idxs.last(), now),
        }
    }
}

/// `ms` with the milestones at `idxs` refunded.
pub open spec fn batch_refunded(ms: Seq<Milestone>, idxs: Seq<u32>) -> Seq<Milestone> {
    Seq::new(
        ms.len(),
        |j: int|
            if idxs.contains(j as u32) {
                refunded_milestone(ms[j])
            } else {
                ms[j]
            },
    )
}

/// Whether every milestone is refunded.
pub open spec fn all_refunded(ms: Seq<Milestone>) -> bool {
    forall|j: int| 0 <= j < ms.len() ==> #[trigger] ms[j].refunded
}

/// The status after a refund leaves milestones `ms`: `Refunded` when all of
/// them are refunded, `Completed` when all are settled and some released,
/// `status` otherwise.
pub open spec fn status_after_refund(ms: Seq<Milestone>, status: ContractStatus) -> ContractStatus {
    if all_settled(ms) {
        if all_refunded(ms) {
            ContractStatus::Refunded
        } else {
            ContractStatus::Completed
        }
    } else {
        status
    }
}

/// A refund request without a rejected index holds only refundable indices.
pub proof fn lemma_refund_indices_valid(ms: Seq<Milestone>, idxs: Seq<u32>, now: u64)
    requires
        refund_indices_error(ms, idxs, now) is None,
    ensures
        forall|k: int| 0 <= k < idxs.len() ==> refund_index_error(ms, #[trigger] idxs[k], now) is None,
    decreases idxs.len(),
{
    if idxs.len() > 0 {
        lemma_refund_indices_valid(ms, idxs.drop_last(), now);
        assert forall|k: int| 0 <= k < idxs.len() implies refund_index_error(ms, #[trigger] idxs[k], now) is None by {
            if k < idxs.len() - 1 {
                assert(idxs.drop_last()[k] == idxs[k]);
            }
        }
    }
}

/// A rejected prefix makes the whole request rejected with the same error.
pub proof fn lemma_refund_error_prefix(ms: Seq<Milestone>, idxs: Seq<u32>, n: int, now: u64)
    requires
        0 <= n <= idxs.len(),
        refund_indices_error(ms, idxs.take(n), now) is Some,
    ensures
        refund_indices_error(ms, idxs, now) == refund_indices_error(ms, idxs.take(n), now),
    decreases idxs.len() - n,
{
    if n < idxs.len() {
        assert(idxs.take(n + 1).drop_last() =~= idxs.take(n));
        lemma_refund_error_prefix(ms, idxs, n + 1, now);
    } else {
        assert(idxs.take(n) =~= idxs);
    }
}

/// Whether every milestone of `ms` is refunded.
pub fn milestones_all_refunded(ms: &Vec<Milestone>) -> (b: bool)
    ensures
        b == all_refunded(ms@),
{
    let mut i: usize = 0;
    while i < ms.len()
        invariant
            i <= ms@.len(),
            forall|j: int| 0 <= j < i ==> #[trigger] ms@[j].refunded,
        decreases ms@.len() - i,
    {
        if !ms[i].refunded {
            return false;
        }
        i = i + 1;
    }
    true
}

impl Escrow {
    /// Whether milestone `milestone_index` of contract `contract_id` has a
    /// deadline that has passed at `now` (strictly later than the deadline).
    pub fn is_milestone_overdue(&self, contract_id: u32, milestone_index: u32, now: u64) -> (b: bool)
        requires
            self.wf(),
        ensures
            b == (self.has_contract(contract_id) && milestone_index < self.milestones_at(
                contract_id,
            ).len() && overdue(self.milestones_at(contract_id)[milestone_index as int], now)),
    {
        if contract_id == 0 || contract_id as usize > self.contracts.len() {
            return false;
        }
        let idx = (contract_id - 1) as usize;
        if milestone_index as usize >= self.milestones[idx].len() {
            return false;
        }
        match self.milestones[idx][milestone_index as usize].deadline {
            Some(d) => now > d,
            None => false,
        }
    }

    /// The error, if any, with which `refund_unreleased_milestones` rejects.
    pub open spec fn refund_error(self, contract_id: u32, indices: Seq<u32>, now: u64) -> Option<Error> {
        if !self.initialized {
            Some(Error::NotInitialized)
        } else if self.pause_error() is Some {
            self.pause_error()
        } else if indices.len() == 0 {
            Some(Error::EmptyRefundRequest)
        } else if !no_dups(indices) {
            Some(Error::DuplicateMilestoneInRefund)
        } else if !self.has_contract(contract_id) {
            Some(Error::ContractNotFound)
        } else if self.is_finalized_at(contract_id) {
            Some(Error::AlreadyFinalized)
        } else {
            let c = self.contract_at(contract_id);
            let ms = self.milestones_at(contract_id);
            if c.status == ContractStatus::Refunded {
                Some(Error::ContractRefunded)
            } else if c.status == ContractStatus::Cancelled {
                Some(Error::ContractCancelled)
            } else if c.status != ContractStatus::Funded {
                Some(Error::InvalidState)
            } else if refund_indices_error(ms, indices, now) is Some {
                refund_indices_error(ms, indices, now)
            } else if c.funded_amount - c.released_amount - c.refunded_amount < batch_total(ms, indices) {
                Some(Error::InsufficientFunds)
            } else {
                None
            }
        }
    }

    /// Refunds the milestones at `milestone_indices` of a funded contract to
    /// its client, all or nothing, at time `now` (seconds); a milestone with
    /// a deadline is refundable only once the deadline has passed. Returns
    /// the total refunded, which the host transfers to the client. The
    /// contract ends `Refunded` once every milestone is refunded, `Completed`
    /// once every milestone is settled and some were released (earning the
    /// freelancer a reputation credit).
    pub fn refund_unreleased_milestones(&mut self, contract_id: u32, milestone_indices: Vec<u32>, now: u64) -> (r: Result<i128, Error>)
        requires
            old(self).wf(),
        ensures
            final(self).wf(),
            match r {
                Err(e) => old(self).refund_error(contract_id, milestone_indices@, now) == Some(e)
                    && *final(self) == *old(self),
                Ok(total) => {
                    let c = old(self).contract_at(contract_id);
                    let ms = old(self).milestones_at(contract_id);
                    let ms2 = batch_refunded(ms, milestone_indices@);
                    let c2 = Contract {
                        refunded_amount: (c.refunded_amount + total) as i128,
                        status: status_after_refund(ms2, c.status),
                        ..c
                    };
                    &&& old(self).refund_error(contract_id, milestone_indices@, now) is None
                    &&& total == batch_total(ms, milestone_indices@)
                    &&& final(self).contracts@ == old(self).contracts@.update(contract_id - 1, c2)
                    &&& final(self).milestones_at(contract_id) == ms2
                    &&& final(self).others_unchanged(*old(self), contract_id)
                    &&& final(self).approvals@ == old(self).approvals@
                    &&& final(self).finalizations@ == old(self).finalizations@
                    &&& buckets(final(self).status_index@) == moved(
                        buckets(old(self).status_index@),
                        contract_id,
                        spec_status_code(c.status),
                        spec_status_code(c2.status),
                    )
                    &&& !(c2.status == ContractStatus::Completed) ==> final(self).reputation_credits@
                        == old(self).reputation_credits@
                    &&& c2.status == ContractStatus::Completed ==> forall|g: AccountId|
                        #[trigger] final(self).credits_of(g) == old(self).credits_of(g) + if g
                            == c.freelancer {
                            1int
                        } else {
                            0int
                        }
                    &&& final(self).config_unchanged(*old(self))
                },
            },
    {
        self.require_initialized()?;
        self.require_not_paused()?;
        let n = milestone_indices.len();
        if n == 0 {
            return Err(Error::EmptyRefundRequest);
        }
        let ghost idxs = milestone_indices@;
        let mut a: usize = 0;
        while a < n
            invariant
                *self == *old(self),
                old(self).wf(),
                old(self).initialized,
                old(self).pause_error() is None,
                idxs == milestone_indices@,
                n == idxs.len(),
                a <= n,
                forall|x: int, y: int| 0 <= x < a && x < y < n ==> idxs[x] != idxs[y],
            decreases n - a,
        {
            let mut b: usize = a + 1;
            while b < n
                invariant
                    *self == *old(self),
                    old(self).wf(),
                    old(self).initialized,
                    old(self).pause_error() is None,
                    idxs == milestone_indices@,
                    n == idxs.len(),
                    a < n,
                    a + 1 <= b <= n,
                    forall|x: int, y: int| 0 <= x < a && x < y < n ==> idxs[x] != idxs[y],
                    forall|y: int| a < y < b ==> idxs[a as int] != idxs[y],
                decreases n - b,
            {
                if milestone_indices[a] == milestone_indices[b] {
                    proof {
                        assert(idxs[a as int] == idxs[b as int]);
                        assert(!no_dups(idxs));
                    }
                    return Err(Error::DuplicateMilestoneInRefund);
                }
                b = b + 1;
            }
            a = a + 1;
        }
        proof {
            assert forall|x: int, y: int| 0 <= x < idxs.len() && 0 <= y < idxs.len() && x != y implies idxs[x] != idxs[y] by {
                if x > y {
                    assert(idxs[y] != idxs[x]);
                }
            }
        }
        if contract_id == 0 || contract_id as usize > self.contracts.len() {
            return Err(Error::ContractNotFound);
        }
        let idx = (contract_id - 1) as usize;
        if self.finalizations[idx].is_some() {
            return Err(Error::AlreadyFinalized);
        }
        let c = self.contracts[idx];
        if c.status == ContractStatus::Refunded {
            return Err(Error::ContractRefunded);
        }
        if c.status == ContractStatus::Cancelled {
            return Err(Error::ContractCancelled);
        }
        if c.status != ContractStatus::Funded {
            return Err(Error::InvalidState);
        }
        proof {
            assert(record_wf(self.contracts@[idx as int], self.milestones@[idx as int]@, self.approvals@[idx as int]@));
        }
        let ghost ms = self.milestones@[idx as int]@;
        let mut total: i128 = 0;
        let mut t: usize = 0;
        while t < n
            invariant
                *self == *old(self),
                old(self).wf(),
                old(self).refund_error(contract_id, idxs, now) == (if refund_indices_error(ms, idxs, now) is Some {
                    refund_indices_error(ms, idxs, now)
                } else if c.funded_amount - c.released_amount - c.refunded_amount < batch_total(ms, idxs) {
                    Some(Error::InsufficientFunds)
                } else {
                    None
                }),
                idxs == milestone_indices@,
                n == idxs.len(),
                t <= n,
                idx < self.milestones@.len(),
                ms == self.milestones@[idx as int]@,
                forall|j: int| 0 <= j < ms.len() ==> 0 < #[trigger] ms[j].amount <= crate::amount::MAX_SINGLE_AMOUNT_STROOPS,
                refund_indices_error(ms, idxs.take(t as int), now) is None,
                total == batch_total(ms, idxs.take(t as int)),
                0 <= total <= t * crate::amount::MAX_SINGLE_AMOUNT_STROOPS,
            decreases n - t,
        {
            let p = milestone_indices[t];
            proof {
                assert(idxs.take(t + 1).drop_last() =~= idxs.take(t as int));
                assert(idxs.take(t + 1).last() == p);
            }
            if p as usize >= self.milestones[idx].len() {
                proof {
                    lemma_refund_error_prefix(ms, idxs, t + 1, now);
                }
                return Err(Error::IndexOutOfBounds);
            }
            let m = self.milestones[idx][p as usize];
            if m.released {
                proof {
                    lemma_refund_error_prefix(ms, idxs, t + 1, now);
                }
                return Err(Error::AlreadyReleased);
            }
            if m.refunded {
                proof {
                    lemma_refund_error_prefix(ms, idxs, t + 1, now);
                }
                return Err(Error::AlreadyRefunded);
            }
            match m.deadline {
                Some(d) => {
                    if now <= d {
                        proof {
                            lemma_refund_error_prefix(ms, idxs, t + 1, now);
                        }
                        return Err(Error::MilestoneNotOverdue);
                    }
                },
                None => {},
            }
            total = total + m.amount;
            t = t + 1;
        }
        proof {
            assert(idxs.take(n as int) =~= idxs);
            assert(n <= usize::MAX);
        }
        let available = c.funded_amount - c.released_amount - c.refunded_amount;
        if available < total {
            return Err(Error::InsufficientFunds);
        }
        proof {
            lemma_refund_indices_valid(ms, idxs, now);
        }
        let ghost old_self = *self;
        let mut t: usize = 0;
        while t < n
            invariant
                idxs == milestone_indices@,
                n == idxs.len(),
                t <= n,
                no_dups(idxs),
                forall|k: int| 0 <= k < idxs.len() ==> refund_index_error(ms, #[trigger] idxs[k], now) is None,
                old_self.wf(),
                idx < old_self.contracts@.len(),
                ms.len() <= crate::constants::MAX_MILESTONES,
                ms == old_self.milestones@[idx as int]@,
                *self == (Escrow { milestones: self.milestones, ..old_self }),
                self.milestones@.len() == old_self.milestones@.len(),
                forall|k: int| 0 <= k < self.milestones@.len() && k != idx ==> #[trigger] self.milestones@[k] == old_self.milestones@[k],
                self.milestones@[idx as int]@ == batch_refunded(ms, idxs.take(t as int)),
                ms_total(self.milestones@[idx as int]@) == ms_total(ms),
            decreases n - t,
        {
            let p = milestone_indices[t] as usize;
            proof {
                assert(refund_index_error(ms, idxs[t as int], now) is None);
                assert(!idxs.take(t as int).contains(p as u32)) by {
                    if idxs.take(t as int).contains(p as u32) {
                        let k = choose|k: int| 0 <= k < t && #[trigger] idxs.take(t as int)[k] == p as u32;
                        assert(idxs[k] == idxs[t as int]);
                    }
                }
            }
            let ghost before = self.milestones@[idx as int]@;
            let m = self.milestones[idx][p];
            let m2 = Milestone { refunded: true, refunded_amount: m.amount, ..m };
            self.milestones[idx].set(p, m2);
            proof {
                lemma_ms_total_update(before, p as int, m2);
                assert forall|j: int| 0 <= j < ms.len() implies #[trigger] idxs.take(t + 1).contains(j as u32)
                    == (idxs.take(t as int).contains(j as u32) || j == p) by {
                    if idxs.take(t + 1).contains(j as u32) {
                        let k = choose|k: int| 0 <= k < t + 1 && #[trigger] idxs.take(t + 1)[k] == j as u32;
                        if k < t {
                            assert(idxs.take(t as int)[k] == j as u32);
                        }
                    }
                    if idxs.take(t as int).contains(j as u32) {
                        let k = choose|k: int| 0 <= k < t && #[trigger] idxs.take(t as int)[k] == j as u32;
                        assert(idxs.take(t + 1)[k] == j as u32);
                    }
                    if j == p {
                        assert(idxs.take(t + 1)[t as int] == j as u32);
                    }
                }
                assert(self.milestones@[idx as int]@ =~= batch_refunded(ms, idxs.take(t + 1)));
            }
            t = t + 1;
        }
        proof {
            assert(idxs.take(n as int) =~= idxs);
        }
        let settled = milestones_settled(&self.milestones[idx]);
        let all_back = milestones_all_refunded(&self.milestones[idx]);
        let status = if settled {
            if all_back {
                ContractStatus::Refunded
            } else {
                ContractStatus::Completed
            }
        } else {
            c.status
        };
        let c2 = Contract { refunded_amount: c.refunded_amount + total, status, ..c };
        let ghost mid = *self;
        proof {
            assert(mid.statuses() =~= old_self.statuses());
            assert forall|f: AccountId| #[trigger] mid.credits_of(f)
                == crate::escrow::unrated_count(mid.contracts@, f) by {
                assert(old_self.credits_of(f) == crate::escrow::unrated_count(old_self.contracts@, f));
            }
            crate::escrow::lemma_wf_reputation_same(old_self, mid);
        }
        self.store_contract(contract_id, c2);
        proof {
            let ms2 = self.milestones@[idx as int]@;
            assert forall|k: int| 0 <= k < self.contracts@.len() implies record_wf(
                #[trigger] self.contracts@[k],
                self.milestones@[k]@,
                self.approvals@[k]@,
            ) by {
                assert(record_wf(
                    old_self.contracts@[k],
                    old_self.milestones@[k]@,
                    old_self.approvals@[k]@,
                ));
                if k == idx {
                    assert forall|j: int| 0 <= j < ms2.len() implies 0 < #[trigger] ms2[j].amount
                        <= crate::amount::MAX_SINGLE_AMOUNT_STROOPS && !(ms2[j].released
                        && ms2[j].refunded) by {
                        if idxs.contains(j as u32) {
                            let q = choose|q: int| 0 <= q < idxs.len() && #[trigger] idxs[q] == j as u32;
                            assert(refund_index_error(ms, idxs[q], now) is None);
                        }
                    }
                }
            }
        }
        Ok(total)
    }

    /// The error, if any, with which `claim_timeout_refund` rejects.
    pub open spec fn timeout_refund_error(self, contract_id: u32, milestone_index: u32, now: u64) -> Option<Error> {
        if self.pause_error() is Some {
            self.pause_error()
        } else if !self.has_contract(contract_id) {
            Some(Error::ContractNotFound)
        } else if self.is_finalized_at(contract_id) {
            Some(Error::AlreadyFinalized)
        } else {
            let c = self.contract_at(contract_id);
            let ms = self.milestones_at(contract_id);
            let i = milestone_index as int;
            if c.status != ContractStatus::Created && c.status != ContractStatus::Funded && c.status
                != ContractStatus::PartiallyFunded {
                Some(Error::InvalidState)
            } else if milestone_index >= ms.len() {
                Some(Error::IndexOutOfBounds)
            } else if ms[i].released {
                Some(Error::AlreadyReleased)
            } else if ms[i].refunded {
                Some(Error::AlreadyRefunded)
            } else if !overdue(ms[i], now) {
                Some(Error::DeadlineNotPassed)
            } else if c.funded_amount - c.released_amount - c.refunded_amount < ms[i].amount {
                Some(Error::InsufficientFunds)
            } else {
                None
            }
        }
    }

    /// Once the deadline of milestone `milestone_index` has passed at time
    /// `now` (seconds; at the deadline itself it has not), refunds that
    /// milestone to the client and returns its amount, which the host
    /// transfers to the client. A milestone without a deadline never times
    /// out. The contract ends `Refunded` once every milestone is refunded,
    /// `Completed` once every milestone is settled and some were released
    /// (earning the freelancer a reputation credit).
    pub fn claim_timeout_refund(&mut self, contract_id: u32, milestone_index: u32, now: u64) -> (r: Result<i128, Error>)
        requires
            old(self).wf(),
        ensures
            final(self).wf(),
            match r {
                Err(e) => old(self).timeout_refund_error(contract_id, milestone_index, now) == Some(e)
                    && *final(self) == *old(self),
                Ok(amount) => {
                    let c = old(self).contract_at(contract_id);
                    let ms = old(self).milestones_at(contract_id);
                    let ms2 = ms.update(milestone_index as int, refunded_milestone(ms[milestone_index as int]));
                    let c2 = Contract {
                        refunded_amount: (c.refunded_amount + amount) as i128,
                        status: status_after_refund(ms2, c.status),
                        ..c
                    };
                    &&& old(self).timeout_refund_error(contract_id, milestone_index, now) is None
                    &&& amount == ms[milestone_index as int].amount
                    &&& final(self).contracts@ == old(self).contracts@.update(contract_id - 1, c2)
                    &&& final(self).milestones_at(contract_id) == ms2
                    &&& final(self).others_unchanged(*old(self), contract_id)
                    &&& final(self).approvals@ == old(self).approvals@
                    &&& final(self).finalizations@ == old(self).finalizations@
                    &&& buckets(final(self).status_index@) == moved(
                        buckets(old(self).status_index@),
                        contract_id,
                        spec_status_code(c.status),
                        spec_status_code(c2.status),
                    )
                    &&& !(c2.status == ContractStatus::Completed) ==> final(self).reputation_credits@
                        == old(self).reputation_credits@
                    &&& c2.status == ContractStatus::Completed ==> forall|g: AccountId|
                        #[trigger] final(self).credits_of(g) == old(self).credits_of(g) + if g
                            == c.freelancer {
                            1int
                        } else {
                            0int
                        }
                    &&& final(self).config_unchanged(*old(self))
                },
            },
    {
        self.require_not_paused()?;
        if contract_id == 0 || contract_id as usize > self.contracts.len() {
            return Err(Error::ContractNotFound);
        }
        let idx = (contract_id - 1) as usize;
        if self.finalizations[idx].is_some() {
            return Err(Error::AlreadyFinalized);
        }
        let c = self.contracts[idx];
        if c.status != ContractStatus::Created && c.status != ContractStatus::Funded && c.status
            != ContractStatus::PartiallyFunded {
            return Err(Error::InvalidState);
        }
        proof {
            assert(record_wf(self.contracts@[idx as int], self.milestones@[idx as int]@, self.approvals@[idx as int]@));
        }
        let j = milestone_index as usize;
        if j >= self.milestones[idx].len() {
            return Err(Error::IndexOutOfBounds);
        }
        let m = self.milestones[idx][j];
        if m.released {
            return Err(Error::AlreadyReleased);
        }
        if m.refunded {
            return Err(Error::AlreadyRefunded);
        }
        match m.deadline {
            Some(d) => {
                if now <= d {
                    return Err(Error::DeadlineNotPassed);
                }
            },
            None => {
                return Err(Error::DeadlineNotPassed);
            },
        }
        let available = c.funded_amount - c.released_amount - c.refunded_amount;
        if available < m.amount {
            return Err(Error::InsufficientFunds);
        }
        let ghost old_self = *self;
        let ghost ms = self.milestones@[idx as int]@;
        let m2 = Milestone { refunded: true, refunded_amount: m.amount, ..m };
        self.milestones[idx].set(j, m2);
        proof {
            lemma_ms_total_update(ms, j as int, m2);
            assert(self.milestones@[idx as int]@ == ms.update(j as int, m2));
        }
        let settled = milestones_settled(&self.milestones[idx]);
        let all_back = milestones_all_refunded(&self.milestones[idx]);
        let status = if settled {
            if all_back {
                ContractStatus::Refunded
            } else {
                ContractStatus::Completed
            }
        } else {
            c.status
        };
        let c2 = Contract { refunded_amount: c.refunded_amount + m.amount, status, ..c };
        let ghost mid = *self;
        proof {
            assert(mid.statuses() =~= old_self.statuses());
            assert forall|f: AccountId| #[trigger] mid.credits_of(f)
                == crate::escrow::unrated_count(mid.contracts@, f) by {
                assert(old_self.credits_of(f) == crate::escrow::unrated_count(old_self.contracts@, f));
            }
            crate::escrow::lemma_wf_reputation_same(old_self, mid);
        }
        self.store_contract(contract_id, c2);
        proof {
            let ms2 = self.milestones@[idx as int]@;
            assert forall|k: int| 0 <= k < self.contracts@.len() implies record_wf(
                #[trigger] self.contracts@[k],
                self.milestones@[k]@,
                self.approvals@[k]@,
            ) by {
                assert(record_wf(
                    old_self.contracts@[k],
                    old_self.milestones@[k]@,
                    old_self.approvals@[k]@,
                ));
                if k == idx {
                    assert forall|q: int| 0 <= q < ms2.len() implies 0 < #[trigger] ms2[q].amount
                        <= crate::amount::MAX_SINGLE_AMOUNT_STROOPS && !(ms2[q].released
                        && ms2[q].refunded) by {
                        assert(ms[q].amount == ms2[q].amount);
                    }
                }
            }
        }
        Ok(m.amount)
    }
}

} // verus!
