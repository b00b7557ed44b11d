//! The escrow ledger: every contract, its milestones and approvals, plus the
//! protocol configuration, with the setup, creation and funding entrypoints.

use vstd::prelude::*;

use crate::amount::{
    amounts_error, deposit_result, single_amount_error, sum_amounts, validate_deposit_amount,
    validate_milestone_amounts, MAX_SINGLE_AMOUNT_STROOPS,
};
use crate::constants::MAX_MILESTONES;
use crate::status_index::{
    buckets, index_consistent, index_new_contract, lemma_index_move, lemma_index_push, moved,
    spec_status_code, update_status_index, STATUS_BUCKETS,
};
use crate::types::{
    AccountId, Contract, ContractStatus, ContractSummary, Error, GovernedParameters, Milestone,
    MilestoneApprovals, PendingAdminProposal, ReadinessChecklist, ReleaseAuthorization,
    DisputeConfig, PendingClientMigration, Reputation,
};

verus! {

/// Immutable close metadata written when a contract is finalized.
#[derive(Clone, Debug)]
pub struct FinalizationRecord {
    /// The participant that finalized.
    pub finalizer: AccountId,
    /// Ledger timestamp at finalization.
    pub timestamp: u64,
    /// Snapshot of participants, milestones and accounting.
    pub summary: ContractSummary,
}

/// The aggregate reputation of one freelancer.
#[derive(Clone, Copy, Debug, PartialEq, Eq, Structural)]
pub struct ReputationEntry {
    pub freelancer: AccountId,
    pub record: Reputation,
}

/// Pending reputation credits recorded for a freelancer.
#[derive(Clone, Copy, Debug, PartialEq, Eq, Structural)]
pub struct ReputationCredit {
    pub freelancer: AccountId,
    pub credits: i128,
}

/// The whole escrow ledger. Contract `id` (ids start at 1) is held at
/// position `id - 1` of `contracts`, `milestones`, `approvals` and
/// `finalizations`.
pub struct Escrow {
    pub initialized: bool,
    pub admin: Option<AccountId>,
    pub settlement_token: Option<AccountId>,
    pub paused: bool,
    pub emergency: bool,
    pub next_contract_id: u32,
    pub contracts: Vec<Contract>,
    pub milestones: Vec<Vec<Milestone>>,
    /// Release approvals per milestone; absent once cleared.
    pub approvals: Vec<Vec<Option<MilestoneApprovals>>>,
    pub finalizations: Vec<Option<FinalizationRecord>>,
    /// Work evidence submitted per milestone (same shape as `milestones`).
    pub evidence: Vec<Vec<Option<String>>>,
    /// The comment left with each contract's rating, once rated.
    pub reputation_comments: Vec<Option<String>>,
    /// The client and freelancer each contract was created with, appended at
    /// creation and never changed: the participant index.
    pub participants: Vec<(AccountId, AccountId)>,
    /// Pending client hand-over per contract, if one was proposed.
    pub migrations: Vec<Option<PendingClientMigration>>,
    /// For each status code, the ids of the contracts currently in that status.
    pub status_index: Vec<Vec<u32>>,
    pub reputation_credits: Vec<ReputationCredit>,
    /// Aggregate reputation, at most one entry per freelancer.
    pub reputations: Vec<ReputationEntry>,
    pub protocol_fee_bps: u32,
    pub accumulated_protocol_fees: i128,
    pub governed_parameters: Option<GovernedParameters>,
    pub readiness: ReadinessChecklist,
    pub pending_admin: Option<PendingAdminProposal>,
    pub events_limit: Option<u32>,
    pub storage_limit: Option<u32>,
    pub disputes_config: Option<DisputeConfig>,
    pub storage_version: u32,
}

/// Sum of the milestone amounts.
pub open spec fn ms_total(ms: Seq<Milestone>) -> int
    decreases ms.len(),
{
    if ms.len() == 0 {
        0
    } else {
        ms_total(ms.drop_last()) + ms.last().amount
    }
}

/// A freshly created, unfunded milestone of `amount`.
pub open spec fn fresh_milestone(amount: i128) -> Milestone {
    Milestone {
        amount,
        funded_amount: 0,
        released: false,
        refunded: false,
        refunded_amount: 0,
        deadline: None,
    }
}

/// Number of `Completed` contracts of freelancer `f` whose reputation has
/// not been issued yet.
pub open spec fn unrated_count(cs: Seq<Contract>, f: AccountId) -> int
    decreases cs.len(),
{
    if cs.len() == 0 {
        0
    } else {
        unrated_count(cs.drop_last(), f) + unrated_ind(cs.last(), f)
    }
}

pub open spec fn unrated_ind(c: Contract, f: AccountId) -> int {
    if c.status == ContractStatus::Completed && c.freelancer == f && !c.reputation_issued {
        1
    } else {
        0
    }
}

/// Number of contracts of freelancer `f` whose reputation has been issued.
pub open spec fn rated_count(cs: Seq<Contract>, f: AccountId) -> int
    decreases cs.len(),
{
    if cs.len() == 0 {
        0
    } else {
        rated_count(cs.drop_last(), f) + rated_ind(cs.last(), f)
    }
}

pub open spec fn rated_ind(c: Contract, f: AccountId) -> int {
    if c.freelancer == f && c.reputation_issued {
        1
    } else {
        0
    }
}

/// Number of `Completed` contracts of freelancer `f`.
pub open spec fn completed_total(cs: Seq<Contract>, f: AccountId) -> int
    decreases cs.len(),
{
    if cs.len() == 0 {
        0
    } else {
        completed_total(cs.drop_last(), f) + if cs.last().status == ContractStatus::Completed
            && cs.last().freelancer == f {
            1int
        } else {
            0int
        }
    }
}

/// The aggregate reputation recorded for `f` in `s`, if any.
pub open spec fn rep_lookup(s: Seq<ReputationEntry>, f: AccountId) -> Option<Reputation>
    decreases s.len(),
{
    if s.len() == 0 {
        None
    } else if s.last().freelancer == f {
        Some(s.last().record)
    } else {
        rep_lookup(s.drop_last(), f)
    }
}

/// No two entries of `s` belong to the same freelancer.
pub open spec fn unique_entries(s: Seq<ReputationEntry>) -> bool {
    forall|i: int, j: int|
        0 <= i < j < s.len() ==> (#[trigger] s[i]).freelancer != (#[trigger] s[j]).freelancer
}

/// What the aggregate of a freelancer with `rated` rated contracts satisfies.
pub open spec fn reputation_matches(r: Option<Reputation>, rated: int) -> bool {
    match r {
        None => rated == 0,
        Some(x) => {
            &&& x.completed_contracts == rated
            &&& 1 <= x.completed_contracts
            &&& x.completed_contracts <= x.total_rating <= 5 * x.completed_contracts
            &&& 1 <= x.last_rating <= 5
        },
    }
}

/// Total pending credits recorded for `f`.
pub open spec fn credits_sum(s: Seq<ReputationCredit>, f: AccountId) -> int
    decreases s.len(),
{
    if s.len() == 0 {
        0
    } else {
        credits_sum(s.drop_last(), f) + credit_ind(s.last(), f)
    }
}

pub open spec fn credit_ind(e: ReputationCredit, f: AccountId) -> int {
    if e.freelancer == f {
        e.credits as int
    } else {
        0
    }
}

/// The structural invariant of one contract record.
pub open spec fn record_wf(c: Contract, ms: Seq<Milestone>, aps: Seq<Option<MilestoneApprovals>>) -> bool {
    &&& c.client != c.freelancer
    &&& (c.arbiter matches Some(a) ==> a != c.client && a != c.freelancer)
    &&& (c.release_authorization == ReleaseAuthorization::ArbiterOnly
        || c.release_authorization == ReleaseAuthorization::ClientAndArbiter) ==> c.arbiter is Some
    &&& 1 <= ms.len() <= MAX_MILESTONES
    &&& aps.len() == ms.len()
    &&& forall|j: int|
        0 <= j < ms.len() ==> 0 < #[trigger] ms[j].amount <= MAX_SINGLE_AMOUNT_STROOPS && !(
        ms[j].released && ms[j].refunded)
    &&& 0 <= c.released_amount
    &&& 0 <= c.refunded_amount
    &&& c.released_amount + c.refunded_amount <= c.funded_amount
    &&& c.funded_amount <= ms_total(ms)
    &&& c.total_deposited == c.funded_amount
    &&& c.reputation_issued ==> c.status == ContractStatus::Completed
}

impl Escrow {
    pub open spec fn has_contract(self, id: u32) -> bool {
        1 <= id <= self.contracts@.len()
    }

    pub open spec fn contract_at(self, id: u32) -> Contract {
        self.contracts@[id - 1]
    }

    pub open spec fn milestones_at(self, id: u32) -> Seq<Milestone> {
        self.milestones@[id - 1]@
    }

    pub open spec fn approvals_at(self, id: u32) -> Seq<Option<MilestoneApprovals>> {
        self.approvals@[id - 1]@
    }

    pub open spec fn is_finalized_at(self, id: u32) -> bool {
        self.finalizations@[id - 1] is Some
    }

    pub open spec fn statuses(self) -> Seq<ContractStatus> {
        self.contracts@.map_values(|c: Contract| c.status)
    }

    /// Pending reputation credits of freelancer `f`.
    pub open spec fn credits_of(self, f: AccountId) -> int {
        credits_sum(self.reputation_credits@, f)
    }

    pub open spec fn wf_shape(self) -> bool {
        &&& self.milestones@.len() == self.contracts@.len()
        &&& self.approvals@.len() == self.contracts@.len()
        &&& self.finalizations@.len() == self.contracts@.len()
        &&& self.migrations@.len() == self.contracts@.len()
        &&& self.evidence@.len() == self.contracts@.len()
        &&& self.reputation_comments@.len() == self.contracts@.len()
        &&& self.participants@.len() == self.contracts@.len()
        &&& forall|k: int|
            0 <= k < self.evidence@.len() ==> (#[trigger] self.evidence@[k])@.len()
                == self.milestones@[k]@.len()
        &&& self.contracts@.len() < u32::MAX
        &&& 1 <= self.next_contract_id <= self.contracts@.len() + 1
        &&& self.initialized ==> self.admin is Some
        &&& self.protocol_fee_bps <= 10_000
        &&& self.accumulated_protocol_fees >= 0
    }

    pub open spec fn wf_records(self) -> bool {
        forall|i: int|
            0 <= i < self.contracts@.len() ==> record_wf(
                #[trigger] self.contracts@[i],
                self.milestones@[i]@,
                self.approvals@[i]@,
            )
    }

    pub open spec fn wf_index(self) -> bool {
        index_consistent(buckets(self.status_index@), self.statuses())
    }

    /// Each freelancer holds exactly one pending credit per completed contract.
    pub open spec fn wf_credits(self) -> bool {
        &&& forall|f: AccountId| #[trigger] self.credits_of(f) == unrated_count(self.contracts@, f)
        &&& forall|k: int|
            0 <= k < self.reputation_credits@.len() ==> #[trigger] self.reputation_credits@[k].credits
                >= 0
    }

    /// The aggregate reputation of `f`, if any.
    pub open spec fn reputation_of(self, f: AccountId) -> Option<Reputation> {
        rep_lookup(self.reputations@, f)
    }

    /// Each freelancer has at most one aggregate, which counts exactly the
    /// contracts rated for them.
    pub open spec fn wf_reputation(self) -> bool {
        &&& unique_entries(self.reputations@)
        &&& forall|f: AccountId|
            reputation_matches(#[trigger] self.reputation_of(f), rated_count(self.contracts@, f))
    }

    /// The ledger invariant.
    pub open spec fn wf(self) -> bool {
        &&& self.wf_shape()
        &&& self.wf_records()
        &&& self.wf_index()
        &&& self.wf_credits()
        &&& self.wf_reputation()
    }

    /// Everything but the per-contract records, the status index, the
    /// pending credits and the reputation aggregates is unchanged.
    pub open spec fn settings_unchanged(self, other: Self) -> bool {
        &&& self.initialized == other.initialized
        &&& self.admin == other.admin
        &&& self.settlement_token == other.settlement_token
        &&& self.paused == other.paused
        &&& self.emergency == other.emergency
        &&& self.next_contract_id == other.next_contract_id
        &&& self.protocol_fee_bps == other.protocol_fee_bps
        &&& self.accumulated_protocol_fees == other.accumulated_protocol_fees
        &&& self.governed_parameters == other.governed_parameters
        &&& self.readiness == other.readiness
        &&& self.pending_admin == other.pending_admin
        &&& self.events_limit == other.events_limit
        &&& self.storage_limit == other.storage_limit
        &&& self.disputes_config == other.disputes_config
        &&& self.storage_version == other.storage_version
    }

    /// Everything but the contracts, their milestones, approvals and close
    /// records, the status index and the pending credits is unchanged (work
    /// evidence, rating comments, the participant index and client
    /// migrations included).
    pub open spec fn config_unchanged(self, other: Self) -> bool {
        &&& self.settings_unchanged(other)
        &&& self.reputations@ == other.reputations@
        &&& self.migrations@ == other.migrations@
        &&& self.evidence@ == other.evidence@
        &&& self.reputation_comments@ == other.reputation_comments@
        &&& self.participants@ == other.participants@
    }

    /// The per-contract records are unchanged.
    pub open spec fn records_unchanged(self, other: Self) -> bool {
        &&& self.contracts@ == other.contracts@
        &&& self.milestones@ == other.milestones@
        &&& self.approvals@ == other.approvals@
        &&& self.finalizations@ == other.finalizations@
        &&& self.status_index@ == other.status_index@
        &&& self.reputation_credits@ == other.reputation_credits@
        &&& self.reputations@ == other.reputations@
        &&& self.migrations@ == other.migrations@
        &&& self.evidence@ == other.evidence@
        &&& self.reputation_comments@ == other.reputation_comments@
        &&& self.participants@ == other.participants@
    }

    /// Only contract `id`'s records (and the indexes) may differ.
    pub open spec fn others_unchanged(self, other: Self, id: u32) -> bool {
        &&& self.contracts@.len() == other.contracts@.len()
        &&& self.milestones@.len() == other.milestones@.len()
        &&& self.approvals@.len() == other.approvals@.len()
        &&& self.finalizations@.len() == other.finalizations@.len()
        &&& forall|k: int|
            0 <= k < self.contracts@.len() && k != id - 1 ==> {
                &&& #[trigger] self.contracts@[k] == other.contracts@[k]
                &&& self.milestones@[k] == other.milestones@[k]
                &&& self.approvals@[k] == other.approvals@[k]
                &&& self.finalizations@[k] == other.finalizations@[k]
            }
    }

    /// The error, if any, of the pause and emergency gate.
    pub open spec fn pause_error(self) -> Option<Error> {
        if self.paused {
            Some(Error::ContractPaused)
        } else if self.emergency {
            Some(Error::EmergencyActive)
        } else {
            None
        }
    }

    /// The cap on a contract's total escrow value.
    pub open spec fn max_total_escrow(self) -> i128 {
        match self.governed_parameters {
            Some(g) => g.max_escrow_total_stroops,
            None => i128::MAX,
        }
    }
}

/// Sum of the milestone amounts of a well-formed record is within `i128`.
pub proof fn lemma_ms_total_bounds(ms: Seq<Milestone>)
    requires
        forall|j: int| 0 <= j < ms.len() ==> 0 < #[trigger] ms[j].amount <= MAX_SINGLE_AMOUNT_STROOPS,
    ensures
        0 <= ms_total(ms) <= ms.len() * MAX_SINGLE_AMOUNT_STROOPS,
    decreases ms.len(),
{
    if ms.len() > 0 {
        assert forall|j: int| 0 <= j < ms.drop_last().len() implies 0 < #[trigger] ms.drop_last()[j].amount
            <= MAX_SINGLE_AMOUNT_STROOPS by {
            assert(ms.drop_last()[j] == ms[j]);
        }
        lemma_ms_total_bounds(ms.drop_last());
    }
}

/// Changing flags or funding fields of milestone `j` (not its amount) keeps the total.
pub proof fn lemma_ms_total_update(ms: Seq<Milestone>, j: int, m: Milestone)
    requires
        0 <= j < ms.len(),
        m.amount == ms[j].amount,
    ensures
        ms_total(ms.update(j, m)) == ms_total(ms),
    decreases ms.len(),
{
    let u = ms.update(j, m);
    if j < ms.len() - 1 {
        assert(u.drop_last() =~= ms.drop_last().update(j, m));
        lemma_ms_total_update(ms.drop_last(), j, m);
    } else {
        assert(u.drop_last() =~= ms.drop_last());
    }
}

/// The total of freshly created milestones is the sum of their amounts.
pub proof fn lemma_fresh_total(amounts: Seq<i128>)
    ensures
        ms_total(amounts.map_values(|a: i128| fresh_milestone(a))) == sum_amounts(amounts),
    decreases amounts.len(),
{
    if amounts.len() > 0 {
        let f = amounts.map_values(|a: i128| fresh_milestone(a));
        assert(f.drop_last() =~= amounts.drop_last().map_values(|a: i128| fresh_milestone(a)));
        lemma_fresh_total(amounts.drop_last());
    }
}

/// Replacing contract `i` changes each freelancer's completed count by the
/// difference of the two contracts' contributions.
pub proof fn lemma_unrated_count_update(cs: Seq<Contract>, i: int, c: Contract, f: AccountId)
    requires
        0 <= i < cs.len(),
    ensures
        unrated_count(cs.update(i, c), f) == unrated_count(cs, f) - unrated_ind(cs[i], f)
            + unrated_ind(c, f),
    decreases cs.len(),
{
    let u = cs.update(i, c);
    if i < cs.len() - 1 {
        assert(u.drop_last() =~= cs.drop_last().update(i, c));
        lemma_unrated_count_update(cs.drop_last(), i, c, f);
    } else {
        assert(u.drop_last() =~= cs.drop_last());
    }
}

/// Replacing credit entry `i` changes the sums by the difference of the entries.
pub proof fn lemma_credits_sum_update(s: Seq<ReputationCredit>, i: int, e: ReputationCredit, f: AccountId)
    requires
        0 <= i < s.len(),
    ensures
        credits_sum(s.update(i, e), f) == credits_sum(s, f) - credit_ind(s[i], f) + credit_ind(e, f),
    decreases s.len(),
{
    let u = s.update(i, e);
    if i < s.len() - 1 {
        assert(u.drop_last() =~= s.drop_last().update(i, e));
        lemma_credits_sum_update(s.drop_last(), i, e, f);
    } else {
        assert(u.drop_last() =~= s.drop_last());
    }
}

/// With non-negative entries, one entry of `f` is at most `f`'s total.
pub proof fn lemma_credit_entry_le_sum(s: Seq<ReputationCredit>, i: int)
    requires
        0 <= i < s.len(),
        forall|k: int| 0 <= k < s.len() ==> #[trigger] s[k].credits >= 0,
    ensures
        s[i].credits <= credits_sum(s, s[i].freelancer),
        credits_sum(s, s[i].freelancer) >= 0,
    decreases s.len(),
{
    lemma_credits_sum_nonneg(s, s[i].freelancer);
    if i < s.len() - 1 {
        assert(s.drop_last()[i] == s[i]);
        lemma_credit_entry_le_sum(s.drop_last(), i);
        lemma_credits_sum_nonneg(s.drop_last(), s[i].freelancer);
    } else {
        lemma_credits_sum_nonneg(s.drop_last(), s[i].freelancer);
    }
}

pub proof fn lemma_credits_sum_nonneg(s: Seq<ReputationCredit>, f: AccountId)
    requires
        forall|k: int| 0 <= k < s.len() ==> #[trigger] s[k].credits >= 0,
    ensures
        credits_sum(s, f) >= 0,
    decreases s.len(),
{
    if s.len() > 0 {
        assert forall|k: int| 0 <= k < s.drop_last().len() implies #[trigger] s.drop_last()[k].credits
            >= 0 by {
            assert(s.drop_last()[k] == s[k]);
        }
        lemma_credits_sum_nonneg(s.drop_last(), f);
    }
}

/// No freelancer completed more contracts than there are contracts.
pub proof fn lemma_unrated_count_le_len(cs: Seq<Contract>, f: AccountId)
    ensures
        0 <= unrated_count(cs, f) <= cs.len(),
    decreases cs.len(),
{
    if cs.len() > 0 {
        lemma_unrated_count_le_len(cs.drop_last(), f);
    }
}

/// Appending a contract that is not completed leaves all counts unchanged.
pub proof fn lemma_unrated_count_push(cs: Seq<Contract>, c: Contract, f: AccountId)
    requires
        c.status != ContractStatus::Completed,
    ensures
        unrated_count(cs.push(c), f) == unrated_count(cs, f),
{
    assert(cs.push(c).drop_last() =~= cs);
}

/// Replacing contract `i` changes each freelancer's rated count by the
/// difference of the two contracts' contributions.
pub proof fn lemma_rated_count_update(cs: Seq<Contract>, i: int, c: Contract, f: AccountId)
    requires
        0 <= i < cs.len(),
    ensures
        rated_count(cs.update(i, c), f) == rated_count(cs, f) - rated_ind(cs[i], f) + rated_ind(
            c,
            f,
        ),
    decreases cs.len(),
{
    let u = cs.update(i, c);
    if i < cs.len() - 1 {
        assert(u.drop_last() =~= cs.drop_last().update(i, c));
        lemma_rated_count_update(cs.drop_last(), i, c, f);
    } else {
        assert(u.drop_last() =~= cs.drop_last());
    }
}

/// No freelancer has more rated contracts than there are contracts.
pub proof fn lemma_rated_count_le_len(cs: Seq<Contract>, f: AccountId)
    ensures
        0 <= rated_count(cs, f) <= cs.len(),
    decreases cs.len(),
{
    if cs.len() > 0 {
        lemma_rated_count_le_len(cs.drop_last(), f);
    }
}

/// Appending a contract whose reputation is not issued leaves all rated counts unchanged.
pub proof fn lemma_rated_count_push(cs: Seq<Contract>, c: Contract, f: AccountId)
    requires
        !c.reputation_issued,
    ensures
        rated_count(cs.push(c), f) == rated_count(cs, f),
{
    assert(cs.push(c).drop_last() =~= cs);
}

/// When only completed contracts carry a reputation, the completed
/// contracts of `f` split into rated and unrated ones.
pub proof fn lemma_completed_split(cs: Seq<Contract>, f: AccountId)
    requires
        forall|k: int| 0 <= k < cs.len() ==> (#[trigger] cs[k]).reputation_issued ==> cs[k].status
            == ContractStatus::Completed,
    ensures
        completed_total(cs, f) == unrated_count(cs, f) + rated_count(cs, f),
    decreases cs.len(),
{
    if cs.len() > 0 {
        assert forall|k: int| 0 <= k < cs.drop_last().len() && (#[trigger] cs.drop_last()[k]).reputation_issued
            implies cs.drop_last()[k].status == ContractStatus::Completed by {
            assert(cs.drop_last()[k] == cs[k]);
        }
        assert(cs.last() == cs[cs.len() - 1]);
        lemma_completed_split(cs.drop_last(), f);
    }
}

impl Escrow {
    /// Adds one pending reputation credit for freelancer `f`.
    fn grant_pending_reputation_credit(&mut self, f: AccountId)
        requires
            forall|k: int|
                0 <= k < old(self).reputation_credits@.len() ==> #[trigger] old(self).reputation_credits@[k].credits >= 0,
            old(self).credits_of(f) < u32::MAX,
        ensures
            forall|g: AccountId|
                #[trigger] final(self).credits_of(g) == old(self).credits_of(g) + if g == f {
                    1int
                } else {
                    0int
                },
            forall|k: int|
                0 <= k < final(self).reputation_credits@.len() ==> #[trigger] final(self).reputation_credits@[k].credits >= 0,
            final(self).contracts@ == old(self).contracts@,
            final(self).milestones@ == old(self).milestones@,
            final(self).approvals@ == old(self).approvals@,
            final(self).finalizations@ == old(self).finalizations@,
            final(self).status_index@ == old(self).status_index@,
            final(self).config_unchanged(*old(self)),
    {
        let ghost s = self.reputation_credits@;
        let n = self.reputation_credits.len();
        let mut i: usize = 0;
        let mut found = false;
        while i < n && !found
            invariant
                n == s.len(),
                s == self.reputation_credits@,
                i <= n,
                found ==> i < n && s[i as int].freelancer == f,
            decreases n - i + (if found {
                0int
            } else {
                1int
            }),
        {
            if self.reputation_credits[i].freelancer == f {
                found = true;
            } else {
                i = i + 1;
            }
        }
        if found {
            let e = self.reputation_credits[i];
            proof {
                lemma_credit_entry_le_sum(s, i as int);
            }
            let e2 = ReputationCredit { freelancer: f, credits: e.credits + 1 };
            self.reputation_credits.set(i, e2);
            proof {
                assert forall|g: AccountId| #[trigger] credits_sum(self.reputation_credits@, g)
                    == credits_sum(s, g) + if g == f {
                    1int
                } else {
                    0int
                } by {
                    lemma_credits_sum_update(s, i as int, e2, g);
                }
            }
        } else {
            let e2 = ReputationCredit { freelancer: f, credits: 1 };
            self.reputation_credits.push(e2);
            proof {
                assert(self.reputation_credits@.drop_last() =~= s);
            }
        }
    }

    /// Writes contract `id`, keeping the status index and the pending
    /// reputation credits in step with its status.
    pub(crate) fn store_contract(&mut self, id: u32, c: Contract)
        requires
            old(self).wf_shape(),
            old(self).wf_index(),
            old(self).wf_credits(),
            old(self).wf_reputation(),
            old(self).has_contract(id),
            c.freelancer == old(self).contract_at(id).freelancer,
            c.reputation_issued == old(self).contract_at(id).reputation_issued,
            old(self).contract_at(id).reputation_issued ==> old(self).contract_at(id).status
                == ContractStatus::Completed,
            old(self).contract_at(id).status == ContractStatus::Completed ==> c.status
                == ContractStatus::Completed,
        ensures
            final(self).contracts@ == old(self).contracts@.update(id - 1, c),
            buckets(final(self).status_index@) == moved(
                buckets(old(self).status_index@),
                id,
                spec_status_code(old(self).contract_at(id).status),
                spec_status_code(c.status),
            ),
            final(self).milestones@ == old(self).milestones@,
            final(self).approvals@ == old(self).approvals@,
            final(self).finalizations@ == old(self).finalizations@,
            final(self).config_unchanged(*old(self)),
            !(c.status == ContractStatus::Completed && old(self).contract_at(id).status
                != ContractStatus::Completed) ==> final(self).reputation_credits@ == old(
                self).reputation_credits@,
            c.status == ContractStatus::Completed && old(self).contract_at(id).status
                != ContractStatus::Completed ==> forall|g: AccountId|
                #[trigger] final(self).credits_of(g) == old(self).credits_of(g) + if g
                    == c.freelancer {
                    1int
                } else {
                    0int
                },
            final(self).wf_shape(),
            final(self).wf_index(),
            final(self).wf_credits(),
            final(self).wf_reputation(),
    {
        let idx = (id - 1) as usize;
        let old_c = self.contracts[idx];
        let ghost old_self = *self;
        self.contracts.set(idx, c);
        update_status_index(&mut self.status_index, id, &old_c.status, &c.status);
        let ghost mid = *self;
        assert(mid.contracts@ == old_self.contracts@.update(id - 1, c));
        if c.status == ContractStatus::Completed && old_c.status != ContractStatus::Completed {
            proof {
                lemma_unrated_count_le_len(old_self.contracts@, c.freelancer);
                assert(old_self.credits_of(c.freelancer) == unrated_count(
                    old_self.contracts@,
                    c.freelancer,
                ));
            }
            self.grant_pending_reputation_credit(c.freelancer);
            proof {
                let cur = *self;
                assert forall|g: AccountId| #[trigger] cur.credits_of(g) == unrated_count(
                    cur.contracts@,
                    g,
                ) by {
                    assert(old_self.credits_of(g) == unrated_count(old_self.contracts@, g));
                    assert(mid.credits_of(g) == old_self.credits_of(g));
                    lemma_unrated_count_update(old_self.contracts@, id - 1, c, g);
                }
            }
        } else {
            proof {
                assert forall|g: AccountId| #[trigger] self.credits_of(g) == unrated_count(
                    self.contracts@,
                    g,
                ) by {
                    assert(old_self.credits_of(g) == unrated_count(old_self.contracts@, g));
                    lemma_unrated_count_update(old_self.contracts@, id - 1, c, g);
                }
            }
        }
        proof {
            assert(self.statuses() =~= old_self.statuses().update(id - 1, c.status));
            lemma_index_move(buckets(old_self.status_index@), old_self.statuses(), id, c.status);
            assert forall|g: AccountId| reputation_matches(
                #[trigger] self.reputation_of(g),
                rated_count(self.contracts@, g),
            ) by {
                assert(reputation_matches(old_self.reputation_of(g), rated_count(old_self.contracts@, g)));
                lemma_rated_count_update(old_self.contracts@, id - 1, c, g);
            }
        }
    }
}

/// A new contract record as created by `create_contract`.
pub open spec fn new_contract(
    client: AccountId,
    freelancer: AccountId,
    arbiter: Option<AccountId>,
    release_authorization: ReleaseAuthorization,
) -> Contract {
    Contract {
        client,
        freelancer,
        arbiter,
        status: ContractStatus::Created,
        total_deposited: 0,
        funded_amount: 0,
        released_amount: 0,
        refunded_amount: 0,
        release_authorization,
        reputation_issued: false,
    }
}

/// Sum of the milestone amounts of a record.
pub fn milestones_total(ms: &Vec<Milestone>) -> (t: i128)
    requires
        ms@.len() <= MAX_MILESTONES,
        forall|j: int| 0 <= j < ms@.len() ==> 0 < #[trigger] ms@[j].amount <= MAX_SINGLE_AMOUNT_STROOPS,
    ensures
        t == ms_total(ms@),
{
    let mut t: i128 = 0;
    let mut i: usize = 0;
    while i < ms.len()
        invariant
            i <= ms@.len() <= MAX_MILESTONES,
            forall|j: int| 0 <= j < ms@.len() ==> 0 < #[trigger] ms@[j].amount <= MAX_SINGLE_AMOUNT_STROOPS,
            t == ms_total(ms@.take(i as int)),
            0 <= t <= i * MAX_SINGLE_AMOUNT_STROOPS,
        decreases ms@.len() - i,
    {
        proof {
            assert(ms@.take(i + 1).drop_last() =~= ms@.take(i as int));
        }
        t = t + ms[i].amount;
        i = i + 1;
    }
    proof {
        assert(ms@.take(i as int) =~= ms@);
    }
    t
}

impl Escrow {
    /// An empty, uninitialized ledger.
    pub fn new() -> (e: Self)
        ensures
            e.wf(),
            !e.initialized,
            e.admin is None,
            e.settlement_token is None,
            !e.paused,
            !e.emergency,
            e.next_contract_id == 1,
            e.contracts@.len() == 0,
            e.protocol_fee_bps == 0,
            e.accumulated_protocol_fees == 0,
            e.governed_parameters is None,
            e.readiness == (ReadinessChecklist {
                initialized: false,
                governed_params_set: false,
                emergency_controls_enabled: false,
            }),
            e.pending_admin is None,
            e.events_limit is None,
            e.storage_limit is None,
            e.disputes_config is None,
            e.storage_version == 0,
    {
        let mut status_index: Vec<Vec<u32>> = Vec::new();
        let mut b: usize = 0;
        while b < STATUS_BUCKETS
            invariant
                b <= STATUS_BUCKETS,
                status_index@.len() == b,
                forall|k: int| 0 <= k < b ==> (#[trigger] status_index@[k])@.len() == 0,
            decreases STATUS_BUCKETS - b,
        {
            status_index.push(Vec::new());
            b = b + 1;
        }
        let e = Escrow {
            initialized: false,
            admin: None,
            settlement_token: None,
            paused: false,
            emergency: false,
            next_contract_id: 1,
            contracts: Vec::new(),
            milestones: Vec::new(),
            approvals: Vec::new(),
            finalizations: Vec::new(),
            evidence: Vec::new(),
            reputation_comments: Vec::new(),
            participants: Vec::new(),
            migrations: Vec::new(),
            status_index,
            reputation_credits: Vec::new(),
            reputations: Vec::new(),
            protocol_fee_bps: 0,
            accumulated_protocol_fees: 0,
            governed_parameters: None,
            readiness: ReadinessChecklist {
                initialized: false,
                governed_params_set: false,
                emergency_controls_enabled: false,
            },
            pending_admin: None,
            events_limit: None,
            storage_limit: None,
            disputes_config: None,
            storage_version: 0,
        };
        proof {
            let bs = buckets(e.status_index@);
            assert forall|bk: int| 0 <= bk < STATUS_BUCKETS implies (#[trigger] bs[bk]).len() == 0 by {
                assert(bs[bk] == e.status_index@[bk]@);
            }
            assert forall|f: AccountId| #[trigger] e.credits_of(f) == unrated_count(e.contracts@, f) by {
            }
            assert forall|f: AccountId| reputation_matches(
                #[trigger] e.reputation_of(f),
                rated_count(e.contracts@, f),
            ) by {
            }
        }
        e
    }

    /// Records the operational admin. Single use.
    pub fn initialize(&mut self, admin: AccountId) -> (r: Result<(), Error>)
        requires
            old(self).wf(),
        ensures
            final(self).wf(),
            match r {
                Err(e) => old(self).initialized && e == Error::AlreadyInitialized && *final(self)
                    == *old(self),
                Ok(()) => {
                    &&& !old(self).initialized
                    &&& final(self).initialized
                    &&& final(self).admin == Some(admin)
                    &&& final(self).next_contract_id == 1
                    &&& final(self).readiness == (ReadinessChecklist {
                        initialized: true,
                        ..old(self).readiness
                    })
                    &&& final(self).records_unchanged(*old(self))
                    &&& final(self).settlement_token == old(self).settlement_token
                    &&& final(self).paused == old(self).paused
                    &&& final(self).emergency == old(self).emergency
                    &&& final(self).protocol_fee_bps == old(self).protocol_fee_bps
                    &&& final(self).accumulated_protocol_fees == old(self).accumulated_protocol_fees
                    &&& final(self).governed_parameters == old(self).governed_parameters
                    &&& final(self).pending_admin == old(self).pending_admin
                    &&& final(self).events_limit == old(self).events_limit
                    &&& final(self).storage_limit == old(self).storage_limit
                    &&& final(self).disputes_config == old(self).disputes_config
                    &&& final(self).storage_version == old(self).storage_version
                },
            },
    {
        if self.initialized {
            return Err(Error::AlreadyInitialized);
        }
        self.initialized = true;
        self.admin = Some(admin);
        self.next_contract_id = 1;
        self.readiness.initialized = true;
        proof {
            lemma_wf_config_change(*old(self), *self);
        }
        Ok(())
    }

    /// The stored admin.
    pub fn get_admin(&self) -> (a: Option<AccountId>)
        ensures
            a == self.admin,
    {
        self.admin
    }

    /// The bound settlement token, if any.
    pub fn get_settlement_token(&self) -> (t: Option<AccountId>)
        ensures
            t == self.settlement_token,
    {
        self.settlement_token
    }

    /// Whether a settlement token is bound.
    pub fn is_settlement_token_bound(&self) -> (b: bool)
        ensures
            b == self.settlement_token is Some,
    {
        self.settlement_token.is_some()
    }

    /// The mainnet readiness checklist.
    pub fn get_mainnet_readiness_info(&self) -> (c: ReadinessChecklist)
        ensures
            c == self.readiness,
    {
        self.readiness
    }

    pub fn is_paused(&self) -> (b: bool)
        ensures
            b == self.paused,
    {
        self.paused
    }

    pub fn is_emergency(&self) -> (b: bool)
        ensures
            b == self.emergency,
    {
        self.emergency
    }

    /// The id the next created contract will receive.
    pub fn get_next_contract_id(&self) -> (id: u32)
        ensures
            id == self.next_contract_id,
    {
        self.next_contract_id
    }

    /// Protocol fees accrued so far, in stroops.
    pub fn get_accumulated_protocol_fees(&self) -> (f: i128)
        ensures
            f == self.accumulated_protocol_fees,
    {
        self.accumulated_protocol_fees
    }

    /// Fails with `NotInitialized` until `initialize` has run.
    pub fn require_initialized(&self) -> (r: Result<(), Error>)
        ensures
            r == if self.initialized {
                Ok::<(), Error>(())
            } else {
                Err(Error::NotInitialized)
            },
    {
        if !self.initialized {
            return Err(Error::NotInitialized);
        }
        Ok(())
    }

    /// Fails with `ContractPaused` while paused, else `EmergencyActive`
    /// during an emergency.
    pub fn require_not_paused(&self) -> (r: Result<(), Error>)
        ensures
            r == match self.pause_error() {
                Some(e) => Err(e),
                None => Ok(()),
            },
    {
        if self.paused {
            return Err(Error::ContractPaused);
        }
        if self.emergency {
            return Err(Error::EmergencyActive);
        }
        Ok(())
    }

    /// The stored contract `contract_id`.
    pub fn get_contract(&self, contract_id: u32) -> (r: Result<Contract, Error>)
        requires
            self.wf(),
        ensures
            r == if self.has_contract(contract_id) {
                Ok::<Contract, Error>(self.contract_at(contract_id))
            } else {
                Err(Error::ContractNotFound)
            },
    {
        if contract_id == 0 || contract_id as usize > self.contracts.len() {
            return Err(Error::ContractNotFound);
        }
        Ok(self.contracts[(contract_id - 1) as usize])
    }

    /// The milestones of contract `contract_id`.
    pub fn get_milestones(&self, contract_id: u32) -> (r: Result<Vec<Milestone>, Error>)
        requires
            self.wf(),
        ensures
            match r {
                Ok(v) => self.has_contract(contract_id) && v@ == self.milestones_at(contract_id),
                Err(e) => !self.has_contract(contract_id) && e == Error::ContractNotFound,
            },
    {
        if contract_id == 0 || contract_id as usize > self.contracts.len() {
            return Err(Error::ContractNotFound);
        }
        let ms = &self.milestones[(contract_id - 1) as usize];
        let mut out: Vec<Milestone> = Vec::new();
        let mut i: usize = 0;
        while i < ms.len()
            invariant
                i <= ms@.len(),
                out@ == ms@.take(i as int),
            decreases ms@.len() - i,
        {
            out.push(ms[i]);
            proof {
                assert(ms@.take(i + 1) =~= ms@.take(i as int).push(ms@[i as int]));
            }
            i = i + 1;
        }
        proof {
            assert(ms@.take(i as int) =~= ms@);
        }
        Ok(out)
    }

    /// Milestone `milestone_index` of contract `contract_id`: `None` when the
    /// index is out of range, `ContractNotFound` when the contract does not exist.
    pub fn get_milestone(&self, contract_id: u32, milestone_index: u32) -> (r: Result<Option<Milestone>, Error>)
        requires
            self.wf(),
        ensures
            r == if !self.has_contract(contract_id) {
                Err(Error::ContractNotFound)
            } else if milestone_index < self.milestones_at(contract_id).len() {
                Ok::<Option<Milestone>, Error>(Some(self.milestones_at(contract_id)[milestone_index as int]))
            } else {
                Ok(None)
            },
    {
        if contract_id == 0 || contract_id as usize > self.contracts.len() {
            return Err(Error::ContractNotFound);
        }
        let idx = (contract_id - 1) as usize;
        if milestone_index as usize >= self.milestones[idx].len() {
            return Ok(None);
        }
        Ok(Some(self.milestones[idx][milestone_index as usize]))
    }

    /// What contract `contract_id` still holds in escrow:
    /// `funded - released - refunded`.
    pub fn get_refundable_balance(&self, contract_id: u32) -> (r: Result<i128, Error>)
        requires
            self.wf(),
        ensures
            r == if self.has_contract(contract_id) {
                Ok::<i128, Error>(
                    (self.contract_at(contract_id).funded_amount - self.contract_at(
                        contract_id,
                    ).released_amount - self.contract_at(contract_id).refunded_amount) as i128,
                )
            } else {
                Err(Error::ContractNotFound)
            },
    {
        if contract_id == 0 || contract_id as usize > self.contracts.len() {
            return Err(Error::ContractNotFound);
        }
        let idx = (contract_id - 1) as usize;
        let c = self.contracts[idx];
        proof {
            assert(record_wf(self.contracts@[idx as int], self.milestones@[idx as int]@, self.approvals@[idx as int]@));
        }
        Ok(c.funded_amount - c.released_amount - c.refunded_amount)
    }

    /// Pending reputation credits of `freelancer`: one per completed contract.
    pub fn get_pending_reputation_credits(&self, freelancer: AccountId) -> (c: i128)
        requires
            self.wf(),
        ensures
            c == self.credits_of(freelancer),
            c == unrated_count(self.contracts@, freelancer),
    {
        let ghost s = self.reputation_credits@;
        let mut total: i128 = 0;
        let mut i: usize = 0;
        proof {
            lemma_unrated_count_le_len(self.contracts@, freelancer);
            assert(self.credits_of(freelancer) == unrated_count(self.contracts@, freelancer));
        }
        while i < self.reputation_credits.len()
            invariant
                s == self.reputation_credits@,
                i <= s.len(),
                total == credits_sum(s.take(i as int), freelancer),
                forall|k: int| 0 <= k < s.len() ==> #[trigger] s[k].credits >= 0,
                credits_sum(s, freelancer) < u32::MAX,
            decreases s.len() - i,
        {
            proof {
                assert(s.take(i + 1).drop_last() =~= s.take(i as int));
                lemma_credits_prefix_le(s, i as int + 1, freelancer);
                lemma_credits_sum_nonneg(s.take(i as int), freelancer);
                assert forall|k: int| 0 <= k < s.take(i + 1).len() implies #[trigger] s.take(
                    i + 1,
                )[k].credits >= 0 by {
                    assert(s.take(i + 1)[k] == s[k]);
                }
            }
            if self.reputation_credits[i].freelancer == freelancer {
                total = total + self.reputation_credits[i].credits;
            }
            i = i + 1;
        }
        proof {
            assert(s.take(i as int) =~= s);
        }
        total
    }
}

impl Escrow {
    /// Admin control: blocks protected mutations.
    pub fn pause(&mut self) -> (r: Result<(), Error>)
        requires
            old(self).wf(),
        ensures
            final(self).wf(),
            match r {
                Err(e) => !old(self).initialized && e == Error::NotInitialized && *final(self)
                    == *old(self),
                Ok(()) => old(self).initialized && *final(self) == (Escrow {
                    paused: true,
                    ..*old(self)
                }),
            },
    {
        self.require_initialized()?;
        self.paused = true;
        proof {
            lemma_wf_config_change(*old(self), *self);
        }
        Ok(())
    }

    /// Admin control: lifts a pause. Blocked while an emergency is active:
    /// only `resolve_emergency` ends one.
    pub fn unpause(&mut self) -> (r: Result<(), Error>)
        requires
            old(self).wf(),
        ensures
            final(self).wf(),
            match r {
                Err(e) => *final(self) == *old(self) && e == if !old(self).initialized {
                    Error::NotInitialized
                } else {
                    Error::EmergencyActive
                } && (old(self).initialized ==> old(self).emergency),
                Ok(()) => old(self).initialized && !old(self).emergency && *final(self) == (Escrow {
                    paused: false,
                    ..*old(self)
                }),
            },
    {
        self.require_initialized()?;
        if self.emergency {
            return Err(Error::EmergencyActive);
        }
        self.paused = false;
        proof {
            lemma_wf_config_change(*old(self), *self);
        }
        Ok(())
    }

    /// Admin control: enters emergency mode (paused as well) and records
    /// that the emergency controls have been exercised.
    pub fn activate_emergency_pause(&mut self) -> (r: Result<(), Error>)
        requires
            old(self).wf(),
        ensures
            final(self).wf(),
            match r {
                Err(e) => !old(self).initialized && e == Error::NotInitialized && *final(self)
                    == *old(self),
                Ok(()) => old(self).initialized && *final(self) == (Escrow {
                    paused: true,
                    emergency: true,
                    readiness: ReadinessChecklist {
                        emergency_controls_enabled: true,
                        ..old(self).readiness
                    },
                    ..*old(self)
                }),
            },
    {
        self.require_initialized()?;
        self.paused = true;
        self.emergency = true;
        self.readiness.emergency_controls_enabled = true;
        proof {
            lemma_wf_config_change(*old(self), *self);
        }
        Ok(())
    }

    /// Admin control: leaves emergency mode and lifts the pause.
    pub fn resolve_emergency(&mut self) -> (r: Result<(), Error>)
        requires
            old(self).wf(),
        ensures
            final(self).wf(),
            match r {
                Err(e) => !old(self).initialized && e == Error::NotInitialized && *final(self)
                    == *old(self),
                Ok(()) => old(self).initialized && *final(self) == (Escrow {
                    paused: false,
                    emergency: false,
                    ..*old(self)
                }),
            },
    {
        self.require_initialized()?;
        self.paused = false;
        self.emergency = false;
        proof {
            lemma_wf_config_change(*old(self), *self);
        }
        Ok(())
    }

    /// The error, if any, of binding `token` as settlement token on behalf of
    /// `admin`, for the escrow living at `escrow_address`.
    pub open spec fn bind_error(self, admin: AccountId, token: AccountId, escrow_address: AccountId) -> Option<Error> {
        if !self.initialized || self.admin is None {
            Some(Error::NotInitialized)
        } else if admin != self.admin.unwrap() {
            Some(Error::UnauthorizedRole)
        } else if self.settlement_token is Some {
            Some(Error::SettlementTokenAlreadyBound)
        } else if token == escrow_address {
            Some(Error::SettlementTokenIsSelf)
        } else if token == self.admin.unwrap() {
            Some(Error::SettlementTokenIsAdmin)
        } else {
            None
        }
    }

    /// Binds the settlement token, once. `escrow_address` is the escrow's own
    /// address; the token must be neither it nor the admin.
    pub fn bind_settlement_token(&mut self, admin: AccountId, token: AccountId, escrow_address: AccountId) -> (r: Result<(), Error>)
        requires
            old(self).wf(),
        ensures
            final(self).wf(),
            match r {
                Err(e) => old(self).bind_error(admin, token, escrow_address) == Some(e)
                    && *final(self) == *old(self),
                Ok(()) => old(self).bind_error(admin, token, escrow_address) is None
                    && *final(self) == (Escrow { settlement_token: Some(token), ..*old(self) }),
            },
    {
        self.require_initialized()?;
        let stored_admin = match self.admin {
            Some(a) => a,
            None => return Err(Error::NotInitialized),
        };
        if admin != stored_admin {
            return Err(Error::UnauthorizedRole);
        }
        if self.settlement_token.is_some() {
            return Err(Error::SettlementTokenAlreadyBound);
        }
        if token == escrow_address {
            return Err(Error::SettlementTokenIsSelf);
        }
        if token == stored_admin {
            return Err(Error::SettlementTokenIsAdmin);
        }
        self.settlement_token = Some(token);
        proof {
            lemma_wf_config_change(*old(self), *self);
        }
        Ok(())
    }
}

/// Changing only configuration fields, close records or client migration
/// proposals keeps the ledger invariant.
pub proof fn lemma_wf_config_change(a: Escrow, b: Escrow)
    requires
        a.wf(),
        b.contracts@ == a.contracts@,
        b.milestones@ == a.milestones@,
        b.approvals@ == a.approvals@,
        b.status_index@ == a.status_index@,
        b.reputation_credits@ == a.reputation_credits@,
        b.reputations@ == a.reputations@,
        b.wf_shape(),
    ensures
        b.wf(),
{
    assert(b.statuses() =~= a.statuses());
    assert forall|f: AccountId| #[trigger] b.credits_of(f) == unrated_count(b.contracts@, f) by {
        assert(a.credits_of(f) == unrated_count(a.contracts@, f));
    }
    assert forall|f: AccountId| reputation_matches(
        #[trigger] b.reputation_of(f),
        rated_count(b.contracts@, f),
    ) by {
        assert(reputation_matches(a.reputation_of(f), rated_count(a.contracts@, f)));
    }
}

/// The reputation invariant depends only on the contracts and the aggregates.
pub proof fn lemma_wf_reputation_same(a: Escrow, b: Escrow)
    requires
        a.wf_reputation(),
        b.contracts@ == a.contracts@,
        b.reputations@ == a.reputations@,
    ensures
        b.wf_reputation(),
{
    assert forall|f: AccountId| reputation_matches(
        #[trigger] b.reputation_of(f),
        rated_count(b.contracts@, f),
    ) by {
        assert(reputation_matches(a.reputation_of(f), rated_count(a.contracts@, f)));
    }
}

/// The credits of a prefix never exceed the total.
pub proof fn lemma_credits_prefix_le(s: Seq<ReputationCredit>, n: int, f: AccountId)
    requires
        0 <= n <= s.len(),
        forall|k: int| 0 <= k < s.len() ==> #[trigger] s[k].credits >= 0,
    ensures
        credits_sum(s.take(n), f) <= credits_sum(s, f),
    decreases s.len() - n,
{
    if n < s.len() {
        lemma_credits_prefix_le(s, n + 1, f);
        assert(s.take(n + 1).drop_last() =~= s.take(n));
    } else {
        assert(s.take(n) =~= s);
    }
}

} // verus!
