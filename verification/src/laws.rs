//! Properties of the escrow that span several entrypoints or hold in every
//! reachable state.

use vstd::prelude::*;

use crate::dispute::{available_of, resolved, spec_resolution_payouts};
use crate::escrow::{
    completed_total, lemma_completed_split, lemma_unrated_count_le_len, ms_total, rated_count,
    record_wf, reputation_matches, unrated_count, Escrow,
};
use crate::status_index::{buckets, page_of, spec_status_code, MAX_PAGE_LIMIT, STATUS_BUCKETS};
use crate::finalize::{is_summary_of, released_count};
use crate::release::{already_approved, approvals_satisfied, approved_by};
use crate::status_index::contracts_page;
use crate::ttl::{spec_expiry, ADMIN_ROTATION_MIN_DELAY_LEDGERS, PENDING_APPROVAL_TTL_LEDGERS};
use crate::types::{
    AccountId, Contract, ContractStatus, ContractSummary, DisputeResolution, Error, Milestone,
    MilestoneApprovals, ReleaseAuthorization,
};

verus! {

/// Once a contract is finalized, every contract-specific mutating entrypoint
/// that moves value or changes its parties (deposit, approval, release, batch
/// release, refund, timeout refund, dispute, resolution, cancellation,
/// finalization, client migration) rejects it with `AlreadyFinalized`, provided the escrow is
/// initialized and neither paused nor in an emergency, and the call is
/// otherwise well-formed (a positive deposit, a non-empty batch or refund
/// request without duplicates).
pub proof fn law_finalized_contract_is_frozen(
    e: Escrow,
    contract_id: u32,
    caller: AccountId,
    milestone_index: u32,
    ledger: u32,
    amount: i128,
    indices: Seq<u32>,
    resolution: DisputeResolution,
    now: u64,
    new_client: AccountId,
)
    requires
        e.wf(),
        e.initialized,
        e.pause_error() is None,
        e.has_contract(contract_id),
        e.is_finalized_at(contract_id),
        amount > 0,
        indices.len() > 0,
        crate::status_index::no_dups(indices),
    ensures
        e.deposit_error(contract_id, caller, amount) == Some(Error::AlreadyFinalized),
        e.approve_error(contract_id, caller, milestone_index, ledger) == Some(Error::AlreadyFinalized),
        e.release_error(contract_id, caller, milestone_index, ledger) == Some(Error::AlreadyFinalized),
        e.batch_error(contract_id, caller, indices, ledger) == Some(Error::AlreadyFinalized),
        e.raise_error(contract_id, caller) == Some(Error::AlreadyFinalized),
        e.resolve_error(contract_id, caller, resolution) == Some(Error::AlreadyFinalized),
        e.cancel_error(contract_id, caller) == Some(Error::AlreadyFinalized),
        e.finalize_error(contract_id, caller) == Some(Error::AlreadyFinalized),
        e.refund_error(contract_id, indices, now) == Some(Error::AlreadyFinalized),
        e.propose_migration_error(contract_id, caller, new_client, ledger) == Some(
            Error::AlreadyFinalized,
        ),
        e.accept_migration_error(contract_id, new_client, ledger) == Some(Error::AlreadyFinalized),
        e.timeout_refund_error(contract_id, milestone_index, now) == Some(Error::AlreadyFinalized),
{
}

/// In every reachable state each contract's accounting is conserved:
/// `0 <= released`, `0 <= refunded`, `released + refunded <= funded`, the
/// funded amount never exceeds the sum of the milestone amounts, and no
/// milestone is both released and refunded.
pub proof fn law_accounting_conserved(e: Escrow, contract_id: u32)
    requires
        e.wf(),
        e.has_contract(contract_id),
    ensures
        0 <= e.contract_at(contract_id).released_amount,
        0 <= e.contract_at(contract_id).refunded_amount,
        0 <= available_of(e.contract_at(contract_id)),
        e.contract_at(contract_id).funded_amount <= ms_total(e.milestones_at(contract_id)),
        e.contract_at(contract_id).total_deposited == e.contract_at(contract_id).funded_amount,
        forall|j: int|
            0 <= j < e.milestones_at(contract_id).len() ==> !(#[trigger] e.milestones_at(
                contract_id,
            )[j].released && e.milestones_at(contract_id)[j].refunded),
{
    assert(record_wf(
        e.contracts@[contract_id - 1],
        e.milestones@[contract_id - 1]@,
        e.approvals@[contract_id - 1]@,
    ));
    let ms = e.milestones_at(contract_id);
    assert forall|j: int| 0 <= j < ms.len() implies !(#[trigger] ms[j].released && ms[j].refunded) by {
        assert(0 < ms[j].amount);
    }
}

/// A contract's participants are distinct, and an arbiter is present
/// whenever the release authorization involves one.
pub proof fn law_participants_distinct(e: Escrow, contract_id: u32)
    requires
        e.wf(),
        e.has_contract(contract_id),
    ensures
        e.contract_at(contract_id).client != e.contract_at(contract_id).freelancer,
        e.contract_at(contract_id).arbiter matches Some(a) ==> a != e.contract_at(
            contract_id,
        ).client && a != e.contract_at(contract_id).freelancer,
{
    assert(record_wf(
        e.contracts@[contract_id - 1],
        e.milestones@[contract_id - 1]@,
        e.approvals@[contract_id - 1]@,
    ));
}

/// Every accepted dispute resolution pays out exactly the available balance,
/// so the resolved contract has nothing left in escrow.
pub proof fn law_resolution_settles_balance(c: crate::types::Contract, resolution: DisputeResolution)
    requires
        0 <= c.released_amount,
        0 <= c.refunded_amount,
        spec_resolution_payouts(c, resolution) is Ok,
    ensures
        ({
            let (client, freelancer) = spec_resolution_payouts(c, resolution)->Ok_0;
            &&& client >= 0
            &&& freelancer >= 0
            &&& client + freelancer == available_of(c)
            &&& available_of(resolved(c, client, freelancer)) == 0
        }),
{
    let available = available_of(c);
    match resolution {
        DisputeResolution::PartialRefund => {
            let f = available * 30 / 100;
            assert(available * crate::constants::PARTIAL_REFUND_FREELANCER_SHARE / (crate::constants::PARTIAL_REFUND_DENOMINATOR as int) == f);
            assert(0 <= f <= available) by (nonlinear_arith)
                requires
                    f == available * 30 / 100,
                    available >= 0,
            ;
        },
        _ => {},
    }
}

/// A partial refund gives the freelancer 30 % of the available balance,
/// rounded down, and the client the rest.
pub proof fn law_partial_refund_split(c: crate::types::Contract)
    requires
        spec_resolution_payouts(c, DisputeResolution::PartialRefund) is Ok,
    ensures
        spec_resolution_payouts(c, DisputeResolution::PartialRefund)->Ok_0.1 == available_of(c) * 30
            / 100,
        spec_resolution_payouts(c, DisputeResolution::PartialRefund)->Ok_0.0 == available_of(c)
            - available_of(c) * 30 / 100,
{
}

/// Each freelancer holds exactly one pending reputation credit per completed
/// contract of theirs that has not been rated yet: pending credits equal
/// completed contracts minus rated ones, and never go negative; refunded or
/// cancelled contracts earn none. The freelancer's aggregate counts exactly
/// the rated contracts, with a total rating between one and five per rating.
pub proof fn law_pending_credits_balance(e: Escrow, freelancer: AccountId)
    requires
        e.wf(),
    ensures
        e.credits_of(freelancer) == unrated_count(e.contracts@, freelancer),
        e.credits_of(freelancer) == completed_total(e.contracts@, freelancer) - rated_count(
            e.contracts@,
            freelancer,
        ),
        e.credits_of(freelancer) >= 0,
        match e.reputation_of(freelancer) {
            None => rated_count(e.contracts@, freelancer) == 0,
            Some(r) => r.completed_contracts == rated_count(e.contracts@, freelancer)
                && r.completed_contracts <= r.total_rating <= 5 * r.completed_contracts,
        },
{
    assert forall|k: int| 0 <= k < e.contracts@.len() && (#[trigger] e.contracts@[k]).reputation_issued
        implies e.contracts@[k].status == ContractStatus::Completed by {
        assert(record_wf(e.contracts@[k], e.milestones@[k]@, e.approvals@[k]@));
    }
    lemma_completed_split(e.contracts@, freelancer);
    lemma_unrated_count_le_len(e.contracts@, freelancer);
    assert(reputation_matches(e.reputation_of(freelancer), rated_count(e.contracts@, freelancer)));
}

/// Reputation is issued at most once per contract: once a contract carries
/// its rating, every further issuance by its client with an otherwise valid
/// rating and comment is rejected with `ReputationAlreadyIssued`.
pub proof fn law_reputation_issued_once(e: Escrow, contract_id: u32, rating: u32, comment_len: int)
    requires
        e.wf(),
        e.initialized,
        e.pause_error() is None,
        e.has_contract(contract_id),
        e.contract_at(contract_id).reputation_issued,
        1 <= rating <= 5,
        1 <= comment_len <= 200,
    ensures
        e.issue_error(contract_id, e.contract_at(contract_id).client, rating, comment_len) == Some(
            Error::ReputationAlreadyIssued,
        ),
{
    assert(record_wf(
        e.contracts@[contract_id - 1],
        e.milestones@[contract_id - 1]@,
        e.approvals@[contract_id - 1]@,
    ));
}

/// The status index lists a contract exactly under its current status.
pub proof fn law_status_index_exact(e: Escrow, contract_id: u32, status: ContractStatus)
    requires
        e.wf(),
        e.has_contract(contract_id),
    ensures
        buckets(e.status_index@)[spec_status_code(status) as int].contains(contract_id)
            <==> e.contract_at(contract_id).status == status,
{
    let idx = buckets(e.status_index@);
    let st = e.statuses();
    let k = contract_id - 1;
    assert(st[k] == e.contract_at(contract_id).status);
    assert(idx[spec_status_code(st[k]) as int].contains((k + 1) as u32));
    if idx[spec_status_code(status) as int].contains(contract_id) {
        let j = choose|j: int| 0 <= j < idx[spec_status_code(status) as int].len() && #[trigger] idx[spec_status_code(status) as int][j] == contract_id;
        assert(spec_status_code(st[contract_id - 1]) == spec_status_code(status));
        crate::status_index::lemma_status_code_injective(st[k], status);
    }
}

/// An admin proposal cannot be accepted before the rotation delay has elapsed.
pub proof fn law_admin_rotation_timelock(e: Escrow, ledger: u32)
    requires
        e.initialized,
        e.pending_admin is Some,
        ledger < e.pending_admin.unwrap().proposed_at_ledger + ADMIN_ROTATION_MIN_DELAY_LEDGERS,
    ensures
        e.accept_admin_error(ledger) == Some(Error::TimelockNotElapsed),
{
}

/// The settlement token is written once: with a token bound, every further
/// bind by the admin is rejected.
pub proof fn law_settlement_token_write_once(e: Escrow, token: AccountId, escrow_address: AccountId)
    requires
        e.initialized,
        e.admin is Some,
        e.settlement_token is Some,
    ensures
        e.bind_error(e.admin.unwrap(), token, escrow_address) == Some(Error::SettlementTokenAlreadyBound),
{
}

/// A client migration proposal cannot be accepted once it has expired: past
/// its last live ledger, acceptance is rejected with `InvalidState` and a
/// fresh proposal may be made.
pub proof fn law_migration_proposal_expires(e: Escrow, contract_id: u32, new_client: AccountId, ledger: u32)
    requires
        e.pause_error() is None,
        e.has_contract(contract_id),
        !e.is_finalized_at(contract_id),
        e.migrations@[contract_id - 1] matches Some(p) && ledger > p.live_until_ledger,
    ensures
        e.accept_migration_error(contract_id, new_client, ledger) == Some(Error::InvalidState),
        e.migration_at(contract_id, ledger) is None,
{
}

/// A milestone is never timeout-refunded before its deadline has passed:
/// without a deadline, or at any time up to and including the deadline, an
/// otherwise admissible claim is rejected with `DeadlineNotPassed`.
pub proof fn law_timeout_refund_waits_for_deadline(e: Escrow, contract_id: u32, milestone_index: u32, now: u64)
    requires
        e.pause_error() is None,
        e.has_contract(contract_id),
        !e.is_finalized_at(contract_id),
        e.contract_at(contract_id).status == ContractStatus::Created || e.contract_at(contract_id).status
            == ContractStatus::Funded || e.contract_at(contract_id).status
            == ContractStatus::PartiallyFunded,
        milestone_index < e.milestones_at(contract_id).len(),
        !e.milestones_at(contract_id)[milestone_index as int].released,
        !e.milestones_at(contract_id)[milestone_index as int].refunded,
        e.milestones_at(contract_id)[milestone_index as int].deadline matches Some(d) ==> now <= d,
    ensures
        e.timeout_refund_error(contract_id, milestone_index, now) == Some(Error::DeadlineNotPassed),
{
}

/// A contract summary (the one `summarize_contract` returns and the one a
/// finalization record keeps) reports as refundable exactly what
/// `get_refundable_balance` reports: what was funded and neither released
/// nor refunded. It is never negative, never more than was funded, and it is
/// zero once everything funded has been released or refunded.
pub proof fn law_summary_refundable_balance(e: Escrow, contract_id: u32, s: ContractSummary)
    requires
        e.wf(),
        e.has_contract(contract_id),
        is_summary_of(s, e.contract_at(contract_id), e.milestones_at(contract_id)),
    ensures
        s.refundable_balance == e.contract_at(contract_id).funded_amount - e.contract_at(
            contract_id,
        ).released_amount - e.contract_at(contract_id).refunded_amount,
        s.refundable_balance + s.released_amount + e.contract_at(contract_id).refunded_amount
            == s.funded_amount,
        0 <= s.refundable_balance <= s.funded_amount,
        e.contract_at(contract_id).released_amount + e.contract_at(contract_id).refunded_amount
            == e.contract_at(contract_id).funded_amount ==> s.refundable_balance == 0,
{
    assert(record_wf(
        e.contracts@[contract_id - 1],
        e.milestones@[contract_id - 1]@,
        e.approvals@[contract_id - 1]@,
    ));
}

/// A contract summary describes its contract: the same participants, status
/// and amounts, one entry per milestone carrying that milestone's position,
/// amount and flags, a total no smaller than what was funded, and a count of
/// released milestones that is all of them when every milestone is released
/// and none when none is.
pub proof fn law_summary_describes_contract(e: Escrow, contract_id: u32, s: ContractSummary)
    requires
        e.wf(),
        e.has_contract(contract_id),
        is_summary_of(s, e.contract_at(contract_id), e.milestones_at(contract_id)),
    ensures
        s.client == e.contract_at(contract_id).client,
        s.freelancer == e.contract_at(contract_id).freelancer,
        s.arbiter == e.contract_at(contract_id).arbiter,
        s.status == e.contract_at(contract_id).status,
        s.funded_amount == e.contract_at(contract_id).funded_amount,
        s.released_amount == e.contract_at(contract_id).released_amount,
        s.funded_amount <= s.total_amount,
        s.milestones@.len() == e.milestones_at(contract_id).len(),
        forall|j: int|
            0 <= j < s.milestones@.len() ==> {
                &&& (#[trigger] s.milestones@[j]).index == j
                &&& s.milestones@[j].amount == e.milestones_at(contract_id)[j].amount
                &&& s.milestones@[j].released == e.milestones_at(contract_id)[j].released
                &&& s.milestones@[j].refunded == e.milestones_at(contract_id)[j].refunded
            },
        0 <= s.released_milestone_count <= s.milestones@.len(),
        (forall|j: int| 0 <= j < s.milestones@.len() ==> #[trigger] s.milestones@[j].released)
            ==> s.released_milestone_count == s.milestones@.len(),
        (forall|j: int| 0 <= j < s.milestones@.len() ==> !#[trigger] s.milestones@[j].released)
            ==> s.released_milestone_count == 0,
{
    let ms = e.milestones_at(contract_id);
    assert(record_wf(e.contracts@[contract_id - 1], ms, e.approvals@[contract_id - 1]@));
    assert forall|j: int| 0 <= j < ms.len() implies s.milestones@[j].index == j by {
        assert(ms.len() <= crate::constants::MAX_MILESTONES);
    }
    lemma_released_count_bounds(ms);
    if forall|j: int| 0 <= j < s.milestones@.len() ==> #[trigger] s.milestones@[j].released {
        assert forall|j: int| 0 <= j < ms.len() implies #[trigger] ms[j].released by {
            assert(s.milestones@[j].released);
        }
    }
    if forall|j: int| 0 <= j < s.milestones@.len() ==> !#[trigger] s.milestones@[j].released {
        assert forall|j: int| 0 <= j < ms.len() implies !#[trigger] ms[j].released by {
            assert(!s.milestones@[j].released);
        }
    }
}

/// `released_count` counts between none and all of the milestones, all when
/// every one is released and none when none is.
proof fn lemma_released_count_bounds(ms: Seq<Milestone>)
    ensures
        0 <= released_count(ms) <= ms.len(),
        (forall|j: int| 0 <= j < ms.len() ==> #[trigger] ms[j].released) ==> released_count(ms)
            == ms.len(),
        (forall|j: int| 0 <= j < ms.len() ==> !#[trigger] ms[j].released) ==> released_count(ms)
            == 0,
    decreases ms.len(),
{
    if ms.len() > 0 {
        lemma_released_count_bounds(ms.drop_last());
        if forall|j: int| 0 <= j < ms.len() ==> #[trigger] ms[j].released {
            assert forall|j: int| 0 <= j < ms.drop_last().len() implies #[trigger] ms.drop_last()[j].released by {
                assert(ms.drop_last()[j] == ms[j]);
            }
            assert(ms.last() == ms[ms.len() - 1]);
        }
        if forall|j: int| 0 <= j < ms.len() ==> !#[trigger] ms[j].released {
            assert forall|j: int| 0 <= j < ms.drop_last().len() implies !#[trigger] ms.drop_last()[j].released by {
                assert(ms.drop_last()[j] == ms[j]);
            }
            assert(ms.last() == ms[ms.len() - 1]);
        }
    }
}

/// Approving renews the milestone's approvals: after `caller` approves at
/// `ledger`, whatever approvals were recorded before, they stay live through
/// `ledger + PENDING_APPROVAL_TTL_LEDGERS` (saturating), `caller`'s own
/// approval counts at every ledger up to then, and so does every approval
/// that was live when `caller` approved.
pub proof fn law_approval_renews_lifetime(
    c: Contract,
    before: Option<MilestoneApprovals>,
    caller: AccountId,
    ledger: u32,
    later: u32,
)
    requires
        later <= spec_expiry(ledger, PENDING_APPROVAL_TTL_LEDGERS),
    ensures
        approved_by(c, before, caller, ledger).live_until_ledger == spec_expiry(
            ledger,
            PENDING_APPROVAL_TTL_LEDGERS,
        ),
        spec_expiry(ledger, PENDING_APPROVAL_TTL_LEDGERS) >= ledger,
        already_approved(c, Some(approved_by(c, before, caller, ledger)), caller, later),
        forall|other: AccountId|
            #[trigger] already_approved(c, before, other, ledger) ==> already_approved(
                c,
                Some(approved_by(c, before, caller, ledger)),
                other,
                later,
            ),
{
}

/// Under multi-signature release, once the client has approved and the
/// freelancer approves while the client's approval is still live, the
/// milestone is releasable at every ledger through the freelancer's approval
/// plus a full approval lifetime, even after the client's own approval
/// would have lapsed.
pub proof fn law_multisig_second_approval_extends_release_window(
    c: Contract,
    before: Option<MilestoneApprovals>,
    client_ledger: u32,
    freelancer_ledger: u32,
    release_ledger: u32,
)
    requires
        c.release_authorization == ReleaseAuthorization::MultiSig,
        c.client != c.freelancer,
        c.arbiter != Some(c.freelancer),
        client_ledger <= freelancer_ledger <= spec_expiry(client_ledger, PENDING_APPROVAL_TTL_LEDGERS),
        release_ledger <= spec_expiry(freelancer_ledger, PENDING_APPROVAL_TTL_LEDGERS),
    ensures
        approvals_satisfied(
            c,
            Some(
                approved_by(
                    c,
                    Some(approved_by(c, before, c.client, client_ledger)),
                    c.freelancer,
                    freelancer_ledger,
                ),
            ),
            release_ledger,
        ),
{
}

/// Every entry of a contracts page lists an existing contract and carries
/// that contract's own participants, status, funded amount and released
/// amount, as `get_contract` reports them.
pub proof fn law_contracts_page_reports_contracts(e: Escrow, start: u32, limit: u32, k: int)
    requires
        e.wf(),
        0 <= k < contracts_page(e.contracts@, start as int, limit as int).len(),
    ensures
        ({
            let entry = contracts_page(e.contracts@, start as int, limit as int)[k];
            &&& entry.id == start + k + 1
            &&& e.has_contract(entry.id)
            &&& entry.client == e.contract_at(entry.id).client
            &&& entry.freelancer == e.contract_at(entry.id).freelancer
            &&& entry.status == e.contract_at(entry.id).status
            &&& entry.funded_amount == e.contract_at(entry.id).funded_amount
            &&& entry.released_amount == e.contract_at(entry.id).released_amount
        }),
{
}

/// A page never holds more than `MAX_PAGE_LIMIT` ids, and consecutive pages
/// of size `limit` tile the listed ids without gaps or overlap.
pub proof fn law_pagination(ids: Seq<u32>, start: int, limit: int)
    requires
        0 <= start,
        0 < limit <= MAX_PAGE_LIMIT,
        start + limit <= ids.len(),
    ensures
        page_of(ids, start, limit).len() <= MAX_PAGE_LIMIT,
        page_of(ids, start, limit) + page_of(ids, start + limit, limit) =~= ids.subrange(
            start,
            if start + 2 * limit < ids.len() {
                start + 2 * limit
            } else {
                ids.len() as int
            },
        ),
{
}

} // verus!
