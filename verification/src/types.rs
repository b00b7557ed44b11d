//! Shared escrow domain types: statuses, per-contract records, summaries,
//! governance records, dispute resolutions and the error enum.

use vstd::prelude::*;

verus! {

/// Accounts (clients, freelancers, arbiters, admins, tokens) are identified by
/// an opaque numeric handle that the host assigns to each address.
pub type AccountId = u64;

/// Schema version written into every [`ContractSummary`].
pub const CONTRACT_SUMMARY_SCHEMA_VERSION: u32 = 1;

/// Current storage version for milestone state.
pub const CURRENT_MILESTONE_VERSION: u32 = 2;

/// Every error an escrow entrypoint can report.
#[derive(Clone, Copy, Debug, PartialEq, Eq, Structural)]
pub enum Error {
    IndexOutOfBounds,
    AlreadyReleased,
    EmptyRefundRequest,
    DuplicateMilestoneInRefund,
    AlreadyRefunded,
    InsufficientFunds,
    ContractNotFound,
    UnauthorizedRole,
    MissingArbiter,
    InvalidArbiter,
    InvalidParticipants,
    AmountMustBePositive,
    InvalidState,
    MilestoneAlreadyReleased,
    AlreadyApproved,
    InsufficientApprovals,
    FreelancerMismatch,
    InvalidRating,
    ReputationAlreadyIssued,
    EmptyMilestones,
    InvalidMilestoneAmount,
    ContractIdCollision,
    ContractIdOverflow,
    EmptyComment,
    CommentTooLong,
    InvalidParticipant,
    InvalidDepositAmount,
    InvalidMilestone,
    AlreadyInitialized,
    InsufficientAccumulatedFees,
    NotInitialized,
    ContractPaused,
    EmergencyActive,
    SelfRating,
    NotCompleted,
    InvalidStatusTransition,
    ArbiterRequired,
    InvalidDisputeSplit,
    AccountingInvariantViolated,
    PotentialOverflow,
    AlreadyFinalized,
    AlreadyCancelled,
    EvidenceTooLong,
    TimelockNotElapsed,
    InvalidProtocolParameters,
    EscrowCapExceeded,
    SettlementTokenNotConfigured,
    MilestoneNotOverdue,
    RollbackNotAllowed,
    RollbackStateChanged,
    TotalCapExceeded,
    TooManyMilestones,
    ContractCancelled,
    ContractRefunded,
    InvalidSettlementToken,
    SettlementTokenIsSelf,
    SettlementTokenIsAdmin,
    SettlementTokenAlreadyBound,
    EmptyBatchRelease,
    DuplicateMilestoneInBatch,
    InvalidEventsLimit,
    StorageLimitOutOfRange,
    PartyNotAuthorized,
    CannotProposeSelf,
    DeadlineNotPassed,
}

/// The name under which the amount-validation helpers report their errors.
pub type EscrowError = Error;

/// Lifecycle state of an escrow contract.
#[derive(Clone, Copy, Debug, PartialEq, Eq, Structural)]
pub enum ContractStatus {
    Created,
    Accepted,
    Funded,
    Completed,
    Disputed,
    Cancelled,
    Refunded,
    PartiallyFunded,
}

/// Who must approve, and who may trigger, a milestone release.
#[derive(Clone, Copy, Debug, PartialEq, Eq, Structural)]
pub enum ReleaseAuthorization {
    /// The client approves and releases.
    ClientOnly,
    /// The arbiter approves and releases.
    ArbiterOnly,
    /// Either the client or the arbiter approves and releases.
    ClientAndArbiter,
    /// Both client and freelancer approve; either of them releases.
    MultiSig,
}

/// How deposits are accepted.
#[derive(Clone, Copy, Debug, PartialEq, Eq, Structural)]
pub enum DepositMode {
    ExactTotal,
    Incremental,
}

/// Per-contract participants, status and cumulative accounting.
#[derive(Clone, Copy, Debug, PartialEq, Eq, Structural)]
pub struct Contract {
    pub client: AccountId,
    pub freelancer: AccountId,
    pub arbiter: Option<AccountId>,
    pub status: ContractStatus,
    pub total_deposited: i128,
    pub funded_amount: i128,
    pub released_amount: i128,
    pub refunded_amount: i128,
    pub release_authorization: ReleaseAuthorization,
    pub reputation_issued: bool,
}

/// One milestone of a contract.
#[derive(Clone, Copy, Debug, PartialEq, Eq, Structural)]
pub struct Milestone {
    pub amount: i128,
    pub funded_amount: i128,
    pub released: bool,
    pub refunded: bool,
    pub refunded_amount: i128,
    pub deadline: Option<u64>,
}

/// Approval flags recorded for one milestone, live up to and including
/// ledger `live_until_ledger`.
#[derive(Clone, Copy, Debug, PartialEq, Eq, Structural)]
pub struct MilestoneApprovals {
    pub client_approved: bool,
    pub freelancer_approved: bool,
    pub arbiter_approved: bool,
    pub live_until_ledger: u32,
}

/// Read-only view of one milestone inside a [`ContractSummary`].
#[derive(Clone, Copy, Debug, PartialEq, Eq, Structural)]
pub struct MilestoneSummary {
    pub index: u32,
    pub amount: i128,
    pub released: bool,
    pub refunded: bool,
}

/// Lightweight milestone entry: `status` is 0 pending, 1 released, 2 refunded.
#[derive(Clone, Copy, Debug, PartialEq, Eq, Structural)]
pub struct MilestoneEntry {
    pub index: u32,
    pub status: u32,
    pub amount: i128,
}

/// Lightweight contract entry for paginated listings.
#[derive(Clone, Copy, Debug, PartialEq, Eq, Structural)]
pub struct ContractEntry {
    pub id: u32,
    pub client: AccountId,
    pub freelancer: AccountId,
    pub status: ContractStatus,
    pub funded_amount: i128,
    pub released_amount: i128,
}

/// Snapshot of a contract's participants, milestones and accounting.
#[derive(Clone, Debug)]
pub struct ContractSummary {
    pub schema_version: u32,
    pub client: AccountId,
    pub freelancer: AccountId,
    pub arbiter: Option<AccountId>,
    pub status: ContractStatus,
    pub reputation_issued: bool,
    pub total_amount: i128,
    pub funded_amount: i128,
    pub released_amount: i128,
    pub refundable_balance: i128,
    pub released_milestone_count: u32,
    pub milestones: Vec<MilestoneSummary>,
}

/// Protocol-wide limits.
#[derive(Clone, Copy, Debug, PartialEq, Eq, Structural)]
pub struct ContractBounds {
    pub max_milestones: u32,
    pub max_single_milestone_stroops: i128,
    pub max_total_escrow_stroops: i128,
    pub max_fee_bps: u32,
    pub max_disputes: u32,
}

/// Typed names of the per-contract records.
#[derive(Clone, Copy, Debug, PartialEq, Eq, Structural)]
pub enum StorageKey {
    Contract(u32),
    ContractMilestones(u32),
    MilestoneApprovals(u32, u32),
    Finalization(u32),
    PendingClientMigration(u32),
}

impl StorageKey {
    pub fn contract(contract_id: u32) -> (k: Self)
        ensures
            k == StorageKey::Contract(contract_id),
    {
        StorageKey::Contract(contract_id)
    }

    pub fn contract_milestones(contract_id: u32) -> (k: Self)
        ensures
            k == StorageKey::ContractMilestones(contract_id),
    {
        StorageKey::ContractMilestones(contract_id)
    }

    pub fn milestone_approvals(contract_id: u32, milestone_index: u32) -> (k: Self)
        ensures
            k == StorageKey::MilestoneApprovals(contract_id, milestone_index),
    {
        StorageKey::MilestoneApprovals(contract_id, milestone_index)
    }

    pub fn finalization(contract_id: u32) -> (k: Self)
        ensures
            k == StorageKey::Finalization(contract_id),
    {
        StorageKey::Finalization(contract_id)
    }

    pub fn pending_client_migration(contract_id: u32) -> (k: Self)
        ensures
            k == StorageKey::PendingClientMigration(contract_id),
    {
        StorageKey::PendingClientMigration(contract_id)
    }
}

/// Bounded snapshot of the settlement configuration.
#[derive(Clone, Copy, Debug, PartialEq, Eq, Structural)]
pub struct SettlementState {
    pub token: Option<AccountId>,
    pub accumulated_protocol_fees: i128,
}

/// Operational setup markers for a production deployment.
#[derive(Clone, Copy, Debug, PartialEq, Eq, Structural)]
pub struct ReadinessChecklist {
    pub initialized: bool,
    pub governed_params_set: bool,
    pub emergency_controls_enabled: bool,
}

impl Default for ReadinessChecklist {
    fn default() -> (c: Self)
        ensures
            !c.initialized && !c.governed_params_set && !c.emergency_controls_enabled,
    {
        ReadinessChecklist {
            initialized: false,
            governed_params_set: false,
            emergency_controls_enabled: false,
        }
    }
}

/// Admin-configured fee and escrow cap.
#[derive(Clone, Copy, Debug, PartialEq, Eq, Structural)]
pub struct GovernedParameters {
    pub protocol_fee_bps: u32,
    pub max_escrow_total_stroops: i128,
}

/// A hand-over of a contract to a new client, proposed by its current client
/// at ledger `requested_at_ledger` and live up to and including ledger
/// `live_until_ledger`.
#[derive(Clone, Copy, Debug, PartialEq, Eq, Structural)]
pub struct PendingClientMigration {
    pub current_client: AccountId,
    pub new_client: AccountId,
    pub requested_at_ledger: u32,
    pub live_until_ledger: u32,
}

/// A proposed admin and the ledger at which it was proposed.
#[derive(Clone, Copy, Debug, PartialEq, Eq, Structural)]
pub struct PendingAdminProposal {
    pub proposed: AccountId,
    pub proposed_at_ledger: u32,
}

/// Aggregated reputation of a freelancer.
#[derive(Clone, Copy, Debug, PartialEq, Eq, Structural)]
pub struct Reputation {
    pub completed_contracts: i128,
    pub total_rating: i128,
    pub last_rating: i128,
}

/// One item of a batch reputation call.
#[derive(Clone, Debug)]
pub struct ReputationBatchItem {
    pub contract_id: u32,
    pub rating: u32,
    pub comment: String,
}

/// One contract creation request within a batch.
#[derive(Clone, Debug)]
pub struct ContractItem {
    pub client: AccountId,
    pub freelancer: AccountId,
    pub arbiter: Option<AccountId>,
    pub milestones: Vec<i128>,
    pub release_authorization: ReleaseAuthorization,
}

/// The outcome of one item of a batch creation call.
#[derive(Clone, Copy, Debug, PartialEq, Eq, Structural)]
pub struct BatchContractResult {
    pub index: u32,
    pub contract_id: Option<u32>,
    pub error_code: Option<u32>,
}

/// Custom split of the remaining balance chosen by the arbiter.
#[derive(Clone, Copy, Debug, PartialEq, Eq, Structural)]
pub struct DisputeSplit {
    pub client_amount: i128,
    pub freelancer_amount: i128,
}

/// Another name for [`DisputeSplit`].
pub type SplitAmounts = DisputeSplit;

/// The arbiter's decision on a disputed contract.
#[derive(Clone, Copy, Debug, PartialEq, Eq, Structural)]
pub enum DisputeResolution {
    FullRefund,
    PartialRefund,
    FullPayout,
    Split(DisputeSplit),
}

impl DisputeResolution {
    /// Stable numeric code of the resolution kind, used in event payloads.
    pub open spec fn spec_code(self) -> u32 {
        match self {
            DisputeResolution::FullRefund => 0,
            DisputeResolution::PartialRefund => 1,
            DisputeResolution::FullPayout => 2,
            DisputeResolution::Split(_) => 3,
        }
    }

    pub fn code(&self) -> (c: u32)
        ensures
            c == self.spec_code(),
    {
        match self {
            DisputeResolution::FullRefund => 0,
            DisputeResolution::PartialRefund => 1,
            DisputeResolution::FullPayout => 2,
            DisputeResolution::Split(_) => 3,
        }
    }
}

/// Partial-refund split configuration, in basis points.
#[derive(Clone, Copy, Debug, PartialEq, Eq, Structural)]
pub struct DisputeConfig {
    pub partial_refund_freelancer_bps: u32,
    pub partial_refund_client_bps: u32,
}

/// Legacy state layout with inline milestone amounts.
#[derive(Clone, Debug)]
pub struct StateV1 {
    pub client: AccountId,
    pub freelancer: AccountId,
    pub milestones: Vec<i128>,
}

/// Current state layout, milestones stored separately.
#[derive(Clone, Copy, Debug, PartialEq, Eq, Structural)]
pub struct StateV2 {
    pub client: AccountId,
    pub freelancer: AccountId,
    pub status: ContractStatus,
}

} // verus!
