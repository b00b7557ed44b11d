//! Milestone-based escrow between a client and a freelancer, with an optional
//! arbiter, protocol fees, dispute resolution, finalization and governance.
//!
//! The crate models the escrow's whole ledger state as plain values
//! ([`escrow::Escrow`]) and gives every entrypoint a verified contract over
//! that model. Host concerns (authentication, token transfers, event
//! publication and storage persistence) belong to the embedding host.
#![allow(unused_imports)]

pub mod amount;
pub mod arbiter;
pub mod cancel;
pub mod constants;
pub mod create_contract;
pub mod deposit;
pub mod dispute;
pub mod escrow;
pub mod evidence;
pub mod finalize;
pub mod governance;
pub mod laws;
pub mod migration;
pub mod refund;
pub mod release;
pub mod reputation;
pub mod storage;
pub mod ttl;
pub mod status_index;
pub mod types;

pub use amount::{
    accumulate_amounts, checked_available_balance, safe_add_amounts, safe_subtract_amounts,
    validate_amount_array, validate_deposit_amount, validate_milestone_amounts,
    validate_single_amount, MAX_SINGLE_AMOUNT_STROOPS,
};
pub use cancel::ProtocolState;
pub use dispute::{final_status_after_resolution, resolution_payouts};
pub use escrow::{Escrow, FinalizationRecord, ReputationCredit, ReputationEntry};
pub use release::{calculate_protocol_fee, ReleaseOutcome};
pub use status_index::{status_code, MAX_PAGE_LIMIT};
pub use ttl::{ADMIN_ROTATION_MIN_DELAY_LEDGERS, PENDING_MIGRATION_TTL_LEDGERS};
pub use constants::{
    DEFAULT_MAX_MILESTONES, DEFAULT_MAX_TOTAL_ESCROW_STROOPS, MAINNET_MAX_TOTAL_ESCROW_PER_CONTRACT_STROOPS,
    MAINNET_PROTOCOL_VERSION, MAX_MAX_MILESTONES, MAX_MILESTONES, MAX_REPUTATION_BATCH_SIZE,
    MAX_TOTAL_ESCROW_STROOPS, MIN_MAX_ESCROW_STROOPS, MIN_MAX_MILESTONES,
};
pub use types::{
    AccountId, BatchContractResult, Contract, ContractBounds, ContractEntry, ContractItem,
    ContractStatus, ContractSummary, DepositMode, DisputeConfig, DisputeResolution, DisputeSplit,
    Error, EscrowError, GovernedParameters, Milestone, MilestoneApprovals, MilestoneEntry,
    MilestoneSummary, PendingAdminProposal, PendingClientMigration, ReadinessChecklist, ReleaseAuthorization, Reputation,
    ReputationBatchItem, SettlementState, SplitAmounts, StateV1, StateV2, StorageKey,
    CONTRACT_SUMMARY_SCHEMA_VERSION, CURRENT_MILESTONE_VERSION,
};
