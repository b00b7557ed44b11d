//! Named constants used throughout the escrow.

use vstd::prelude::*;

verus! {

/// Maximum basis points (= 100 %), the highest possible protocol fee.
pub const MAX_BPS: u32 = 10_000;

/// Denominator for basis-point arithmetic.
pub const BPS_DENOMINATOR: u32 = 10_000;

/// Minimum valid reputation rating (inclusive).
pub const MIN_RATING: u32 = 1;

/// Maximum valid reputation rating (inclusive).
pub const MAX_RATING: u32 = 5;

/// Maximum byte length of a reputation feedback comment.
pub const MAX_COMMENT_BYTES: u32 = 200;

/// Maximum byte length of submitted work evidence.
pub const MAX_EVIDENCE_BYTES: u32 = 256;

/// Numerator of the freelancer's share in a partial refund (30 %).
pub const PARTIAL_REFUND_FREELANCER_SHARE: i128 = 30;

/// Denominator of the partial-refund percentage.
pub const PARTIAL_REFUND_DENOMINATOR: i128 = 100;

/// The first contract id allocated.
pub const INITIAL_CONTRACT_ID: u32 = 1;

/// Unit increment of pending reputation credits.
pub const REPUTATION_CREDIT_INCREMENT: i128 = 1;

/// Default maximum number of milestones allowed per contract.
pub const DEFAULT_MAX_MILESTONES: u32 = 10;

/// Default hard cap on the total escrow value per contract, in stroops.
pub const DEFAULT_MAX_TOTAL_ESCROW_STROOPS: i128 = 10_000_000_000_000;

/// Maximum number of milestones per contract.
pub const MAX_MILESTONES: u32 = DEFAULT_MAX_MILESTONES;

/// Cap on the total escrow value per contract, in stroops.
pub const MAX_TOTAL_ESCROW_STROOPS: i128 = DEFAULT_MAX_TOTAL_ESCROW_STROOPS;

/// Absolute minimum for the max milestones setting.
pub const MIN_MAX_MILESTONES: u32 = 1;

/// Absolute maximum for the max milestones setting.
pub const MAX_MAX_MILESTONES: u32 = 100;

/// Absolute minimum for the max escrow stroops setting (0.01 XLM).
pub const MIN_MAX_ESCROW_STROOPS: i128 = 1_000_000;

pub const MAINNET_PROTOCOL_VERSION: u32 = 1u32;

pub const MAINNET_MAX_TOTAL_ESCROW_PER_CONTRACT_STROOPS: i128 = 1_000_000_000_000_000i128;

/// Maximum number of reputation items accepted in a single batch call.
pub const MAX_REPUTATION_BATCH_SIZE: usize = 10;

/// Smallest admin-configurable per-contract storage limit, in bytes.
pub const MIN_STORAGE_LIMIT: u32 = 1;

/// Largest admin-configurable per-contract storage limit, in bytes.
pub const MAX_STORAGE_LIMIT: u32 = 1_000_000;

/// Per-contract storage limit applied until an admin overrides it.
pub const DEFAULT_STORAGE_LIMIT: u32 = 65_536;

/// Events limit applied until an admin overrides it.
pub const DEFAULT_EVENTS_LIMIT: u32 = 100;

/// Largest accepted events limit.
pub const MAX_EVENTS_LIMIT: u32 = 1000;

} // verus!
