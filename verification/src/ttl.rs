//! Ledger-count retention policy for transient and persistent records.

use vstd::prelude::*;

verus! {

pub const LEDGERS_PER_DAY: u32 = 17_280;

/// Lifetime of a milestone approval (7 days).
pub const PENDING_APPROVAL_TTL_LEDGERS: u32 = LEDGERS_PER_DAY * 7;

pub const PENDING_APPROVAL_BUMP_THRESHOLD: u32 = LEDGERS_PER_DAY;

pub const MIN_APPROVAL_TTL: u32 = 17_280;

/// Minimum number of ledgers between an admin proposal and its acceptance (2 days).
pub const ADMIN_ROTATION_MIN_DELAY_LEDGERS: u32 = LEDGERS_PER_DAY * 2;

/// Lifetime of a pending client migration (21 days).
pub const PENDING_MIGRATION_TTL_LEDGERS: u32 = LEDGERS_PER_DAY * 21;

pub const PENDING_MIGRATION_BUMP_THRESHOLD: u32 = LEDGERS_PER_DAY * 3;

/// Lifetime to which contract and milestone records are renewed (30 days).
pub const PERSISTENT_TTL_LEDGERS: u32 = LEDGERS_PER_DAY * 30;

pub const PERSISTENT_BUMP_THRESHOLD: u32 = LEDGERS_PER_DAY * 7;

/// The last ledger at which a record written at `ledger` with lifetime
/// `ttl_ledgers` is still live (saturating at `u32::MAX`).
pub open spec fn spec_expiry(ledger: u32, ttl_ledgers: u32) -> u32 {
    if ledger + ttl_ledgers > u32::MAX {
        u32::MAX
    } else {
        (ledger + ttl_ledgers) as u32
    }
}

/// Expiry ledger of a record written at `ledger` that lives `ttl_ledgers`.
pub fn compute_expiry(ledger: u32, ttl_ledgers: u32) -> (e: u32)
    ensures
        e == spec_expiry(ledger, ttl_ledgers),
{
    ledger.saturating_add(ttl_ledgers)
}

} // verus!
