//! Storage-layout version marker and its migration.

use vstd::prelude::*;

verus! {

/// Current storage layout version. Version 0 is the legacy layout that
/// predates the marker; it already keeps its data under the current keys.
pub const ESCROW_STORAGE_VERSION: u32 = 1;

/// Brings any stored version to the current one.
pub fn ensure_storage_version(stored_version: u32) -> (v: u32)
    ensures
        v == ESCROW_STORAGE_VERSION,
{
    if stored_version == ESCROW_STORAGE_VERSION {
        return stored_version;
    }
    migrate_storage_to_current(stored_version)
}

/// Upgrades a version older than the current one; newer versions stay.
pub fn initialize_storage_version(stored_version: u32) -> (v: u32)
    ensures
        v == if stored_version < ESCROW_STORAGE_VERSION {
            ESCROW_STORAGE_VERSION
        } else {
            stored_version
        },
{
    if stored_version < ESCROW_STORAGE_VERSION {
        migrate_storage_to_current(stored_version)
    } else {
        stored_version
    }
}

/// Migrates from `from_version` and returns the stamped version.
pub fn migrate_storage_to_current(from_version: u32) -> (v: u32)
    ensures
        v == ESCROW_STORAGE_VERSION,
{
    match from_version {
        0 => migrate_v0_to_v1(),
        _ => ESCROW_STORAGE_VERSION,
    }
}

/// The legacy layout already holds its data under the current keys: the
/// migration only stamps the version.
pub fn migrate_v0_to_v1() -> (v: u32)
    ensures
        v == ESCROW_STORAGE_VERSION,
{
    ESCROW_STORAGE_VERSION
}

} // verus!
