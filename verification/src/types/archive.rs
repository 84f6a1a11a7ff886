//! Cold storage: archive files and the policy that fills them.

use crate::time::{utc_now, Timestamp};
use vstd::prelude::*;

verus! {

/// The version of the data inside an archive file, whatever the backend.
pub const ARCHIVE_SCHEMA_VERSION: u32 = 14;

/// The version of the archive file layout.
pub const CURRENT_PAK_VERSION: u32 = 2;

/// How many days a fact stays expired before it may be archived.
pub const ARCHIVE_AFTER_DAYS: u32 = 30;

/// How few archivable facts are not worth a file.
pub const ARCHIVE_MIN_FACTS: usize = 100;

/// Which facts may be archived.
#[derive(Debug, Clone, Copy, PartialEq, Eq, Structural)]
pub struct ArchivePolicy {
    pub expired_before: Timestamp,
    pub min_facts: usize,
}

impl ArchivePolicy {
    /// The standard policy as of `now`.
    pub fn as_of(now: Timestamp) -> (r: ArchivePolicy)
        requires
            crate::time::MIN_SECS + 30 * crate::time::SECS_PER_DAY <= now.secs,
        ensures
            r.expired_before.secs == now.secs - 30 * crate::time::SECS_PER_DAY,
            r.expired_before.nanos == now.nanos,
            r.min_facts == 100,
    {
        ArchivePolicy {
            expired_before: now.days_earlier(ARCHIVE_AFTER_DAYS),
            min_facts: ARCHIVE_MIN_FACTS,
        }
    }
}

impl Default for ArchivePolicy {
    /// The standard policy as of the current time.
    fn default() -> (r: ArchivePolicy)
        ensures
            r.min_facts == 100,
            r.expired_before.valid(),
            r.expired_before.secs >= -30 * crate::time::SECS_PER_DAY,
    {
        ArchivePolicy::as_of(utc_now())
    }
}

/// What an archival run did.
#[derive(Debug, Clone, PartialEq, Eq)]
pub struct ArchiveStats {
    pub facts_archived: usize,
    pub edges_archived: usize,
    pub pak_path: String,
    pub pak_size_bytes: u64,
    pub blake3_hash: String,
}

/// A row of the archive manifest.
#[derive(Debug, Clone, PartialEq, Eq)]
pub struct ArchiveManifestEntry {
    pub id: i64,
    /// The archive file, relative to the archive directory.
    pub pak_path: String,
    pub created_at: Timestamp,
    pub fact_count: i64,
    pub edge_count: i64,
    pub fact_id_min: i64,
    pub fact_id_max: i64,
    pub t_created_min: Timestamp,
    pub t_created_max: Timestamp,
    pub size_bytes: i64,
    pub blake3_hash: String,
}

/// Whether an archive file is what the manifest says.
#[derive(Debug, Clone, PartialEq, Eq)]
pub struct ArchiveVerifyResult {
    pub manifest_id: i64,
    pub pak_path: String,
    pub ok: bool,
    pub error: Option<String>,
}

/// The standard policy archives what expired thirty days before, and no fewer than a
/// hundred facts.
pub proof fn standard_policy_waits_thirty_days(now: Timestamp, r: ArchivePolicy)
    requires
        call_ensures(ArchivePolicy::as_of, (now,), r),
    ensures
        r.expired_before.secs + 30 * 24 * 60 * 60 == now.secs,
        r.expired_before.nanos == now.nanos,
        r.min_facts == 100,
        r.expired_before.before(now),
{
}

} // verus!
