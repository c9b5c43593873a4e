//! The sync-state machine: per-record reconciliation state and the four
//! sync-tracking fields, together with the exact meta transitions that the
//! store's mutations perform.

use vstd::prelude::*;

verus! {

/// Reconciliation state of one record relative to the remote authority.
///
/// `Conflict` is part of the store's vocabulary but no operation in this
/// crate produces it; conflict detection belongs to the remote-sync
/// collaborator, which resolves conflicts by overwriting from the remote.
#[derive(Clone, Copy, PartialEq, Eq, Structural, Debug)]
pub enum SyncStatus {
    Pending,
    Synced,
    Conflict,
    Deleted,
}

/// The four sync-tracking fields that every stored record carries.
#[derive(Clone, Copy, Debug)]
pub struct SyncMeta {
    /// Lifecycle state relative to the remote authority.
    pub sync_status: SyncStatus,
    /// Time the record was last reconciled with the remote authority.
    pub synced_at: Option<u64>,
    /// Time of the most recent local mutation; never decreased by a local
    /// mutation.
    pub local_updated_at: u64,
    /// Time of the most recent value known to have been confirmed by the
    /// remote authority.
    pub server_updated_at: Option<u64>,
}

impl SyncMeta {
    /// Meta after a local field edit at time `now`: any local edit
    /// invalidates the prior sync agreement, so the status returns to
    /// `Pending` and the local-update stamp is refreshed (never moved
    /// backwards, even under clock skew).
    pub open spec fn edited(self, now: u64) -> SyncMeta {
        SyncMeta {
            sync_status: SyncStatus::Pending,
            local_updated_at: if now > self.local_updated_at {
                now
            } else {
                self.local_updated_at
            },
            ..self
        }
    }

    /// Meta after a soft delete at time `now`: the record becomes a
    /// tombstone, still stored but excluded from normal listings.
    pub open spec fn tombstoned(self, now: u64) -> SyncMeta {
        SyncMeta {
            sync_status: SyncStatus::Deleted,
            local_updated_at: if now > self.local_updated_at {
                now
            } else {
                self.local_updated_at
            },
            ..self
        }
    }

    /// Meta after the remote authority acknowledges the record's current
    /// state: status becomes `Synced`, the reconciliation time is stamped
    /// and the server's update time recorded.  The local-update stamp is
    /// untouched, which makes acknowledgement idempotent.
    pub open spec fn acknowledged(self, server_updated_at: u64, now: u64) -> SyncMeta {
        SyncMeta {
            sync_status: SyncStatus::Synced,
            synced_at: Some(now),
            server_updated_at: Some(server_updated_at),
            ..self
        }
    }

    /// Meta of a record hydrated from a remote payload whose own update
    /// time is `remote_updated_at`: the remote value wins unconditionally,
    /// so both update stamps take the remote's time.
    pub open spec fn from_remote(remote_updated_at: u64, now: u64) -> SyncMeta {
        SyncMeta {
            sync_status: SyncStatus::Synced,
            synced_at: Some(now),
            local_updated_at: remote_updated_at,
            server_updated_at: Some(remote_updated_at),
        }
    }
}

/// The textual label under which a status is persisted.
pub open spec fn spec_status_label(s: SyncStatus) -> Seq<char> {
    match s {
        SyncStatus::Pending => "pending"@,
        SyncStatus::Synced => "synced"@,
        SyncStatus::Conflict => "conflict"@,
        SyncStatus::Deleted => "deleted"@,
    }
}

/// The status denoted by a textual label, if any.
pub open spec fn spec_parse_status(s: Seq<char>) -> Option<SyncStatus> {
    if s == "pending"@ {
        Some(SyncStatus::Pending)
    } else if s == "synced"@ {
        Some(SyncStatus::Synced)
    } else if s == "conflict"@ {
        Some(SyncStatus::Conflict)
    } else if s == "deleted"@ {
        Some(SyncStatus::Deleted)
    } else {
        None
    }
}

/// Renders a status as its persisted textual label.
pub fn status_label(s: SyncStatus) -> (r: String)
    ensures
        r@ == spec_status_label(s),
{
    match s {
        SyncStatus::Pending => String::from_str("pending"),
        SyncStatus::Synced => String::from_str("synced"),
        SyncStatus::Conflict => String::from_str("conflict"),
        SyncStatus::Deleted => String::from_str("deleted"),
    }
}

/// Does `s` hold exactly the characters of `lit`?
pub fn is_label(s: &String, lit: &str) -> (b: bool)
    ensures
        b == (s@ == lit@),
{
    let l = String::from_str(lit);
    *s == l
}

/// Parses a persisted textual label back into a status.
pub fn parse_status(s: &String) -> (r: Option<SyncStatus>)
    ensures
        r == spec_parse_status(s@),
{
    if is_label(s, "pending") {
        Some(SyncStatus::Pending)
    } else if is_label(s, "synced") {
        Some(SyncStatus::Synced)
    } else if is_label(s, "conflict") {
        Some(SyncStatus::Conflict)
    } else if is_label(s, "deleted") {
        Some(SyncStatus::Deleted)
    } else {
        None
    }
}

} // verus!
