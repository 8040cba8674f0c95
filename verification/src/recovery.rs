//! Recovery of open `dedup_journal` rows at boot.
//!
//! The decision is pure: an open journal row, the `statx` of the destination
//! file (or `None` when it cannot be opened) and the boot time. The one
//! invariant that matters most: the metadata of another inode is never
//! touched. When the key observed at the path differs from the one the journal
//! recorded, the journal stays `cloned` and is retried later.

use vstd::prelude::*;

use crate::model::{Identity, JournalState, Ts};
use crate::repo::JournalRow;

verus! {

/// Why a `cloned` journal cannot be closed yet.
#[derive(Clone, Copy, Debug, PartialEq, Eq, Structural)]
pub enum RetryReason {
    /// The destination could not be opened (deleted, or its mount not ready).
    KhongThayFile,
    /// Opened, but another inode: the file was replaced at the same path.
    InodeKhongKhop,
}

/// Why a journal is given up.
#[derive(Clone, Copy, Debug, PartialEq, Eq, Structural)]
pub enum AbortReason {
    /// `planned` or `compared`: the clone was never made, the destination is intact.
    ChuaCloneGiXong,
    /// `cloned`, but the destination does not carry the signature of a fresh
    /// clone: someone wrote to it after the daemon stopped.
    DichDaBiGhiDe,
}

/// What to do with one journal row at boot.
#[derive(Clone, Copy, Debug, PartialEq, Eq, Structural)]
pub enum Recovery {
    /// Already closed; nothing to do.
    Closed,
    /// Close the journal as `aborted`.
    Abort(AbortReason),
    /// Keep it `cloned` and retry when reconcile or presence meets the key again.
    Retry(RetryReason),
    /// The mtime is already right: the work finished before `done` was written.
    Done,
    /// Restore the old `(atime, mtime)` then close as `done`.
    RestoreMtime { atime_ns: i64, mtime_ns: i64 },
}

impl Recovery {
    /// Whether the destination row must go back to `settling` to be verified
    /// again: true for the two outcomes that touched the destination file.
    pub fn requeue_dst(self) -> (r: bool)
        ensures
            r == (self is RestoreMtime || self == Recovery::Abort(AbortReason::DichDaBiGhiDe)),
    {
        match self {
            Recovery::RestoreMtime { .. } => true,
            Recovery::Abort(AbortReason::DichDaBiGhiDe) => true,
            _ => false,
        }
    }

    /// The journal state after the action, or `None` when it stays as it is.
    pub fn journal_state(self) -> (r: Option<JournalState>)
        ensures
            r == match self {
                Recovery::Abort(_) => Some(JournalState::Aborted),
                Recovery::Done | Recovery::RestoreMtime { .. } => Some(JournalState::Done),
                Recovery::Closed | Recovery::Retry(_) => None,
            },
    {
        match self {
            Recovery::Abort(_) => Some(JournalState::Aborted),
            Recovery::Done | Recovery::RestoreMtime { .. } => Some(JournalState::Done),
            Recovery::Closed | Recovery::Retry(_) => None,
        }
    }
}

/// Milliseconds to nanoseconds, saturating at the bounds of `i64`.
pub open spec fn ms_to_ns_spec(ms: int) -> int {
    if ms * 1_000_000 > i64::MAX {
        i64::MAX as int
    } else if ms * 1_000_000 < i64::MIN {
        i64::MIN as int
    } else {
        ms * 1_000_000
    }
}

/// `Ts` is in milliseconds, `mtime_ns` in nanoseconds: brings both to one unit.
pub fn ms_to_ns(ms: Ts) -> (r: i64)
    ensures
        r == ms_to_ns_spec(ms as int),
{
    let p: i128 = (ms as i128) * 1_000_000;
    if p > i64::MAX as i128 {
        i64::MAX
    } else if p < i64::MIN as i128 {
        i64::MIN
    } else {
        p as i64
    }
}

/// The signature of a destination just cloned and not yet restored: same
/// size, `mtime == ctime`, and that time between the `cloned` write and boot.
pub open spec fn fresh_clone(j: JournalRow, id: Identity, boot_ns: i64) -> bool {
    &&& id.size == j.dst_size
    &&& id.mtime_ns == id.ctime_ns
    &&& id.mtime_ns >= ms_to_ns_spec(j.updated_at as int)
    &&& id.mtime_ns <= boot_ns
}

pub open spec fn decide_cloned_spec(j: JournalRow, observed: Option<Identity>, boot_ns: i64) -> Recovery {
    match observed {
        None => Recovery::Retry(RetryReason::KhongThayFile),
        Some(id) => if id.key != j.dst {
            Recovery::Retry(RetryReason::InodeKhongKhop)
        } else if id.mtime_ns == j.dst_mtime_ns {
            Recovery::Done
        } else if fresh_clone(j, id, boot_ns) {
            Recovery::RestoreMtime { atime_ns: j.dst_atime_ns, mtime_ns: j.dst_mtime_ns }
        } else {
            Recovery::Abort(AbortReason::DichDaBiGhiDe)
        },
    }
}

pub open spec fn decide_spec(j: JournalRow, observed: Option<Identity>, boot_ns: i64) -> Recovery {
    match j.state {
        JournalState::Planned | JournalState::Compared => Recovery::Abort(
            AbortReason::ChuaCloneGiXong,
        ),
        JournalState::Done | JournalState::Aborted => Recovery::Closed,
        JournalState::Cloned => decide_cloned_spec(j, observed, boot_ns),
    }
}

/// What to do with a journal row at boot; `observed` is the `statx` of the
/// destination path, `boot_ns` the boot time in epoch nanoseconds.
pub fn decide(j: &JournalRow, observed: Option<&Identity>, boot_ns: i64) -> (r: Recovery)
    ensures
        r == decide_spec(
            *j,
            match observed {
                Some(id) => Some(*id),
                None => None,
            },
            boot_ns,
        ),
{
    match j.state {
        JournalState::Planned | JournalState::Compared => Recovery::Abort(
            AbortReason::ChuaCloneGiXong,
        ),
        JournalState::Done | JournalState::Aborted => Recovery::Closed,
        JournalState::Cloned => decide_cloned(j, observed, boot_ns),
    }
}

fn decide_cloned(j: &JournalRow, observed: Option<&Identity>, boot_ns: i64) -> (r: Recovery)
    ensures
        r == decide_cloned_spec(
            *j,
            match observed {
                Some(id) => Some(*id),
                None => None,
            },
            boot_ns,
        ),
{
    let id = match observed {
        Some(id) => id,
        None => {
            return Recovery::Retry(RetryReason::KhongThayFile);
        },
    };
    if !id.key.same(&j.dst) {
        return Recovery::Retry(RetryReason::InodeKhongKhop);
    }
    if id.mtime_ns == j.dst_mtime_ns {
        return Recovery::Done;
    }
    let vua_clone = id.size == j.dst_size && id.mtime_ns == id.ctime_ns && id.mtime_ns >= ms_to_ns(
        j.updated_at,
    ) && id.mtime_ns <= boot_ns;
    if vua_clone {
        Recovery::RestoreMtime { atime_ns: j.dst_atime_ns, mtime_ns: j.dst_mtime_ns }
    } else {
        Recovery::Abort(AbortReason::DichDaBiGhiDe)
    }
}

/// Recovery never writes the metadata of an inode other than the recorded
/// destination: a restore is decided only for a `cloned` journal whose
/// destination was observed with exactly the recorded key, and it writes
/// back exactly the recorded times.
pub proof fn lemma_restore_only_on_recorded_inode(
    j: JournalRow,
    observed: Option<Identity>,
    boot_ns: i64,
)
    ensures
        decide_spec(j, observed, boot_ns) is RestoreMtime ==> {
            &&& j.state == JournalState::Cloned
            &&& observed is Some
            &&& observed->0.key == j.dst
            &&& decide_spec(j, observed, boot_ns) == (Recovery::RestoreMtime {
                atime_ns: j.dst_atime_ns,
                mtime_ns: j.dst_mtime_ns,
            })
        },
        (j.state == JournalState::Cloned && observed is Some && observed->0.key != j.dst)
            ==> decide_spec(j, observed, boot_ns) == Recovery::Retry(RetryReason::InodeKhongKhop),
{
}

/// A journal whose clone was never made is always given up, whatever the
/// destination looks like, and closed journals are left alone.
pub proof fn lemma_unstarted_and_closed(j: JournalRow, observed: Option<Identity>, boot_ns: i64)
    ensures
        (j.state == JournalState::Planned || j.state == JournalState::Compared) ==> decide_spec(
            j,
            observed,
            boot_ns,
        ) == Recovery::Abort(AbortReason::ChuaCloneGiXong),
        (j.state == JournalState::Done || j.state == JournalState::Aborted) ==> decide_spec(
            j,
            observed,
            boot_ns,
        ) == Recovery::Closed,
{
}

} // verus!
