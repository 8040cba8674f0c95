//! Pure rules of the work queue, shared by every repository implementation.

use vstd::prelude::*;

use crate::model::{
    clone_opt_string, fingerprint_of, fingerprints_match, queued, record_fingerprint, FileLoc,
    FileRecord, Identity, RootKind, State, Ts,
};
use crate::state::{restore_spec, restore_target};
use crate::text::str_eq;

verus! {

/// New values of the columns an upsert touches when the row already exists.
#[derive(Debug, PartialEq, Eq)]
pub struct UpsertDecision {
    pub state: State,
    pub prev_state: Option<State>,
    pub ready_at: Option<Ts>,
    pub priority: u8,
    pub heavy_wait_since: Option<Ts>,
    pub attempts: u32,
    pub sparse_hash: Option<[u8; 32]>,
    pub full_hash: Option<[u8; 32]>,
    pub magic_ok: Option<bool>,
    pub group_id: Option<i64>,
    pub skip_reason: Option<String>,
    /// The current fingerprint matches the stored one (for this kind of root).
    pub fp_same: bool,
}

/// The row was skipped by an explicit user `undo`.
pub open spec fn is_user_undo(skip: Option<String>) -> bool {
    skip matches Some(s) && s@ == "user_undo"@
}

/// What the queue upsert does to an existing row: a `missing` row seen again
/// with a matching fingerprint returns to its previous state; a matching
/// fingerprint otherwise keeps everything (the daemon's own event, or an
/// open/close without writes); anything else goes back to `settling` and drops
/// the old hashes. `skip_reason = user_undo` survives every branch.
pub open spec fn upsert_decision(
    existing: FileRecord,
    incoming: Identity,
    kind: RootKind,
    ready_at: Ts,
    priority: u8,
) -> UpsertDecision {
    let fp_same = fingerprints_match(record_fingerprint(existing), fingerprint_of(incoming), kind);
    let in_queue = queued(existing.state);
    let user_undo = is_user_undo(existing.skip_reason);
    let was_missing = existing.state == State::Missing;
    let state = if was_missing && fp_same {
        restore_spec(existing.prev_state)
    } else if fp_same || user_undo {
        existing.state
    } else {
        State::Settling
    };
    UpsertDecision {
        state,
        prev_state: if fp_same || in_queue {
            existing.prev_state
        } else {
            Some(existing.state)
        },
        ready_at: if was_missing && fp_same {
            if queued(state) {
                Some(ready_at)
            } else {
                None
            }
        } else if fp_same && !in_queue {
            existing.ready_at
        } else {
            Some(ready_at)
        },
        priority: if existing.priority < priority {
            existing.priority
        } else {
            priority
        },
        heavy_wait_since: if fp_same {
            existing.heavy_wait_since
        } else {
            None
        },
        attempts: if fp_same {
            existing.attempts
        } else {
            0
        },
        sparse_hash: if fp_same {
            existing.sparse_hash
        } else {
            None
        },
        full_hash: if fp_same {
            existing.full_hash
        } else {
            None
        },
        magic_ok: if fp_same {
            existing.magic_ok
        } else {
            None
        },
        group_id: if fp_same {
            existing.group_id
        } else {
            None
        },
        skip_reason: if fp_same || user_undo {
            existing.skip_reason
        } else {
            None
        },
        fp_same,
    }
}

pub fn user_undo(skip: &Option<String>) -> (r: bool)
    ensures
        r == is_user_undo(*skip),
{
    match skip {
        Some(s) => str_eq(s.as_str(), "user_undo"),
        None => false,
    }
}

/// Decision of the queue upsert for an existing row.
pub fn decide_upsert(
    existing: &FileRecord,
    incoming: &Identity,
    kind: RootKind,
    ready_at: Ts,
    priority: u8,
) -> (d: UpsertDecision)
    ensures
        d == upsert_decision(*existing, *incoming, kind, ready_at, priority),
{
    let fp_same = existing.fingerprint().matches(&incoming.fingerprint(), kind);
    let in_queue = existing.state.is_queued();
    let undo = user_undo(&existing.skip_reason);
    let was_missing = existing.state == State::Missing;

    let state = if was_missing && fp_same {
        restore_target(existing.prev_state)
    } else if fp_same || undo {
        existing.state
    } else {
        State::Settling
    };
    let prev_state = if fp_same || in_queue {
        existing.prev_state
    } else {
        Some(existing.state)
    };
    let new_ready_at = if was_missing && fp_same {
        if state.is_queued() {
            Some(ready_at)
        } else {
            None
        }
    } else if fp_same && !in_queue {
        existing.ready_at
    } else {
        Some(ready_at)
    };
    UpsertDecision {
        state,
        prev_state,
        ready_at: new_ready_at,
        priority: if existing.priority < priority {
            existing.priority
        } else {
            priority
        },
        heavy_wait_since: if fp_same {
            existing.heavy_wait_since
        } else {
            None
        },
        attempts: if fp_same {
            existing.attempts
        } else {
            0
        },
        sparse_hash: if fp_same {
            existing.sparse_hash
        } else {
            None
        },
        full_hash: if fp_same {
            existing.full_hash
        } else {
            None
        },
        magic_ok: if fp_same {
            existing.magic_ok
        } else {
            None
        },
        group_id: if fp_same {
            existing.group_id
        } else {
            None
        },
        skip_reason: if fp_same || undo {
            clone_opt_string(&existing.skip_reason)
        } else {
            None
        },
        fp_same,
    }
}

/// The row after an upsert decision is written (the part both branches write).
pub open spec fn upserted_row(
    row: FileRecord,
    d: UpsertDecision,
    incoming: Identity,
    loc: Option<FileLoc>,
    now: Ts,
) -> FileRecord {
    FileRecord {
        loc: match loc {
            Some(l) => l,
            None => row.loc,
        },
        owner_uid: incoming.uid,
        mode: incoming.mode,
        enq: Some(fingerprint_of(incoming)),
        last_seen_at: now,
        updated_at: now,
        state: d.state,
        prev_state: d.prev_state,
        ready_at: d.ready_at,
        priority: d.priority,
        heavy_wait_since: d.heavy_wait_since,
        attempts: d.attempts,
        sparse_hash: d.sparse_hash,
        full_hash: d.full_hash,
        magic_ok: d.magic_ok,
        group_id: d.group_id,
        skip_reason: d.skip_reason,
        ..row
    }
}

/// Writes an upsert decision onto the row.
pub fn apply_upsert(
    row: &mut FileRecord,
    d: UpsertDecision,
    incoming: &Identity,
    loc: Option<&FileLoc>,
    now: Ts,
)
    ensures
        *final(row) == upserted_row(
            *old(row),
            d,
            *incoming,
            match loc {
                Some(l) => Some(*l),
                None => None,
            },
            now,
        ),
{
    if let Some(l) = loc {
        row.loc = l.clone();
    }
    row.owner_uid = incoming.uid;
    row.mode = incoming.mode;
    row.enq = Some(incoming.fingerprint());
    row.last_seen_at = now;
    row.updated_at = now;
    row.state = d.state;
    row.prev_state = d.prev_state;
    row.ready_at = d.ready_at;
    row.priority = d.priority;
    row.heavy_wait_since = d.heavy_wait_since;
    row.attempts = d.attempts;
    row.sparse_hash = d.sparse_hash;
    row.full_hash = d.full_hash;
    row.magic_ok = d.magic_ok;
    row.group_id = d.group_id;
    row.skip_reason = d.skip_reason;
}

/// A brand-new row from an event (the `INSERT` branch of the upsert).
pub open spec fn fresh_row(
    id: i64,
    incoming: Identity,
    loc: FileLoc,
    ready_at: Ts,
    priority: u8,
    now: Ts,
) -> FileRecord {
    FileRecord {
        id,
        key: incoming.key,
        domain_id: incoming.domain_id,
        loc,
        owner_uid: incoming.uid,
        mode: incoming.mode,
        size: incoming.size,
        mtime_ns: incoming.mtime_ns,
        ctime_ns: incoming.ctime_ns,
        nlink: incoming.nlink,
        state: State::Settling,
        prev_state: None,
        ready_at: Some(ready_at),
        priority,
        heavy_wait_since: None,
        attempts: 0,
        last_error: None,
        skip_reason: None,
        enq: Some(fingerprint_of(incoming)),
        magic_ok: None,
        sparse_hash: None,
        hash_version: None,
        full_hash: None,
        duration_ms: None,
        probe_status: None,
        group_id: None,
        first_seen_at: now,
        last_seen_at: now,
        updated_at: now,
    }
}

pub fn new_row(
    id: i64,
    incoming: &Identity,
    loc: &FileLoc,
    ready_at: Ts,
    priority: u8,
    now: Ts,
) -> (r: FileRecord)
    ensures
        r == fresh_row(id, *incoming, *loc, ready_at, priority, now),
{
    FileRecord {
        id,
        key: incoming.key,
        domain_id: incoming.domain_id,
        loc: loc.clone(),
        owner_uid: incoming.uid,
        mode: incoming.mode,
        size: incoming.size,
        mtime_ns: incoming.mtime_ns,
        ctime_ns: incoming.ctime_ns,
        nlink: incoming.nlink,
        state: State::Settling,
        prev_state: None,
        ready_at: Some(ready_at),
        priority,
        heavy_wait_since: None,
        attempts: 0,
        last_error: None,
        skip_reason: None,
        enq: Some(incoming.fingerprint()),
        magic_ok: None,
        sparse_hash: None,
        hash_version: None,
        full_hash: None,
        duration_ms: None,
        probe_status: None,
        group_id: None,
        first_seen_at: now,
        last_seen_at: now,
        updated_at: now,
    }
}

/// `now - max_wait`, saturating at the bounds of `i64`.
pub open spec fn sat_sub(a: i64, b: i64) -> i64 {
    if a - b < i64::MIN {
        i64::MIN
    } else if a - b > i64::MAX {
        i64::MAX
    } else {
        (a - b) as i64
    }
}

pub fn saturating_sub_i64(a: i64, b: i64) -> (r: i64)
    ensures
        r == sat_sub(a, b),
{
    let d: i128 = (a as i128) - (b as i128);
    if d < (i64::MIN as i128) {
        i64::MIN
    } else if d > (i64::MAX as i128) {
        i64::MAX
    } else {
        d as i64
    }
}

/// `a + b`, saturating at the bounds of `i64`.
pub open spec fn sat_add(a: i64, b: i64) -> i64 {
    if a + b < i64::MIN {
        i64::MIN
    } else if a + b > i64::MAX {
        i64::MAX
    } else {
        (a + b) as i64
    }
}

pub fn saturating_add_i64(a: i64, b: i64) -> (r: i64)
    ensures
        r == sat_add(a, b),
{
    let d: i128 = (a as i128) + (b as i128);
    if d < (i64::MIN as i128) {
        i64::MIN
    } else if d > (i64::MAX as i128) {
        i64::MAX
    } else {
        d as i64
    }
}

/// A row that `next_ready` may pick: queued and due; heavy steps (`hashed`)
/// only inside the heavy window or after waiting longer than `max_wait_ms`.
pub open spec fn ready_spec(row: FileRecord, now: Ts, allow_heavy: bool, max_wait_ms: i64) -> bool {
    &&& queued(row.state)
    &&& row.ready_at matches Some(r) && r <= now
    &&& allow_heavy || row.state == State::Settling || row.state == State::Sized
        || (row.heavy_wait_since matches Some(t) && t <= sat_sub(now, max_wait_ms))
}

pub fn is_ready(row: &FileRecord, now: Ts, allow_heavy: bool, max_wait_ms: i64) -> (r: bool)
    ensures
        r == ready_spec(*row, now, allow_heavy, max_wait_ms),
{
    if !row.state.is_queued() {
        return false;
    }
    let ready_at = match row.ready_at {
        Some(r) => r,
        None => {
            return false;
        },
    };
    if ready_at > now {
        return false;
    }
    allow_heavy || matches!(row.state, State::Settling | State::Sized) || match row.heavy_wait_since
    {
        Some(t) => t <= saturating_sub_i64(now, max_wait_ms),
        None => false,
    }
}

/// The upsert never makes a row less urgent than the event: the priority
/// written is the smaller of the row's and the event's, on the decision and
/// on the row written.
pub proof fn lemma_upsert_priority(existing: FileRecord, incoming: Identity, kind: RootKind, ready_at: Ts, priority: u8, loc: Option<FileLoc>, now: Ts)
    ensures
        upsert_decision(existing, incoming, kind, ready_at, priority).priority <= existing.priority,
        upsert_decision(existing, incoming, kind, ready_at, priority).priority <= priority,
        upsert_decision(existing, incoming, kind, ready_at, priority).priority == existing.priority
            || upsert_decision(existing, incoming, kind, ready_at, priority).priority == priority,
        upserted_row(existing, upsert_decision(existing, incoming, kind, ready_at, priority), incoming, loc, now).priority
            == upsert_decision(existing, incoming, kind, ready_at, priority).priority,
{
}

/// What a file whose size, mtime or (on a local root) ctime changed goes
/// through: back to `settling` at `ready_at` with no hash, group, magic
/// verdict or attempt left, unless the user undid it, in which case its
/// state and skip reason stay. A file unchanged in those keeps its hashes,
/// group, magic verdict and attempts.
pub proof fn lemma_upsert_fingerprint(existing: FileRecord, incoming: Identity, kind: RootKind, ready_at: Ts, priority: u8)
    ensures
        ({
            let d = upsert_decision(existing, incoming, kind, ready_at, priority);
            let same = existing.size == incoming.size && existing.mtime_ns == incoming.mtime_ns && (kind == RootKind::Remote
                || existing.ctime_ns == incoming.ctime_ns);
            let undo = existing.skip_reason matches Some(r) && r@ == "user_undo"@;
            &&& d.fp_same == same
            &&& !same ==> {
                &&& d.sparse_hash is None && d.full_hash is None && d.group_id is None && d.magic_ok is None
                &&& d.attempts == 0 && d.heavy_wait_since is None
                &&& d.ready_at == Some(ready_at)
                &&& (undo ==> d.state == existing.state && d.skip_reason == existing.skip_reason)
                &&& (!undo ==> d.state == State::Settling && d.skip_reason is None)
            }
            &&& same ==> {
                &&& d.sparse_hash == existing.sparse_hash && d.full_hash == existing.full_hash
                &&& d.group_id == existing.group_id && d.magic_ok == existing.magic_ok
                &&& d.attempts == existing.attempts && d.skip_reason == existing.skip_reason
                &&& (existing.state != State::Missing ==> d.state == existing.state)
            }
        }),
{
}

} // verus!
