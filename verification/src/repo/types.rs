//! Values exchanged with the repository: partial row updates, group
//! operations, ledger events, journal rows and whole transitions.

use vstd::prelude::*;

use crate::model::{
    clone_opt_string, FileKey, FileLoc, Fingerprint, Identity, JournalState, ParseEnumError, State,
    Ts,
};
use crate::text::{chars_of, seq_eq};

verus! {

/// A partial update of one `files` row: `None` leaves a column unchanged,
/// `Some(None)` sets it to NULL.
#[derive(Debug, Default, PartialEq, Eq)]
pub struct Patch {
    pub ready_at: Option<Option<Ts>>,
    pub priority: Option<u8>,
    pub attempts: Option<u32>,
    pub heavy_wait_since: Option<Option<Ts>>,
    pub last_error: Option<Option<String>>,
    pub skip_reason: Option<Option<String>>,
    /// Writes `size/mtime_ns/ctime_ns/nlink/uid/mode` (the processed fingerprint).
    pub identity: Option<Identity>,
    /// The `enq_*` snapshot.
    pub enq: Option<Option<Fingerprint>>,
    pub magic_ok: Option<bool>,
    pub sparse_hash: Option<Option<[u8; 32]>>,
    pub hash_version: Option<u32>,
    pub full_hash: Option<Option<[u8; 32]>>,
    pub group_id: Option<Option<i64>>,
    pub prev_state: Option<Option<State>>,
    pub duration_ms: Option<Option<u64>>,
}

pub fn clone_opt_opt_string(o: &Option<Option<String>>) -> (r: Option<Option<String>>)
    ensures
        r == *o,
{
    match o {
        Some(v) => Some(clone_opt_string(v)),
        None => None,
    }
}

/// The patch that changes nothing.
pub open spec fn empty_patch() -> Patch {
    Patch {
        ready_at: None,
        priority: None,
        attempts: None,
        heavy_wait_since: None,
        last_error: None,
        skip_reason: None,
        identity: None,
        enq: None,
        magic_ok: None,
        sparse_hash: None,
        hash_version: None,
        full_hash: None,
        group_id: None,
        prev_state: None,
        duration_ms: None,
    }
}

impl Clone for Patch {
    fn clone(&self) -> (r: Self)
        ensures
            r == *self,
    {
        Patch {
            ready_at: self.ready_at,
            priority: self.priority,
            attempts: self.attempts,
            heavy_wait_since: self.heavy_wait_since,
            last_error: clone_opt_opt_string(&self.last_error),
            skip_reason: clone_opt_opt_string(&self.skip_reason),
            identity: self.identity,
            enq: self.enq,
            magic_ok: self.magic_ok,
            sparse_hash: self.sparse_hash,
            hash_version: self.hash_version,
            full_hash: self.full_hash,
            group_id: self.group_id,
            prev_state: self.prev_state,
            duration_ms: self.duration_ms,
        }
    }
}

impl Patch {
    pub fn new() -> (r: Self)
        ensures
            r == empty_patch(),
    {
        Patch {
            ready_at: None,
            priority: None,
            attempts: None,
            heavy_wait_since: None,
            last_error: None,
            skip_reason: None,
            identity: None,
            enq: None,
            magic_ok: None,
            sparse_hash: None,
            hash_version: None,
            full_hash: None,
            group_id: None,
            prev_state: None,
            duration_ms: None,
        }
    }

    /// The patch changes nothing (setting a column to NULL is a change).
    pub fn is_empty(&self) -> (r: bool)
        ensures
            r == (*self == empty_patch()),
    {
        self.ready_at.is_none() && self.priority.is_none() && self.attempts.is_none()
            && self.heavy_wait_since.is_none() && self.last_error.is_none()
            && self.skip_reason.is_none() && self.identity.is_none() && self.enq.is_none()
            && self.magic_ok.is_none() && self.sparse_hash.is_none() && self.hash_version.is_none()
            && self.full_hash.is_none() && self.group_id.is_none() && self.prev_state.is_none()
            && self.duration_ms.is_none()
    }

    pub fn ready_at(self, v: Option<Ts>) -> (r: Self)
        ensures
            r == (Patch { ready_at: Some(v), ..self }),
    {
        Patch { ready_at: Some(v), ..self }
    }

    pub fn priority(self, v: u8) -> (r: Self)
        ensures
            r == (Patch { priority: Some(v), ..self }),
    {
        Patch { priority: Some(v), ..self }
    }

    pub fn attempts(self, v: u32) -> (r: Self)
        ensures
            r == (Patch { attempts: Some(v), ..self }),
    {
        Patch { attempts: Some(v), ..self }
    }

    pub fn identity(self, v: Identity) -> (r: Self)
        ensures
            r == (Patch { identity: Some(v), ..self }),
    {
        Patch { identity: Some(v), ..self }
    }

    pub fn enq(self, v: Option<Fingerprint>) -> (r: Self)
        ensures
            r == (Patch { enq: Some(v), ..self }),
    {
        Patch { enq: Some(v), ..self }
    }

    pub fn magic_ok(self, v: bool) -> (r: Self)
        ensures
            r == (Patch { magic_ok: Some(v), ..self }),
    {
        Patch { magic_ok: Some(v), ..self }
    }

    pub fn sparse_hash(self, v: Option<[u8; 32]>) -> (r: Self)
        ensures
            r == (Patch { sparse_hash: Some(v), ..self }),
    {
        Patch { sparse_hash: Some(v), ..self }
    }

    pub fn hash_version(self, v: u32) -> (r: Self)
        ensures
            r == (Patch { hash_version: Some(v), ..self }),
    {
        Patch { hash_version: Some(v), ..self }
    }

    pub fn full_hash(self, v: Option<[u8; 32]>) -> (r: Self)
        ensures
            r == (Patch { full_hash: Some(v), ..self }),
    {
        Patch { full_hash: Some(v), ..self }
    }

    pub fn group_id(self, v: Option<i64>) -> (r: Self)
        ensures
            r == (Patch { group_id: Some(v), ..self }),
    {
        Patch { group_id: Some(v), ..self }
    }

    pub fn prev_state(self, v: Option<State>) -> (r: Self)
        ensures
            r == (Patch { prev_state: Some(v), ..self }),
    {
        Patch { prev_state: Some(v), ..self }
    }

    pub fn skip_reason(self, v: Option<String>) -> (r: Self)
        ensures
            r == (Patch { skip_reason: Some(v), ..self }),
    {
        Patch { skip_reason: Some(v), ..self }
    }

    pub fn last_error(self, v: Option<String>) -> (r: Self)
        ensures
            r == (Patch { last_error: Some(v), ..self }),
    {
        Patch { last_error: Some(v), ..self }
    }

    pub fn heavy_wait_since(self, v: Option<Ts>) -> (r: Self)
        ensures
            r == (Patch { heavy_wait_since: Some(v), ..self }),
    {
        Patch { heavy_wait_since: Some(v), ..self }
    }

    pub fn duration_ms(self, v: Option<u64>) -> (r: Self)
        ensures
            r == (Patch { duration_ms: Some(v), ..self }),
    {
        Patch { duration_ms: Some(v), ..self }
    }
}

/// An operation on `content_groups` that travels with a transition.
#[derive(Clone, Copy, Debug, PartialEq, Eq)]
pub enum GroupOp {
    /// New group rooted at `canonical`; the transition's own row joins it.
    Create { canonical: i64, sparse_hash: [u8; 32], hash_version: u32 },
    /// Join an existing group.
    Join(i64),
    /// Set a new canonical for the group (re-election).
    SetCanonical { group: i64, file: i64 },
    /// Leave the group (undo, fingerprint change).
    Leave(i64),
    /// The group was verified: enables the FIEMAP fast path next time.
    Verified { group: i64, full_hash: Option<[u8; 32]> },
}

/// Method recorded in `dedup_events.method`.
#[derive(Clone, Copy, Debug, PartialEq, Eq, Structural)]
pub enum EventMethod {
    Fideduperange,
    VerifiedClone,
    DryRun,
    Fiemap,
    Undo,
}

pub open spec fn event_method_name(m: EventMethod) -> Seq<char> {
    match m {
        EventMethod::Fideduperange => "fideduperange"@,
        EventMethod::VerifiedClone => "verified_clone"@,
        EventMethod::DryRun => "dry_run"@,
        EventMethod::Fiemap => "fiemap"@,
        EventMethod::Undo => "undo"@,
    }
}

impl EventMethod {
    pub fn as_str(self) -> (r: &'static str)
        ensures
            r@ == event_method_name(self),
    {
        match self {
            EventMethod::Fideduperange => "fideduperange",
            EventMethod::VerifiedClone => "verified_clone",
            EventMethod::DryRun => "dry_run",
            EventMethod::Fiemap => "fiemap",
            EventMethod::Undo => "undo",
        }
    }

    pub const ALL: [EventMethod; 5] = [
        EventMethod::Fideduperange,
        EventMethod::VerifiedClone,
        EventMethod::DryRun,
        EventMethod::Fiemap,
        EventMethod::Undo,
    ];

    pub fn from_str(s: &str) -> (r: Result<EventMethod, ParseEnumError>)
        ensures
            r matches Ok(m) ==> event_method_name(m) == s@,
            r is Err <==> (forall|m: EventMethod| event_method_name(m) != s@),
    {
        let want = chars_of(s);
        let mut i: usize = 0;
        while i < 5
            invariant
                want@ == s@,
                i <= 5,
                forall|k: int| 0 <= k < i ==> event_method_name(#[trigger] EventMethod::ALL@[k])
                    != s@,
            decreases 5 - i,
        {
            let m = EventMethod::ALL[i];
            if seq_eq(&chars_of(m.as_str()), &want) {
                return Ok(m);
            }
            i = i + 1;
        }
        proof {
            assert forall|m: EventMethod| event_method_name(m) != s@ by {
                let k: int = match m {
                    EventMethod::Fideduperange => 0,
                    EventMethod::VerifiedClone => 1,
                    EventMethod::DryRun => 2,
                    EventMethod::Fiemap => 3,
                    EventMethod::Undo => 4,
                };
                assert(EventMethod::ALL@[k] == m);
            }
        }
        Err(ParseEnumError { kind: "EventMethod", value: s.to_owned() })
    }
}

/// Result recorded in `dedup_events.result`.
#[derive(Clone, Copy, Debug, PartialEq, Eq, Structural)]
pub enum EventResult {
    Same,
    Differs,
    Error,
    Skipped,
}

pub open spec fn event_result_name(r: EventResult) -> Seq<char> {
    match r {
        EventResult::Same => "same"@,
        EventResult::Differs => "differs"@,
        EventResult::Error => "error"@,
        EventResult::Skipped => "skipped"@,
    }
}

impl EventResult {
    pub fn as_str(self) -> (r: &'static str)
        ensures
            r@ == event_result_name(self),
    {
        match self {
            EventResult::Same => "same",
            EventResult::Differs => "differs",
            EventResult::Error => "error",
            EventResult::Skipped => "skipped",
        }
    }

    pub const ALL: [EventResult; 4] = [
        EventResult::Same,
        EventResult::Differs,
        EventResult::Error,
        EventResult::Skipped,
    ];

    pub fn from_str(s: &str) -> (r: Result<EventResult, ParseEnumError>)
        ensures
            r matches Ok(m) ==> event_result_name(m) == s@,
            r is Err <==> (forall|m: EventResult| event_result_name(m) != s@),
    {
        let want = chars_of(s);
        let mut i: usize = 0;
        while i < 4
            invariant
                want@ == s@,
                i <= 4,
                forall|k: int| 0 <= k < i ==> event_result_name(#[trigger] EventResult::ALL@[k])
                    != s@,
            decreases 4 - i,
        {
            let m = EventResult::ALL[i];
            if seq_eq(&chars_of(m.as_str()), &want) {
                return Ok(m);
            }
            i = i + 1;
        }
        proof {
            assert forall|m: EventResult| event_result_name(m) != s@ by {
                let k: int = match m {
                    EventResult::Same => 0,
                    EventResult::Differs => 1,
                    EventResult::Error => 2,
                    EventResult::Skipped => 3,
                };
                assert(EventResult::ALL@[k] == m);
            }
        }
        Err(ParseEnumError { kind: "EventResult", value: s.to_owned() })
    }
}

/// One row of `dedup_events`: the ledger that cannot be rebuilt.
#[derive(Debug, PartialEq, Eq)]
pub struct DedupEvent {
    pub ts: Ts,
    pub src: Option<FileKey>,
    pub src_uid: Option<u32>,
    pub src_path: Option<String>,
    pub dst: Option<FileKey>,
    pub dst_uid: Option<u32>,
    pub dst_path: Option<String>,
    pub size: Option<u64>,
    pub method: EventMethod,
    pub result: EventResult,
    pub bytes_shared: i64,
    pub errno: Option<i32>,
    pub skip_reason: Option<String>,
    pub note: Option<String>,
    pub duration_ms: Option<u64>,
}

impl Clone for DedupEvent {
    fn clone(&self) -> (r: Self)
        ensures
            r == *self,
    {
        DedupEvent {
            ts: self.ts,
            src: self.src,
            src_uid: self.src_uid,
            src_path: clone_opt_string(&self.src_path),
            dst: self.dst,
            dst_uid: self.dst_uid,
            dst_path: clone_opt_string(&self.dst_path),
            size: self.size,
            method: self.method,
            result: self.result,
            bytes_shared: self.bytes_shared,
            errno: self.errno,
            skip_reason: clone_opt_string(&self.skip_reason),
            note: clone_opt_string(&self.note),
            duration_ms: self.duration_ms,
        }
    }
}

impl DedupEvent {
    /// Minimal event; other fields are filled with struct update syntax.
    pub fn new(ts: Ts, method: EventMethod, result: EventResult) -> (r: Self)
        ensures
            r == (DedupEvent {
                ts,
                src: None,
                src_uid: None,
                src_path: None,
                dst: None,
                dst_uid: None,
                dst_path: None,
                size: None,
                method,
                result,
                bytes_shared: 0,
                errno: None,
                skip_reason: None,
                note: None,
                duration_ms: None,
            }),
    {
        DedupEvent {
            ts,
            src: None,
            src_uid: None,
            src_path: None,
            dst: None,
            dst_uid: None,
            dst_path: None,
            size: None,
            method,
            result,
            bytes_shared: 0,
            errno: None,
            skip_reason: None,
            note: None,
            duration_ms: None,
        }
    }
}

/// Query filter for `dedup_events` (the `audit` command).
#[derive(Clone, Copy, Debug, Default, PartialEq, Eq)]
pub struct EventFilter {
    pub uid: Option<u32>,
    pub since: Option<Ts>,
    pub limit: Option<usize>,
}

/// One row of `dedup_journal`.
#[derive(Debug, PartialEq, Eq)]
pub struct JournalRow {
    pub id: Option<i64>,
    pub method: EventMethod,
    pub group_id: Option<i64>,
    pub src_file_id: i64,
    pub dst_file_id: i64,
    pub state: JournalState,
    pub src: Option<FileKey>,
    pub src_size: Option<u64>,
    pub src_mtime_ns: Option<i64>,
    pub src_ctime_ns: Option<i64>,
    pub dst: FileKey,
    pub dst_size: u64,
    pub dst_mtime_ns: i64,
    pub dst_atime_ns: i64,
    pub dst_ctime_ns: i64,
    pub started_at: Ts,
    pub updated_at: Ts,
    pub error: Option<String>,
}

impl Clone for JournalRow {
    fn clone(&self) -> (r: Self)
        ensures
            r == *self,
    {
        JournalRow {
            id: self.id,
            method: self.method,
            group_id: self.group_id,
            src_file_id: self.src_file_id,
            dst_file_id: self.dst_file_id,
            state: self.state,
            src: self.src,
            src_size: self.src_size,
            src_mtime_ns: self.src_mtime_ns,
            src_ctime_ns: self.src_ctime_ns,
            dst: self.dst,
            dst_size: self.dst_size,
            dst_mtime_ns: self.dst_mtime_ns,
            dst_atime_ns: self.dst_atime_ns,
            dst_ctime_ns: self.dst_ctime_ns,
            started_at: self.started_at,
            updated_at: self.updated_at,
            error: clone_opt_string(&self.error),
        }
    }
}

/// A user's "handled" note on a cross-machine duplicate group. Kept on the NAS;
/// never touches a remote root.
#[derive(Debug, PartialEq, Eq)]
pub struct GroupNote {
    pub group_id: i64,
    pub handled_at: Ts,
    pub note: String,
    pub by_device_id: Option<String>,
}

impl Clone for GroupNote {
    fn clone(&self) -> (r: Self)
        ensures
            r == *self,
    {
        GroupNote {
            group_id: self.group_id,
            handled_at: self.handled_at,
            note: self.note.clone(),
            by_device_id: clone_opt_string(&self.by_device_id),
        }
    }
}

/// One row produced by the initial scan.
#[derive(Debug, PartialEq, Eq)]
pub struct ScanRow {
    pub id: Identity,
    pub loc: FileLoc,
    pub state: State,
    pub ready_at: Option<Ts>,
    pub priority: u8,
}

/// A complete state change, applied in ONE transaction.
#[derive(Debug, PartialEq, Eq)]
pub struct Transition {
    pub id: i64,
    pub from: State,
    pub to: State,
    pub patch: Patch,
    /// Decision time; written to `updated_at` and used by `Verified`.
    pub now: Ts,
    pub group: Option<GroupOp>,
    pub event: Option<DedupEvent>,
    /// Closes a journal (`Done`/`Aborted`) in the same transaction.
    pub journal: Option<(i64, JournalState)>,
    /// Compare-and-swap on other rows (hash backfill, canonical election);
    /// each is skipped on its own when it fails.
    pub others: Vec<(i64, State, State, Patch)>,
}

impl Transition {
    /// Minimal transition: a state change with a patch.
    pub fn new(id: i64, from: State, to: State, patch: Patch, now: Ts) -> (r: Self)
        ensures
            r.id == id,
            r.from == from,
            r.to == to,
            r.patch == patch,
            r.now == now,
            r.group is None,
            r.event is None,
            r.journal is None,
            r.others@ == Seq::<(i64, State, State, Patch)>::empty(),
    {
        Transition {
            id,
            from,
            to,
            patch,
            now,
            group: None,
            event: None,
            journal: None,
            others: Vec::new(),
        }
    }

    pub fn with_group(self, op: GroupOp) -> (r: Self)
        ensures
            r == (Transition { group: Some(op), ..self }),
    {
        Transition { group: Some(op), ..self }
    }

    pub fn with_event(self, ev: DedupEvent) -> (r: Self)
        ensures
            r == (Transition { event: Some(ev), ..self }),
    {
        Transition { event: Some(ev), ..self }
    }

    pub fn with_journal(self, id: i64, st: JournalState) -> (r: Self)
        ensures
            r == (Transition { journal: Some((id, st)), ..self }),
    {
        Transition { journal: Some((id, st)), ..self }
    }

    pub fn with_other(self, id: i64, from: State, to: State, patch: Patch) -> (r: Self)
        ensures
            r.id == self.id,
            r.from == self.from,
            r.to == self.to,
            r.patch == self.patch,
            r.now == self.now,
            r.group == self.group,
            r.event == self.event,
            r.journal == self.journal,
            r.others@ == self.others@.push((id, from, to, patch)),
    {
        let mut t = self;
        t.others.push((id, from, to, patch));
        t
    }
}

} // verus!
