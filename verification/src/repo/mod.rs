//! Storage access: the row types, the queue rules, and the in-memory repository.

pub mod memory;

pub use memory::MemoryRepository;
pub mod effects;
pub mod rules;
pub mod types;

pub use types::{
    DedupEvent, EventFilter, EventMethod, EventResult, GroupNote, GroupOp, JournalRow, Patch,
    ScanRow, Transition,
};

use vstd::prelude::*;

use crate::model::{
    DomainId, FileKey, FileLoc, FileRecord, Fingerprint, Group, Identity, JournalState, Root,
    ScanProgress, Ts, Volume,
};
use crate::repo::memory::lookup::{
    candidates_spec, group_by_id, groups_with_key, members_of, pending_same_size_spec, row_by_key,
    row_by_path,
};
use crate::repo::effects::{below_missing, prefix_moved, renamed_rows, restore_effect, upsert_effect};
use crate::repo::memory::queue::{key_index, next_ready_ok, pending_fold};
use crate::repo::memory::watch::at_loc_missing;

verus! {

/// Error of a storage operation.
#[derive(Debug, PartialEq, Eq)]
pub enum RepoError {
    Busy,
    Corrupt(String),
    Constraint(String),
    Other(String),
}

impl Clone for RepoError {
    fn clone(&self) -> (r: Self)
        ensures
            r == *self,
    {
        match self {
            RepoError::Busy => RepoError::Busy,
            RepoError::Corrupt(s) => RepoError::Corrupt(s.clone()),
            RepoError::Constraint(s) => RepoError::Constraint(s.clone()),
            RepoError::Other(s) => RepoError::Other(s.clone()),
        }
    }
}

/// The text of a storage error.
pub open spec fn repo_message(e: RepoError) -> Seq<char> {
    match e {
        RepoError::Busy => "database đang bận"@,
        RepoError::Corrupt(m) => "database hỏng: "@ + m@,
        RepoError::Constraint(m) => "vi phạm ràng buộc: "@ + m@,
        RepoError::Other(m) => m@,
    }
}

impl RepoError {
    /// The text of the error.
    pub fn message(&self) -> (r: String)
        ensures
            r@ == repo_message(*self),
    {
        match self {
            RepoError::Busy => "database đang bận".to_owned(),
            RepoError::Corrupt(m) => crate::text::concat_str("database hỏng: ", m.as_str()),
            RepoError::Constraint(m) => crate::text::concat_str("vi phạm ràng buộc: ", m.as_str()),
            RepoError::Other(m) => m.clone(),
        }
    }
}

/// Where duplicate candidates are looked for.
#[derive(Clone, Copy, Debug, PartialEq, Eq, Structural)]
pub enum Scope {
    /// Files of the same owner.
    Owner,
    /// Files of the same root.
    Share,
    /// Any file of the same domain.
    SameDomain,
}

/// Result of `upsert_pending`.
#[derive(Clone, Copy, Debug, PartialEq, Eq, Structural)]
pub struct UpsertResult {
    pub id: i64,
    /// The event was the daemon's own write and was dropped.
    pub dropped_as_self_event: bool,
}

/// A failed write leaves the rows and the groups as they were.
pub open spec fn unchanged(f0: Seq<FileRecord>, g0: Seq<Group>, f1: Seq<FileRecord>, g1: Seq<Group>) -> bool {
    f1 == f0 && g1 == g0
}

/// All storage access. Reads promise what they return in terms of the rows
/// and groups the repository holds (`files_view`, `groups_view`, both in id
/// order); an implementation may still fail with a `RepoError`.
pub trait Repository {
    /// The rows of `files`, in id order.
    spec fn files_view(&self) -> Seq<FileRecord>;

    /// The content groups, in id order.
    spec fn groups_view(&self) -> Seq<Group>;

    /// The registered roots.
    spec fn roots_view(&self) -> Seq<Root>;

    // --- queue ---

    /// Adds or updates the row of a file seen by an event; the root kind
    /// decides whether `ctime` is compared.
    fn upsert_pending(&mut self, id: &Identity, loc: &FileLoc, ready_at: Ts, priority: u8, now: Ts) -> (r: Result<UpsertResult, RepoError>)
        ensures
            r matches Ok(u) ==> upsert_effect(old(self).files_view(), old(self).groups_view(), old(self).roots_view(), *id, *loc, ready_at, priority, now, u,
                final(self).files_view(), final(self).groups_view()),
            r is Ok ==> final(self).roots_view() == old(self).roots_view(),
            r is Err ==> unchanged(old(self).files_view(), old(self).groups_view(), final(self).files_view(), final(self).groups_view()),
    ;

    /// Inserts a batch of rows from the initial scan, leaving existing keys
    /// untouched; one transaction.
    fn scan_insert(&mut self, rows: &Vec<ScanRow>, now: Ts) -> Result<u64, RepoError>;

    /// Phase B of the initial scan: wake the rows that have a partner of the
    /// same `(domain, size)`, make the others `distinct` without reading them.
    /// Returns `(woken, distinct)`.
    fn scan_phase_b(&mut self, root_id: i64, now: Ts) -> Result<(u64, u64), RepoError>;

    /// The next row due.
    fn next_ready(&self, now: Ts, allow_heavy: bool, max_wait_ms: i64) -> (r: Result<Option<FileRecord>, RepoError>)
        ensures
            r matches Ok(o) ==> next_ready_ok(self.files_view(), now, allow_heavy, max_wait_ms, o),
    ;

    /// Applies a transition in one transaction (CAS on `id AND state = from`).
    fn apply(&mut self, t: &Transition) -> Result<bool, RepoError>;

    /// `(total, per uid)` of the settling rows of priority 0.
    fn pending_counts(&self) -> (r: Result<(u64, Vec<(u32, u64)>), RepoError>)
        ensures
            r matches Ok(v) ==> v.0 == pending_fold(self.files_view()).0 && v.1@ == pending_fold(self.files_view()).1,
    ;

    // --- lookups ---

    fn find_by_key(&self, key: &FileKey) -> (r: Result<Option<FileRecord>, RepoError>)
        ensures
            r matches Ok(o) ==> o == row_by_key(self.files_view(), *key),
    ;

    /// The caller must `statx` and match `(sub_id, ino)` before using the row.
    fn find_by_path(&self, loc: &FileLoc) -> (r: Result<Option<FileRecord>, RepoError>)
        ensures
            r matches Ok(o) ==> o == row_by_path(self.files_view(), *loc),
    ;

    /// Duplicate candidates of `me`, rows with a hash first, then the oldest.
    fn candidates(&self, me: &FileRecord, scope: Scope, settled_before_ns: i64, limit: usize) -> (r: Result<Vec<FileRecord>, RepoError>)
        ensures
            r matches Ok(v) ==> v@ == candidates_spec(self.files_view(), *me, scope, settled_before_ns, limit),
    ;

    /// The latest `ready_at` of the rows of the same `(domain, size)` still settling.
    fn pending_same_size(&self, me: &FileRecord, scope: Scope) -> (r: Result<Option<Ts>, RepoError>)
        ensures
            r matches Ok(o) ==> o == pending_same_size_spec(self.files_view(), *me, scope),
    ;

    /// Groups with one key, in id order.
    fn groups_by_key(&self, domain: &DomainId, size: u64, sparse_hash: &[u8; 32]) -> (r: Result<Vec<Group>, RepoError>)
        ensures
            r matches Ok(v) ==> v@ == groups_with_key(self.groups_view(), *domain, size, *sparse_hash),
    ;

    fn group_get(&self, group: i64) -> (r: Result<Option<Group>, RepoError>)
        ensures
            r matches Ok(o) ==> o == group_by_id(self.groups_view(), group),
    ;

    fn group_members(&self, group: i64) -> (r: Result<Vec<FileRecord>, RepoError>)
        ensures
            r matches Ok(v) ==> v@ == members_of(self.files_view(), group),
    ;

    // --- watcher and reconcile ---

    /// Changes the path of a row; a row of another key at `new_loc` goes `missing`.
    fn rename(&mut self, key: &FileKey, new_loc: &FileLoc, now: Ts) -> (r: Result<(), RepoError>)
        ensures
            r is Ok ==> key_index(old(self).files_view(), *key) >= 0 && final(self).files_view() == renamed_rows(old(self).files_view(), *key, *new_loc, now)
                && final(self).groups_view() == old(self).groups_view() && final(self).roots_view() == old(self).roots_view(),
            r is Err ==> unchanged(old(self).files_view(), old(self).groups_view(), final(self).files_view(), final(self).groups_view()),
    ;

    /// Changes the directory prefix of every row below `old_dir`.
    fn rename_prefix(&mut self, old_dir: &FileLoc, new_dir: &FileLoc, now: Ts) -> (r: Result<u64, RepoError>)
        ensures
            r is Ok ==> prefix_moved(old(self).files_view(), final(self).files_view(), *old_dir, *new_dir, now)
                && final(self).groups_view() == old(self).groups_view() && final(self).roots_view() == old(self).roots_view(),
            r is Err ==> unchanged(old(self).files_view(), old(self).groups_view(), final(self).files_view(), final(self).groups_view()),
    ;

    /// The file left this path: `missing` (keeping `prev_state`).
    fn mark_missing(&mut self, loc: &FileLoc, now: Ts) -> (r: Result<(), RepoError>)
        ensures
            r is Ok ==> final(self).files_view() == at_loc_missing(old(self).files_view(), *loc, now)
                && final(self).groups_view() == old(self).groups_view() && final(self).roots_view() == old(self).roots_view(),
            r is Err ==> unchanged(old(self).files_view(), old(self).groups_view(), final(self).files_view(), final(self).groups_view()),
    ;

    /// Every row below `dir` goes `missing`; returns how many rows it looked at
    /// below `dir`.
    fn mark_missing_prefix(&mut self, dir: &FileLoc, now: Ts) -> (r: Result<u64, RepoError>)
        ensures
            r is Ok ==> final(self).files_view() == below_missing(old(self).files_view(), *dir, now)
                && final(self).groups_view() == old(self).groups_view() && final(self).roots_view() == old(self).roots_view(),
            r is Err ==> unchanged(old(self).files_view(), old(self).groups_view(), final(self).files_view(), final(self).groups_view()),
    ;

    /// `missing` → `prev_state` when the fingerprint matches, else → `settling`.
    fn restore_or_reset(&mut self, key: &FileKey, id: &Identity, now: Ts) -> (r: Result<(), RepoError>)
        ensures
            r is Ok ==> restore_effect(old(self).files_view(), old(self).groups_view(), old(self).roots_view(), *key, *id, now,
                final(self).files_view(), final(self).groups_view()) && final(self).roots_view() == old(self).roots_view(),
            r is Err ==> unchanged(old(self).files_view(), old(self).groups_view(), final(self).files_view(), final(self).groups_view()),
    ;

    fn presence_begin(&mut self) -> Result<(), RepoError>;

    fn presence_seen(&mut self, seen: &Vec<(FileKey, Fingerprint, FileLoc)>, now: Ts) -> Result<u64, RepoError>;

    /// Ends a presence scan of one root: the rows it did not see go `missing`
    /// (their number is returned); no row goes `gone`.
    fn presence_finish(&mut self, root_id: i64, scan_id: Ts) -> Result<u64, RepoError>;

    /// Rows of a root `missing` since before `cutoff` become `gone` at `now`.
    /// A step of its own: finishing a presence scan never turns a row `gone`.
    fn presence_expire(&mut self, root_id: i64, cutoff: Ts, now: Ts) -> Result<u64, RepoError>;

    // --- journal ---

    fn journal_begin(&mut self, j: &JournalRow) -> Result<i64, RepoError>;

    /// `durable = true` forces a full sync for this transaction.
    fn journal_update(&mut self, id: i64, st: JournalState, durable: bool, now: Ts) -> Result<(), RepoError>;

    /// Journal rows not yet closed, for the boot-time recovery.
    fn journal_open(&self) -> Result<Vec<JournalRow>, RepoError>;

    // --- volumes, roots, scan progress, meta ---

    fn volume_upsert(&mut self, v: &Volume) -> Result<i64, RepoError>;

    fn volume_list(&self) -> Result<Vec<Volume>, RepoError>;

    /// Adds or updates a root by path; returns its id.
    fn root_upsert(&mut self, r: &Root, now: Ts) -> Result<i64, RepoError>;

    fn root_list(&self) -> Result<Vec<Root>, RepoError>;

    fn scan_progress_get(&self, root_id: i64) -> Result<Option<ScanProgress>, RepoError>;

    fn scan_progress_set(&mut self, p: &ScanProgress) -> Result<(), RepoError>;

    /// Parks every scheduled `hashed` row of a domain whose backend cannot dedupe.
    fn park_domain(&mut self, domain: &DomainId, err: &str, now: Ts) -> Result<u64, RepoError>;

    fn unpark_domain(&mut self, domain: &DomainId, now: Ts) -> Result<u64, RepoError>;

    /// `verified` → `hashed` for the allowed paths.
    fn requeue_verified(&mut self, allow: &Vec<FileLoc>, now: Ts) -> Result<u64, RepoError>;

    fn meta_get(&self, k: &str) -> Result<Option<String>, RepoError>;

    fn meta_set(&mut self, k: &str, v: &str) -> Result<(), RepoError>;

    // --- notes on cross-machine groups ---

    fn group_note_set(&mut self, n: &GroupNote) -> Result<(), RepoError>;

    fn group_note_get(&self, group: i64) -> Result<Option<GroupNote>, RepoError>;

    // --- ledger ---

    fn record_event(&mut self, ev: &DedupEvent) -> Result<(), RepoError>;

    fn events(&self, f: &EventFilter) -> Result<Vec<DedupEvent>, RepoError>;

    /// Deletes `gone` rows and events past retention; returns how many.
    fn purge(&mut self, now: Ts, retention_ms: i64) -> Result<u64, RepoError>;

    /// WAL checkpoint; nothing to do in memory.
    fn checkpoint(&mut self) -> Result<(), RepoError>;
}

} // verus!
