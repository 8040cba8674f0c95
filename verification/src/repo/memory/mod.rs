//! `MemoryRepository`: the in-memory repository used to test the pipeline.
//! Rows are kept in insertion order; since ids come from one increasing
//! counter, that is also the order of their ids.

pub mod apply;
pub mod index;
pub mod lookup;
pub mod misc;
pub mod queue;
pub mod unique;
pub mod watch;

use vstd::prelude::*;

use crate::config::parse::{dec_chars, dec_vec, int_chars};
use crate::model::{
    queued, DomainId, FileKey, FileLoc, FileRecord, Fingerprint, Group, Identity, JournalState,
    Root, RootKind, ScanProgress, State, Ts, Volume,
};
use crate::path::components;
use crate::repo::rules::{fresh_row, upsert_decision, upserted_row};
use crate::repo::types::{DedupEvent, EventFilter, GroupNote, JournalRow, ScanRow, Transition};
use crate::repo::{RepoError, Repository, Scope, UpsertResult};

use self::apply::{
    apply_journal, apply_refusal, apply_rows, cas_ok, event_recorded, refusal_message,
    untouched_by_apply,
};
use self::misc::{
    events_spec, open_pred, count_parkable, count_requeueable, count_unparkable, is_parked_from, kept_pred,
    loses_canonical, meta_index, note_index, only_journal_changed, parkable, recent_pred,
    requeueable, root_path_index, root_pos, scan_index, unparkable, volume_index,
};
use self::lookup::{
    candidates_spec, group_by_id, groups_with_key, members_of, pending_same_size_spec, row_by_key,
    row_by_path,
};
use self::unique::store_wf;
use self::queue::lemma_key_index;
use self::queue::{
    next_ready_ok, pending_fold, count_where, drop_lost_canonical, first_unknown_root, ids_exhausted_message, key_index,
    only_rows_changed, phase_b_row, scan_inserted, unknown_root_message,
};
use self::watch::{
    at_loc_missing, count_expire, count_finish, expire_row, finish_applies, finish_row, join_comps, joined_path, missing_row,
    presence_fold, sat_sub_i64, seen_view, under_dir,
};

verus! {

/// All the data of the repository.
#[derive(Debug)]
pub struct Store {
    pub next_id: i64,
    pub files: Vec<FileRecord>,
    pub groups: Vec<Group>,
    pub journal: Vec<JournalRow>,
    pub events: Vec<DedupEvent>,
    pub volumes: Vec<Volume>,
    pub roots: Vec<Root>,
    pub scan: Vec<ScanProgress>,
    pub meta: Vec<(String, String)>,
    pub notes: Vec<GroupNote>,
    /// The keys seen by the running presence scan; `None` when none runs.
    pub seen: Option<Vec<FileKey>>,
    /// Number of durable journal writes.
    pub durable_writes: u64,
}

/// Index of the first filerecord with id `id` at or after `i`, or -1.
pub open spec fn file_index_from(s: Seq<FileRecord>, id: i64, i: int) -> int
    decreases s.len() - i,
{
    if i < 0 || i >= s.len() {
        -1
    } else if s[i].id == id {
        i
    } else {
        file_index_from(s, id, i + 1)
    }
}

/// Index of the first filerecord with id `id`, or -1.
pub open spec fn file_index(s: Seq<FileRecord>, id: i64) -> int {
    file_index_from(s, id, 0)
}

pub proof fn lemma_file_index_from(s: Seq<FileRecord>, id: i64, i: int)
    requires
        0 <= i <= s.len(),
    ensures
        file_index_from(s, id, i) == -1 || i <= file_index_from(s, id, i) < s.len(),
        file_index_from(s, id, i) >= 0 ==> s[file_index_from(s, id, i)].id == id,
        forall|k: int| i <= k < s.len() && (file_index_from(s, id, i) == -1 || k < file_index_from(s, id, i)) ==> !(#[trigger] s[k].id == id),
    decreases s.len() - i,
{
    if i < s.len() {
        lemma_file_index_from(s, id, i + 1);
    }
}

pub proof fn lemma_file_index(s: Seq<FileRecord>, id: i64)
    ensures
        -1 <= file_index(s, id) < s.len(),
        file_index(s, id) >= 0 ==> s[file_index(s, id)].id == id,
        forall|k: int| 0 <= k < s.len() && (file_index(s, id) == -1 || k < file_index(s, id)) ==> !(#[trigger] s[k].id == id),
{
    lemma_file_index_from(s, id, 0);
}

pub fn find_file(files: &Vec<FileRecord>, id: i64) -> (r: Option<usize>)
    ensures
        match r {
            Some(i) => i < files@.len() && i as int == file_index(files@, id) && file_index(files@, id) >= 0,
            None => file_index(files@, id) == -1,
        },
{
    proof {
        lemma_file_index(files@, id);
    }
    let mut i: usize = 0;
    while i < files.len()
        invariant
            i <= files@.len(),
            file_index(files@, id) == file_index_from(files@, id, i as int),
        decreases files@.len() - i,
    {
        if files[i].id == id {
            return Some(i);
        }
        i = i + 1;
    }
    None
}

/// Index of the first group with id `id` at or after `i`, or -1.
pub open spec fn group_index_from(s: Seq<Group>, id: i64, i: int) -> int
    decreases s.len() - i,
{
    if i < 0 || i >= s.len() {
        -1
    } else if s[i].id == id {
        i
    } else {
        group_index_from(s, id, i + 1)
    }
}

/// Index of the first group with id `id`, or -1.
pub open spec fn group_index(s: Seq<Group>, id: i64) -> int {
    group_index_from(s, id, 0)
}

pub proof fn lemma_group_index_from(s: Seq<Group>, id: i64, i: int)
    requires
        0 <= i <= s.len(),
    ensures
        group_index_from(s, id, i) == -1 || i <= group_index_from(s, id, i) < s.len(),
        group_index_from(s, id, i) >= 0 ==> s[group_index_from(s, id, i)].id == id,
        forall|k: int| i <= k < s.len() && (group_index_from(s, id, i) == -1 || k < group_index_from(s, id, i)) ==> !(#[trigger] s[k].id == id),
    decreases s.len() - i,
{
    if i < s.len() {
        lemma_group_index_from(s, id, i + 1);
    }
}

pub proof fn lemma_group_index(s: Seq<Group>, id: i64)
    ensures
        -1 <= group_index(s, id) < s.len(),
        group_index(s, id) >= 0 ==> s[group_index(s, id)].id == id,
        forall|k: int| 0 <= k < s.len() && (group_index(s, id) == -1 || k < group_index(s, id)) ==> !(#[trigger] s[k].id == id),
{
    lemma_group_index_from(s, id, 0);
}

pub fn find_group(groups: &Vec<Group>, id: i64) -> (r: Option<usize>)
    ensures
        match r {
            Some(i) => i < groups@.len() && i as int == group_index(groups@, id) && group_index(groups@, id) >= 0,
            None => group_index(groups@, id) == -1,
        },
{
    proof {
        lemma_group_index(groups@, id);
    }
    let mut i: usize = 0;
    while i < groups.len()
        invariant
            i <= groups@.len(),
            group_index(groups@, id) == group_index_from(groups@, id, i as int),
        decreases groups@.len() - i,
    {
        if groups[i].id == id {
            return Some(i);
        }
        i = i + 1;
    }
    None
}

/// Index of the first journalrow with id `id` at or after `i`, or -1.
pub open spec fn journal_index_from(s: Seq<JournalRow>, id: i64, i: int) -> int
    decreases s.len() - i,
{
    if i < 0 || i >= s.len() {
        -1
    } else if s[i].id == Some(id) {
        i
    } else {
        journal_index_from(s, id, i + 1)
    }
}

/// Index of the first journalrow with id `id`, or -1.
pub open spec fn journal_index(s: Seq<JournalRow>, id: i64) -> int {
    journal_index_from(s, id, 0)
}

pub proof fn lemma_journal_index_from(s: Seq<JournalRow>, id: i64, i: int)
    requires
        0 <= i <= s.len(),
    ensures
        journal_index_from(s, id, i) == -1 || i <= journal_index_from(s, id, i) < s.len(),
        journal_index_from(s, id, i) >= 0 ==> s[journal_index_from(s, id, i)].id == Some(id),
        forall|k: int| i <= k < s.len() && (journal_index_from(s, id, i) == -1 || k < journal_index_from(s, id, i)) ==> !(#[trigger] s[k].id == Some(id)),
    decreases s.len() - i,
{
    if i < s.len() {
        lemma_journal_index_from(s, id, i + 1);
    }
}

pub proof fn lemma_journal_index(s: Seq<JournalRow>, id: i64)
    ensures
        -1 <= journal_index(s, id) < s.len(),
        journal_index(s, id) >= 0 ==> s[journal_index(s, id)].id == Some(id),
        forall|k: int| 0 <= k < s.len() && (journal_index(s, id) == -1 || k < journal_index(s, id)) ==> !(#[trigger] s[k].id == Some(id)),
{
    lemma_journal_index_from(s, id, 0);
}

pub fn find_journal(j: &Vec<JournalRow>, id: i64) -> (r: Option<usize>)
    ensures
        match r {
            Some(i) => i < j@.len() && i as int == journal_index(j@, id) && journal_index(j@, id) >= 0,
            None => journal_index(j@, id) == -1,
        },
{
    proof {
        lemma_journal_index(j@, id);
    }
    let mut i: usize = 0;
    while i < j.len()
        invariant
            i <= j@.len(),
            journal_index(j@, id) == journal_index_from(j@, id, i as int),
        decreases j@.len() - i,
    {
        if j[i].id == Some(id) {
            return Some(i);
        }
        i = i + 1;
    }
    None
}

/// Index of the first root with id `id` at or after `i`, or -1.
pub open spec fn root_index_from(s: Seq<Root>, id: i64, i: int) -> int
    decreases s.len() - i,
{
    if i < 0 || i >= s.len() {
        -1
    } else if s[i].id == id {
        i
    } else {
        root_index_from(s, id, i + 1)
    }
}

/// Index of the first root with id `id`, or -1.
pub open spec fn root_index(s: Seq<Root>, id: i64) -> int {
    root_index_from(s, id, 0)
}

pub proof fn lemma_root_index_from(s: Seq<Root>, id: i64, i: int)
    requires
        0 <= i <= s.len(),
    ensures
        root_index_from(s, id, i) == -1 || i <= root_index_from(s, id, i) < s.len(),
        root_index_from(s, id, i) >= 0 ==> s[root_index_from(s, id, i)].id == id,
        forall|k: int| i <= k < s.len() && (root_index_from(s, id, i) == -1 || k < root_index_from(s, id, i)) ==> !(#[trigger] s[k].id == id),
    decreases s.len() - i,
{
    if i < s.len() {
        lemma_root_index_from(s, id, i + 1);
    }
}

pub proof fn lemma_root_index(s: Seq<Root>, id: i64)
    ensures
        -1 <= root_index(s, id) < s.len(),
        root_index(s, id) >= 0 ==> s[root_index(s, id)].id == id,
        forall|k: int| 0 <= k < s.len() && (root_index(s, id) == -1 || k < root_index(s, id)) ==> !(#[trigger] s[k].id == id),
{
    lemma_root_index_from(s, id, 0);
}

pub fn find_root(roots: &Vec<Root>, id: i64) -> (r: Option<usize>)
    ensures
        match r {
            Some(i) => i < roots@.len() && i as int == root_index(roots@, id) && root_index(roots@, id) >= 0,
            None => root_index(roots@, id) == -1,
        },
{
    proof {
        lemma_root_index(roots@, id);
    }
    let mut i: usize = 0;
    while i < roots.len()
        invariant
            i <= roots@.len(),
            root_index(roots@, id) == root_index_from(roots@, id, i as int),
        decreases roots@.len() - i,
    {
        if roots[i].id == id {
            return Some(i);
        }
        i = i + 1;
    }
    None
}

/// `prefix` followed by the decimal notation of `x` and `suffix`.
pub fn message_with_number(prefix: &str, x: i64, suffix: &str) -> (r: String)
    ensures
        r@ == prefix@ + int_chars(x as int) + suffix@,
{
    let mut out = crate::text::chars_of(prefix);
    let ghost head = out@;
    let d: Vec<char>;
    if x < 0 {
        out.push('-');
        let mag: u64 = if x == i64::MIN {
            9223372036854775808
        } else {
            (-x) as u64
        };
        d = dec_vec(mag);
    } else {
        d = dec_vec(x as u64);
    }
    let ghost mid = out@;
    let mut k: usize = 0;
    while k < d.len()
        invariant
            k <= d@.len(),
            out@ == mid + d@.subrange(0, k as int),
        decreases d@.len() - k,
    {
        out.push(d[k]);
        k = k + 1;
    }
    assert(d@.subrange(0, d@.len() as int) =~= d@);
    let tail = crate::text::chars_of(suffix);
    let ghost mid2 = out@;
    let mut j: usize = 0;
    while j < tail.len()
        invariant
            j <= tail@.len(),
            out@ == mid2 + tail@.subrange(0, j as int),
        decreases tail@.len() - j,
    {
        out.push(tail[j]);
        j = j + 1;
    }
    assert(tail@.subrange(0, tail@.len() as int) =~= tail@);
    proof {
        if x < 0 {
            assert(out@ =~= prefix@ + int_chars(x as int) + suffix@);
        } else {
            assert(out@ =~= prefix@ + int_chars(x as int) + suffix@);
        }
    }
    crate::text::string_of(&out)
}

/// The kind of a registered root.
pub open spec fn root_kind_spec(roots: Seq<Root>, id: i64) -> Option<RootKind> {
    let i = root_index(roots, id);
    if i >= 0 {
        Some(roots[i].kind)
    } else {
        None
    }
}

impl Store {
    pub fn new() -> (r: Self)
        ensures
            r.next_id == 0,
            r.files@.len() == 0,
            r.groups@.len() == 0,
            r.journal@.len() == 0,
            r.events@.len() == 0,
            r.volumes@.len() == 0,
            r.roots@.len() == 0,
            r.scan@.len() == 0,
            r.meta@.len() == 0,
            r.notes@.len() == 0,
            r.seen is None,
            r.durable_writes == 0,
    {
        Store {
            next_id: 0,
            files: Vec::new(),
            groups: Vec::new(),
            journal: Vec::new(),
            events: Vec::new(),
            volumes: Vec::new(),
            roots: Vec::new(),
            scan: Vec::new(),
            meta: Vec::new(),
            notes: Vec::new(),
            seen: None,
            durable_writes: 0,
        }
    }

    /// A fresh id, one past the last one handed out; `None` once the counter
    /// is exhausted.
    pub fn alloc_id(&mut self) -> (r: Option<i64>)
        ensures
            old(self).next_id < i64::MAX ==> r == Some((old(self).next_id + 1) as i64)
                && final(self).next_id == old(self).next_id + 1,
            old(self).next_id == i64::MAX ==> r is None && final(self).next_id == old(self).next_id,
            final(self).files == old(self).files,
            final(self).groups == old(self).groups,
            final(self).journal == old(self).journal,
            final(self).events == old(self).events,
            final(self).volumes == old(self).volumes,
            final(self).roots == old(self).roots,
            final(self).scan == old(self).scan,
            final(self).meta == old(self).meta,
            final(self).notes == old(self).notes,
            final(self).seen == old(self).seen,
            final(self).durable_writes == old(self).durable_writes,
    {
        if self.next_id == i64::MAX {
            return None;
        }
        self.next_id = self.next_id + 1;
        Some(self.next_id)
    }

    /// The row of `key`, to be changed in place.
    pub fn file_by_key_mut(&mut self, key: &FileKey) -> (r: Option<&mut FileRecord>)
        ensures
            ({
                let k = key_index(old(self).files@, *key);
                match r {
                    Some(f) => {
                        &&& k >= 0
                        &&& *f == old(self).files@[k]
                        &&& final(self).files@ == old(self).files@.update(k, *final(f))
                        &&& *final(self) == (Store { files: final(self).files, ..*old(self) })
                    },
                    None => k == -1 && *final(self) == *old(self),
                }
            }),
    {
        match queue::find_key(&self.files, key) {
            Some(i) => Some(&mut self.files[i]),
            None => None,
        }
    }

    /// The kind of a root, or an error when it was never registered.
    pub fn root_kind(&self, root_id: i64) -> (r: Result<RootKind, RepoError>)
        ensures
            match root_kind_spec(self.roots@, root_id) {
                Some(k) => r == Ok::<RootKind, RepoError>(k),
                None => r matches Err(RepoError::Constraint(m)) && m@ == "root "@ + int_chars(
                    root_id as int,
                ) + " chưa đăng ký"@,
            },
    {
        match find_root(&self.roots, root_id) {
            Some(i) => Ok(self.roots[i].kind),
            None => Err(RepoError::Constraint(message_with_number("root ", root_id, " chưa đăng ký"))),
        }
    }
}

/// The in-memory repository, for tests of the pipeline. Its operations are
/// the verified functions of the submodules applied to `store`.
#[derive(Debug)]
pub struct MemoryRepository {
    pub store: Store,
}

/// The error of an operation that would count past `u64::MAX` rows.
pub open spec fn too_many_message() -> Seq<char> {
    "quá nhiều row"@
}

fn too_many() -> (r: RepoError)
    ensures
        r matches RepoError::Other(m) && m@ == too_many_message(),
{
    RepoError::Other("quá nhiều row".to_owned())
}

impl MemoryRepository {
    /// The rows have distinct ids and distinct keys, none above the id
    /// counter; every operation keeps it.
    pub open spec fn wf(&self) -> bool {
        store_wf(&self.store)
    }

    pub fn new() -> (r: Self)
        ensures
            r.wf(),
            r.store.next_id == 0,
            r.store.files@.len() == 0,
            r.store.groups@.len() == 0,
            r.store.journal@.len() == 0,
            r.store.events@.len() == 0,
            r.store.volumes@.len() == 0,
            r.store.roots@.len() == 0,
            r.store.scan@.len() == 0,
            r.store.meta@.len() == 0,
            r.store.notes@.len() == 0,
            r.store.seen is None,
            r.store.durable_writes == 0,
    {
        MemoryRepository { store: Store::new() }
    }

    /// How many times `journal_update(durable = true)` was called.
    pub fn durable_writes(&self) -> (r: u64)
        ensures
            r == self.store.durable_writes,
    {
        self.store.durable_writes
    }

    /// Every row of `files`, in id order.
    pub fn all_files(&self) -> (r: Vec<FileRecord>)
        ensures
            r@ == self.store.files@,
    {
        lookup::copy_files(&self.store.files)
    }
}

impl Repository for MemoryRepository {
    open spec fn files_view(&self) -> Seq<FileRecord> {
        self.store.files@
    }

    open spec fn groups_view(&self) -> Seq<Group> {
        self.store.groups@
    }

    open spec fn roots_view(&self) -> Seq<Root> {
        self.store.roots@
    }

    fn upsert_pending(&mut self, id: &Identity, loc: &FileLoc, ready_at: Ts, priority: u8, now: Ts) -> (r: Result<UpsertResult, RepoError>)
        ensures
            old(self).wf() ==> final(self).wf(),
            match root_kind_spec(old(self).store.roots@, loc.root_id) {
            None => (r matches Err(RepoError::Constraint(m)) && m@ == unknown_root_message(loc.root_id)) && final(self).store == old(self).store,
            Some(kind) => {
                let k = key_index(old(self).store.files@, id.key);
                if k >= 0 {
                    let row = old(self).store.files@[k];
                    let d = upsert_decision(row, *id, kind, ready_at, priority);
                    let nr = upserted_row(row, d, *id, Some(*loc), now);
                    &&& final(self).store.files@ == old(self).store.files@.update(k, nr)
                    &&& final(self).store.groups@ == drop_lost_canonical(old(self).store.groups@, row.id, row.group_id, nr.group_id)
                    &&& final(self).store.next_id == old(self).store.next_id
                    &&& r == Ok::<UpsertResult, RepoError>(UpsertResult { id: row.id, dropped_as_self_event: d.fp_same && !queued(nr.state) })
                } else if old(self).store.next_id < i64::MAX {
                    let nid = (old(self).store.next_id + 1) as i64;
                    &&& final(self).store.files@ == old(self).store.files@.push(fresh_row(nid, *id, *loc, ready_at, priority, now))
                    &&& final(self).store.groups == old(self).store.groups
                    &&& final(self).store.next_id == nid
                    &&& r == Ok::<UpsertResult, RepoError>(UpsertResult { id: nid, dropped_as_self_event: false })
                } else {
                    (r matches Err(RepoError::Other(m)) && m@ == ids_exhausted_message()) && final(self).store == old(self).store
                }
            },
        },
            only_rows_changed(&old(self).store, &final(self).store),
    {
        let ghost s0 = self.store;
        let r = queue::upsert_pending(&mut self.store, id, loc, ready_at, priority, now);
        proof {
            if store_wf(&s0) && r is Ok {
                let kind = root_kind_spec(s0.roots@, loc.root_id).unwrap();
                let k = key_index(s0.files@, id.key);
                lemma_key_index(s0.files@, id.key);
                if k >= 0 {
                    let row = s0.files@[k];
                    let nr = upserted_row(row, upsert_decision(row, *id, kind, ready_at, priority), *id, Some(*loc), now);
                    unique::lemma_update_shape(s0.files@, k, nr);
                    unique::lemma_same_shape(s0.files@, self.store.files@, s0.next_id, self.store.next_id);
                } else {
                    unique::lemma_push_fresh(s0.files@, s0.next_id, fresh_row(self.store.next_id, *id, *loc, ready_at, priority, now));
                }
            }
        }
        r
    }

    fn scan_insert(&mut self, rows: &Vec<ScanRow>, now: Ts) -> (r: Result<u64, RepoError>)
        ensures
            old(self).wf() ==> final(self).wf(),
            first_unknown_root(old(self).store.roots@, rows@, 0) < rows@.len() ==> (r matches Err(RepoError::Constraint(m)) && m@ == unknown_root_message(rows@[first_unknown_root(old(self).store.roots@, rows@, 0)].loc.root_id)) && final(self).store == old(self).store,
            first_unknown_root(old(self).store.roots@, rows@, 0) >= rows@.len() ==> {
            let (f, n, c) = scan_inserted(old(self).store.files@, old(self).store.next_id, rows@, now);
            &&& final(self).store.files@ == f
            &&& final(self).store.next_id == n
            &&& r == Ok::<u64, RepoError>(c as u64)
            &&& final(self).store.groups == old(self).store.groups
        },
            only_rows_changed(&old(self).store, &final(self).store),
    {
        let ghost s0 = self.store;
        let r = queue::scan_insert(&mut self.store, rows, now);
        proof {
            if store_wf(&s0) {
                unique::lemma_scan_inserted(s0.files@, s0.next_id, rows@, now);
            }
        }
        r
    }

    fn scan_phase_b(&mut self, root_id: i64, now: Ts) -> (r: Result<(u64, u64), RepoError>)
        ensures
            old(self).wf() ==> final(self).wf(),
            old(self).store.files@.len() < u64::MAX ==> r is Ok,
            !(old(self).store.files@.len() < u64::MAX) ==> (r matches Err(RepoError::Other(m)) && m@ == too_many_message() && final(self).store == old(self).store),
            old(self).store.files@.len() < u64::MAX ==> (r matches Ok(v) ==> (final(self).store.files@.len() == old(self).store.files@.len())),
            old(self).store.files@.len() < u64::MAX ==> (r matches Ok(v) ==> (forall|i: int| 0 <= i < old(self).store.files@.len() ==> #[trigger] final(self).store.files@[i] == phase_b_row(old(self).store.files@[i], old(self).store.files@, root_id, now))),
            old(self).store.files@.len() < u64::MAX ==> (r matches Ok(v) ==> (v.0 as nat == count_where(old(self).store.files@, old(self).store.files@, root_id, true))),
            old(self).store.files@.len() < u64::MAX ==> (r matches Ok(v) ==> (v.1 as nat == count_where(old(self).store.files@, old(self).store.files@, root_id, false))),
            old(self).store.files@.len() < u64::MAX ==> (r matches Ok(v) ==> (final(self).store.groups == old(self).store.groups)),
            old(self).store.files@.len() < u64::MAX ==> (r matches Ok(v) ==> (final(self).store.next_id == old(self).store.next_id)),
            old(self).store.files@.len() < u64::MAX ==> (r matches Ok(v) ==> (only_rows_changed(&old(self).store, &final(self).store))),
    {
        if self.store.files.len() as u64 == u64::MAX {
            return Err(too_many());
        }
        Ok(queue::scan_phase_b(&mut self.store, root_id, now))
    }

    fn next_ready(&self, now: Ts, allow_heavy: bool, max_wait_ms: i64) -> (r: Result<Option<FileRecord>, RepoError>)
        ensures
            r matches Ok(v) && next_ready_ok(self.store.files@, now, allow_heavy, max_wait_ms, v),
    {
        Ok(queue::next_ready(&self.store, now, allow_heavy, max_wait_ms))
    }

    fn apply(&mut self, t: &Transition) -> (r: Result<bool, RepoError>)
        ensures
            old(self).wf() ==> final(self).wf(),
            match apply_refusal(&old(self).store, *t) {
            Some(k) => (r matches Err(RepoError::Constraint(m)) && m@ == refusal_message(k))
                && final(self).store == old(self).store,
            None => {
                &&& r == Ok::<bool, RepoError>(cas_ok(old(self).store.files@, *t))
                &&& (final(self).store.files@, final(self).store.groups@, final(self).store.next_id) == apply_rows(&old(self).store, *t)
                &&& final(self).store.journal@ == apply_journal(&old(self).store, *t)
                &&& match t.event {
                    Some(ev) => event_recorded(old(self).store.events@, final(self).store.events@, ev, cas_ok(old(self).store.files@, *t)),
                    None => final(self).store.events@ == old(self).store.events@,
                }
                &&& untouched_by_apply(&old(self).store, &final(self).store)
            },
        },
    {
        let ghost s0 = self.store;
        let r = apply::apply(&mut self.store, t);
        proof {
            if store_wf(&s0) && apply_refusal(&s0, *t) is None {
                unique::lemma_apply_rows(&s0, *t);
            }
        }
        r
    }

    fn pending_counts(&self) -> (r: Result<(u64, Vec<(u32, u64)>), RepoError>)
        ensures
            self.store.files@.len() < u64::MAX ==> (r matches Ok(v) && v.0 == pending_fold(self.store.files@).0
                && v.1@ == pending_fold(self.store.files@).1),
            self.store.files@.len() == u64::MAX ==> (r matches Err(RepoError::Other(m)) && m@ == too_many_message()),
    {
        if self.store.files.len() as u64 == u64::MAX {
            return Err(too_many());
        }
        Ok(queue::pending_counts(&self.store))
    }

    fn find_by_key(&self, key: &FileKey) -> (r: Result<Option<FileRecord>, RepoError>)
        ensures
            r == Ok::<Option<FileRecord>, RepoError>(row_by_key(self.store.files@, *key)),
    {
        Ok(lookup::find_by_key(&self.store.files, key))
    }

    fn find_by_path(&self, loc: &FileLoc) -> (r: Result<Option<FileRecord>, RepoError>)
        ensures
            r == Ok::<Option<FileRecord>, RepoError>(row_by_path(self.store.files@, *loc)),
    {
        Ok(lookup::find_by_path(&self.store.files, loc))
    }

    fn candidates(&self, me: &FileRecord, scope: Scope, settled_before_ns: i64, limit: usize) -> (r: Result<Vec<FileRecord>, RepoError>)
        ensures
            r matches Ok(v) && v@ == candidates_spec(self.store.files@, *me, scope, settled_before_ns, limit),
    {
        Ok(lookup::candidates(&self.store.files, me, scope, settled_before_ns, limit))
    }

    fn pending_same_size(&self, me: &FileRecord, scope: Scope) -> (r: Result<Option<Ts>, RepoError>)
        ensures
            r == Ok::<Option<Ts>, RepoError>(pending_same_size_spec(self.store.files@, *me, scope)),
    {
        Ok(lookup::pending_same_size(&self.store.files, me, scope))
    }

    fn groups_by_key(&self, domain: &DomainId, size: u64, sparse_hash: &[u8; 32]) -> (r: Result<Vec<Group>, RepoError>)
        ensures
            r matches Ok(v) && v@ == groups_with_key(self.store.groups@, *domain, size, *sparse_hash),
    {
        Ok(lookup::groups_by_key(&self.store.groups, domain, size, sparse_hash))
    }

    fn group_get(&self, group: i64) -> (r: Result<Option<Group>, RepoError>)
        ensures
            r == Ok::<Option<Group>, RepoError>(group_by_id(self.store.groups@, group)),
    {
        Ok(lookup::group_get(&self.store.groups, group))
    }

    fn group_members(&self, group: i64) -> (r: Result<Vec<FileRecord>, RepoError>)
        ensures
            r matches Ok(v) && v@ == members_of(self.store.files@, group),
    {
        Ok(lookup::group_members(&self.store.files, group))
    }

    fn rename(&mut self, key: &FileKey, new_loc: &FileLoc, now: Ts) -> (r: Result<(), RepoError>)
        ensures
            old(self).wf() ==> final(self).wf(),
            key_index(old(self).store.files@, *key) < 0 ==> (r matches Err(RepoError::Constraint(m)) && m@ == "rename: không có row cho khóa này"@) && final(self).store == old(self).store,
            key_index(old(self).store.files@, *key) >= 0 ==> {
            let k = key_index(old(self).store.files@, *key);
            let f1 = Seq::new(old(self).store.files@.len(), |i: int| if old(self).store.files@[i].loc@ == new_loc@ && old(self).store.files@[i].key != *key { missing_row(old(self).store.files@[i], now) } else { old(self).store.files@[i] });
            &&& r is Ok
            &&& final(self).store.files@ == f1.update(k, FileRecord { loc: *new_loc, updated_at: now, ..f1[k] })
        },
            final(self).store.groups == old(self).store.groups,
            final(self).store.next_id == old(self).store.next_id,
            only_rows_changed(&old(self).store, &final(self).store),
    {
        let ghost s0 = self.store;
        let r = watch::rename(&mut self.store, key, new_loc, now);
        proof {
            if store_wf(&s0) && key_index(s0.files@, *key) >= 0 {
                let k = key_index(s0.files@, *key);
                lemma_key_index(s0.files@, *key);
                let f1 = Seq::new(s0.files@.len(), |i: int| if s0.files@[i].loc@ == new_loc@ && s0.files@[i].key != *key { missing_row(s0.files@[i], now) } else { s0.files@[i] });
                assert(unique::same_ids_keys(s0.files@, f1));
                unique::lemma_update_shape(f1, k, FileRecord { loc: *new_loc, updated_at: now, ..f1[k] });
                unique::lemma_same_trans(s0.files@, f1, self.store.files@);
                unique::lemma_same_shape(s0.files@, self.store.files@, s0.next_id, self.store.next_id);
            }
        }
        r
    }

    fn rename_prefix(&mut self, old_dir: &FileLoc, new_dir: &FileLoc, now: Ts) -> (r: Result<u64, RepoError>)
        ensures
            old(self).wf() ==> final(self).wf(),
            old(self).store.files@.len() < u64::MAX ==> r is Ok,
            !(old(self).store.files@.len() < u64::MAX) ==> (r matches Err(RepoError::Other(m)) && m@ == too_many_message() && final(self).store == old(self).store),
            old(self).store.files@.len() < u64::MAX ==> (r matches Ok(v) ==> (final(self).store.files@.len() == old(self).store.files@.len())),
            old(self).store.files@.len() < u64::MAX ==> (r matches Ok(v) ==> (forall|i: int| 0 <= i < old(self).store.files@.len() ==> {
            let r0 = #[trigger] old(self).store.files@[i];
            let r1 = final(self).store.files@[i];
            if under_dir(r0, *old_dir) {
                let c = components(r0.loc.rel_path@);
                let rest = join_comps(c.subrange(components(old_dir.rel_path@).len() as int, c.len() as int));
                &&& r1.loc.root_id == new_dir.root_id
                &&& r1.loc.rel_path@ == joined_path(new_dir.rel_path@, rest)
                &&& r1 == FileRecord { loc: r1.loc, updated_at: now, ..r0 }
            } else {
                r1 == r0
            }
        })),
            old(self).store.files@.len() < u64::MAX ==> (r matches Ok(v) ==> (v <= old(self).store.files@.len())),
            old(self).store.files@.len() < u64::MAX ==> (r matches Ok(v) ==> (final(self).store.groups == old(self).store.groups)),
            old(self).store.files@.len() < u64::MAX ==> (r matches Ok(v) ==> (final(self).store.next_id == old(self).store.next_id)),
            old(self).store.files@.len() < u64::MAX ==> (r matches Ok(v) ==> (only_rows_changed(&old(self).store, &final(self).store))),
    {
        if self.store.files.len() as u64 == u64::MAX {
            return Err(too_many());
        }
        let ghost s0 = self.store;
        let v = watch::rename_prefix(&mut self.store, old_dir, new_dir, now);
        proof {
            if store_wf(&s0) {
                assert(unique::same_ids_keys(s0.files@, self.store.files@));
                unique::lemma_same_shape(s0.files@, self.store.files@, s0.next_id, self.store.next_id);
            }
        }
        Ok(v)
    }

    fn mark_missing(&mut self, loc: &FileLoc, now: Ts) -> (r: Result<(), RepoError>)
        ensures
            old(self).wf() ==> final(self).wf(),
            final(self).store.files@ == at_loc_missing(old(self).store.files@, *loc, now),
            final(self).store.groups == old(self).store.groups,
            final(self).store.next_id == old(self).store.next_id,
            only_rows_changed(&old(self).store, &final(self).store),
            r == Ok::<(), RepoError>(()),
    {
        watch::mark_missing(&mut self.store, loc, now);
        Ok(())
    }

    fn mark_missing_prefix(&mut self, dir: &FileLoc, now: Ts) -> (r: Result<u64, RepoError>)
        ensures
            old(self).wf() ==> final(self).wf(),
            old(self).store.files@.len() < u64::MAX ==> r is Ok,
            !(old(self).store.files@.len() < u64::MAX) ==> (r matches Err(RepoError::Other(m)) && m@ == too_many_message() && final(self).store == old(self).store),
            old(self).store.files@.len() < u64::MAX ==> (r matches Ok(v) ==> (final(self).store.files@.len() == old(self).store.files@.len())),
            old(self).store.files@.len() < u64::MAX ==> (r matches Ok(v) ==> (forall|i: int| 0 <= i < old(self).store.files@.len() ==> #[trigger] final(self).store.files@[i] == (if under_dir(old(self).store.files@[i], *dir) { missing_row(old(self).store.files@[i], now) } else { old(self).store.files@[i] }))),
            old(self).store.files@.len() < u64::MAX ==> (r matches Ok(v) ==> (v <= old(self).store.files@.len())),
            old(self).store.files@.len() < u64::MAX ==> (r matches Ok(v) ==> (final(self).store.groups == old(self).store.groups)),
            old(self).store.files@.len() < u64::MAX ==> (r matches Ok(v) ==> (final(self).store.next_id == old(self).store.next_id)),
            old(self).store.files@.len() < u64::MAX ==> (r matches Ok(v) ==> (only_rows_changed(&old(self).store, &final(self).store))),
    {
        if self.store.files.len() as u64 == u64::MAX {
            return Err(too_many());
        }
        Ok(watch::mark_missing_prefix(&mut self.store, dir, now))
    }

    fn restore_or_reset(&mut self, key: &FileKey, id: &Identity, now: Ts) -> (r: Result<(), RepoError>)
        ensures
            old(self).wf() ==> final(self).wf(),
            key_index(old(self).store.files@, *key) < 0 ==> r is Ok && final(self).store == old(self).store,
            key_index(old(self).store.files@, *key) >= 0 ==> {
            let k = key_index(old(self).store.files@, *key);
            let row = old(self).store.files@[k];
            match root_kind_spec(old(self).store.roots@, row.loc.root_id) {
                None => (r matches Err(RepoError::Constraint(m)) && m@ == unknown_root_message(row.loc.root_id)) && final(self).store == old(self).store,
                Some(kind) => r is Ok && if row.state == State::Missing {
                    let nr = upserted_row(row, upsert_decision(row, *id, kind, now, row.priority), *id, None, now);
                    &&& final(self).store.files@ == old(self).store.files@.update(k, nr)
                    &&& final(self).store.groups@ == drop_lost_canonical(old(self).store.groups@, row.id, row.group_id, nr.group_id)
                } else {
                    final(self).store.files@ == old(self).store.files@ && final(self).store.groups == old(self).store.groups
                },
            }
        },
            key_index(old(self).store.files@, *key) < 0 ==> final(self).store.groups == old(self).store.groups,
            final(self).store.next_id == old(self).store.next_id,
            only_rows_changed(&old(self).store, &final(self).store),
    {
        let ghost s0 = self.store;
        let r = watch::restore_or_reset(&mut self.store, key, id, now);
        proof {
            let k = key_index(s0.files@, *key);
            if store_wf(&s0) && k >= 0 && r is Ok {
                lemma_key_index(s0.files@, *key);
                let row = s0.files@[k];
                let kind = root_kind_spec(s0.roots@, row.loc.root_id).unwrap();
                if row.state == State::Missing {
                    let nr = upserted_row(row, upsert_decision(row, *id, kind, now, row.priority), *id, None, now);
                    unique::lemma_update_shape(s0.files@, k, nr);
                    unique::lemma_same_shape(s0.files@, self.store.files@, s0.next_id, self.store.next_id);
                }
            }
        }
        r
    }

    fn presence_begin(&mut self) -> (r: Result<(), RepoError>)
        ensures
            old(self).wf() ==> final(self).wf(),
            r is Ok,
            final(self).store.seen matches Some(v) && v@.len() == 0,
            final(self).store.files == old(self).store.files,
    {
        self.store.seen = Some(Vec::new());
        Ok(())
    }

    fn presence_seen(&mut self, seen: &Vec<(FileKey, Fingerprint, FileLoc)>, now: Ts) -> (r: Result<u64, RepoError>)
        ensures
            old(self).wf() ==> final(self).wf(),
            !(seen@.len() < u64::MAX) ==> (r matches Err(RepoError::Other(m)) && m@ == too_many_message() && final(self).store == old(self).store),
            seen@.len() < u64::MAX ==> (old(self).store.seen is None ==> (r matches Err(RepoError::Other(m)) && m@ == "presence_seen trước presence_begin"@) && final(self).store == old(self).store),
            seen@.len() < u64::MAX ==> (old(self).store.seen matches Some(sv) ==> {
            let (f, sn, c, err) = presence_fold(old(self).store.files@, sv@, old(self).store.roots@, seen@, now);
            &&& match err {
                None => r == Ok::<u64, RepoError>(c as u64) && final(self).store.files@ == f && seen_view(final(self).store.seen) == Some(sn),
                Some(root_id) => (r matches Err(RepoError::Constraint(m)) && m@ == unknown_root_message(root_id))
                    && final(self).store.files@ == old(self).store.files@ && seen_view(final(self).store.seen) == Some(sv@),
            }
        }),
            seen@.len() < u64::MAX ==> (final(self).store.groups == old(self).store.groups),
            seen@.len() < u64::MAX ==> (final(self).store.next_id == old(self).store.next_id),
            seen@.len() < u64::MAX ==> (final(self).store.journal == old(self).store.journal),
            seen@.len() < u64::MAX ==> (final(self).store.events == old(self).store.events),
            seen@.len() < u64::MAX ==> (final(self).store.roots == old(self).store.roots),
            seen@.len() < u64::MAX ==> (final(self).store.volumes == old(self).store.volumes),
            seen@.len() < u64::MAX ==> (final(self).store.scan == old(self).store.scan),
            seen@.len() < u64::MAX ==> (final(self).store.meta == old(self).store.meta),
            seen@.len() < u64::MAX ==> (final(self).store.notes == old(self).store.notes),
            seen@.len() < u64::MAX ==> (final(self).store.durable_writes == old(self).store.durable_writes),
    {
        if seen.len() as u64 == u64::MAX {
            return Err(too_many());
        }
        let ghost s0 = self.store;
        let r = watch::presence_seen(&mut self.store, seen, now);
        proof {
            if store_wf(&s0) && s0.seen is Some {
                let sv = s0.seen.unwrap();
                unique::lemma_presence_fold_shape(s0.files@, sv@, s0.roots@, seen@, now);
                if r is Ok {
                    unique::lemma_same_shape(s0.files@, self.store.files@, s0.next_id, self.store.next_id);
                }
            }
        }
        r
    }

    fn presence_finish(&mut self, root_id: i64, scan_id: Ts) -> (r: Result<u64, RepoError>)
        ensures
            old(self).wf() ==> final(self).wf(),
            !(old(self).store.files@.len() < u64::MAX) ==> (r matches Err(RepoError::Other(m)) && m@ == too_many_message() && final(self).store == old(self).store),
            old(self).store.files@.len() < u64::MAX ==> (old(self).store.seen is None ==> (r matches Err(RepoError::Other(m)) && m@ == "presence_finish trước presence_begin"@) && final(self).store == old(self).store),
            old(self).store.files@.len() < u64::MAX ==> (old(self).store.seen matches Some(sv) ==> {
            &&& r matches Ok(n) && n as nat == count_finish(old(self).store.files@, root_id, sv@, scan_id)
            &&& final(self).store.seen is None
            &&& final(self).store.files@.len() == old(self).store.files@.len()
            &&& forall|i: int| 0 <= i < old(self).store.files@.len() ==> #[trigger] final(self).store.files@[i] == (if finish_applies(old(self).store.files@[i], root_id, sv@) {
                finish_row(old(self).store.files@[i], scan_id)
            } else {
                old(self).store.files@[i]
            })
        }),
            old(self).store.files@.len() < u64::MAX ==> (final(self).store.groups == old(self).store.groups),
            old(self).store.files@.len() < u64::MAX ==> (final(self).store.next_id == old(self).store.next_id),
            old(self).store.files@.len() < u64::MAX ==> (final(self).store.journal == old(self).store.journal),
            old(self).store.files@.len() < u64::MAX ==> (final(self).store.events == old(self).store.events),
            old(self).store.files@.len() < u64::MAX ==> (final(self).store.roots == old(self).store.roots),
            old(self).store.files@.len() < u64::MAX ==> (final(self).store.volumes == old(self).store.volumes),
            old(self).store.files@.len() < u64::MAX ==> (final(self).store.scan == old(self).store.scan),
            old(self).store.files@.len() < u64::MAX ==> (final(self).store.meta == old(self).store.meta),
            old(self).store.files@.len() < u64::MAX ==> (final(self).store.notes == old(self).store.notes),
            old(self).store.files@.len() < u64::MAX ==> (final(self).store.durable_writes == old(self).store.durable_writes),
    {
        if self.store.files.len() as u64 == u64::MAX {
            return Err(too_many());
        }
        watch::presence_finish(&mut self.store, root_id, scan_id)
    }

    fn presence_expire(&mut self, root_id: i64, cutoff: Ts, now: Ts) -> (r: Result<u64, RepoError>)
        ensures
            old(self).wf() ==> final(self).wf(),
            !(old(self).store.files@.len() < u64::MAX) ==> (r matches Err(RepoError::Other(m)) && m@ == too_many_message() && final(self).store == old(self).store),
            old(self).store.files@.len() < u64::MAX ==> {
            &&& r matches Ok(n) && n as nat == count_expire(old(self).store.files@, root_id, cutoff)
            &&& final(self).store.files@.len() == old(self).store.files@.len()
            &&& forall|i: int| 0 <= i < old(self).store.files@.len() ==> #[trigger] final(self).store.files@[i] == expire_row(old(self).store.files@[i], root_id, cutoff, now)
            &&& final(self).store.groups == old(self).store.groups
            &&& final(self).store.next_id == old(self).store.next_id
            &&& only_rows_changed(&old(self).store, &final(self).store)
        },
    {
        if self.store.files.len() as u64 == u64::MAX {
            return Err(too_many());
        }
        Ok(watch::presence_expire(&mut self.store, root_id, cutoff, now))
    }

    fn journal_begin(&mut self, j: &JournalRow) -> (r: Result<i64, RepoError>)
        ensures
            old(self).wf() ==> final(self).wf(),
            old(self).store.next_id < i64::MAX ==> {
            let nid = (old(self).store.next_id + 1) as i64;
            &&& r == Ok::<i64, RepoError>(nid)
            &&& final(self).store.journal@ == old(self).store.journal@.push(JournalRow { id: Some(nid), ..*j })
            &&& final(self).store.next_id == nid
            &&& only_journal_changed(&old(self).store, &final(self).store)
            &&& final(self).store.durable_writes == old(self).store.durable_writes
        },
            old(self).store.next_id == i64::MAX ==> (r matches Err(RepoError::Other(m)) && m@ == "hết id"@) && final(self).store == old(self).store,
    {
        misc::journal_begin(&mut self.store, j)
    }

    fn journal_update(&mut self, id: i64, st: JournalState, durable: bool, now: Ts) -> (r: Result<(), RepoError>)
        ensures
            old(self).wf() ==> final(self).wf(),
            ({
            let k = journal_index(old(self).store.journal@, id);
            if k < 0 {
                (r matches Err(RepoError::Constraint(m)) && m@ == "journal "@ + int_chars(id as int) + " không tồn tại"@)
                    && final(self).store == old(self).store
            } else {
                &&& r is Ok
                &&& final(self).store.journal@ == old(self).store.journal@.update(k, JournalRow { state: st, updated_at: now, ..old(self).store.journal@[k] })
                &&& final(self).store.durable_writes == (if durable && old(self).store.durable_writes < u64::MAX {
                    old(self).store.durable_writes + 1
                } else {
                    old(self).store.durable_writes as int
                })
                &&& final(self).store.next_id == old(self).store.next_id
                &&& only_journal_changed(&old(self).store, &final(self).store)
            }
        }),
    {
        misc::journal_update(&mut self.store, id, st, durable, now)
    }

    fn journal_open(&self) -> (r: Result<Vec<JournalRow>, RepoError>)
        ensures
            r matches Ok(v) && v@ == self.store.journal@.filter(open_pred()),
    {
        Ok(misc::journal_open(&self.store))
    }

    fn volume_upsert(&mut self, v: &Volume) -> (r: Result<i64, RepoError>)
        ensures
            old(self).wf() ==> final(self).wf(),
            ({
            let k = volume_index(old(self).store.volumes@, v.domain_id);
            if k >= 0 {
                let id = old(self).store.volumes@[k].id;
                &&& r == Ok::<i64, RepoError>(id)
                &&& final(self).store == (Store { volumes: final(self).store.volumes, ..old(self).store })
                &&& final(self).store.volumes@ == old(self).store.volumes@.update(k, Volume { id, ..*v })
            } else if old(self).store.next_id < i64::MAX {
                let nid = (old(self).store.next_id + 1) as i64;
                &&& r == Ok::<i64, RepoError>(nid)
                &&& final(self).store == (Store { volumes: final(self).store.volumes, next_id: nid, ..old(self).store })
                &&& final(self).store.volumes@ == old(self).store.volumes@.push(Volume { id: nid, ..*v })
            } else {
                (r matches Err(RepoError::Other(m)) && m@ == "hết id"@) && final(self).store == old(self).store
            }
        }),
    {
        misc::volume_upsert(&mut self.store, v)
    }

    fn volume_list(&self) -> (r: Result<Vec<Volume>, RepoError>)
        ensures
            r matches Ok(v) && v@ == self.store.volumes@,
    {
        Ok(lookup::copy_volumes(&self.store.volumes))
    }

    fn root_upsert(&mut self, r: &Root, now: Ts) -> (res: Result<i64, RepoError>)
        ensures
            old(self).wf() ==> final(self).wf(),
            ({
            let k = root_path_index(old(self).store.roots@, r.path@);
            if k >= 0 {
                let e = old(self).store.roots@[k];
                &&& res == Ok::<i64, RepoError>(e.id)
                &&& final(self).store == (Store { roots: final(self).store.roots, ..old(self).store })
                &&& final(self).store.roots@ == old(self).store.roots@.update(k, Root { id: e.id, added_at: e.added_at, ..*r })
            } else if r.id > 0 && self::root_index(old(self).store.roots@, r.id) < 0 {
                &&& res == Ok::<i64, RepoError>(r.id)
                &&& final(self).store == (Store {
                    roots: final(self).store.roots,
                    next_id: if old(self).store.next_id >= r.id { old(self).store.next_id } else { r.id },
                    ..old(self).store
                })
                &&& final(self).store.roots@ == old(self).store.roots@.insert(root_pos(old(self).store.roots@, r.id), Root { added_at: now, ..*r })
            } else if old(self).store.next_id < i64::MAX {
                let nid = (old(self).store.next_id + 1) as i64;
                &&& res == Ok::<i64, RepoError>(nid)
                &&& final(self).store == (Store { roots: final(self).store.roots, next_id: nid, ..old(self).store })
                &&& final(self).store.roots@ == old(self).store.roots@.insert(root_pos(old(self).store.roots@, nid), Root { id: nid, added_at: now, ..*r })
            } else {
                (res matches Err(RepoError::Other(m)) && m@ == "hết id"@) && final(self).store == old(self).store
            }
        }),
    {
        misc::root_upsert(&mut self.store, r, now)
    }

    fn root_list(&self) -> (r: Result<Vec<Root>, RepoError>)
        ensures
            r matches Ok(v) && v@ == self.store.roots@,
    {
        Ok(lookup::copy_roots(&self.store.roots))
    }

    fn scan_progress_get(&self, root_id: i64) -> (r: Result<Option<ScanProgress>, RepoError>)
        ensures
            r matches Ok(o) && ({
                let k = scan_index(self.store.scan@, root_id);
                if k >= 0 {
                    o == Some(self.store.scan@[k])
                } else {
                    o is None
                }
            }),
    {
        Ok(misc::scan_progress_get(&self.store, root_id))
    }

    fn scan_progress_set(&mut self, p: &ScanProgress) -> (r: Result<(), RepoError>)
        ensures
            old(self).wf() ==> final(self).wf(),
            final(self).store == (Store { scan: final(self).store.scan, ..old(self).store }),
            ({
            let k = scan_index(old(self).store.scan@, p.root_id);
            if k >= 0 {
                final(self).store.scan@ == old(self).store.scan@.update(k, *p)
            } else {
                final(self).store.scan@ == old(self).store.scan@.push(*p)
            }
        }),
            r == Ok::<(), RepoError>(()),
    {
        misc::scan_progress_set(&mut self.store, p);
        Ok(())
    }

    fn park_domain(&mut self, domain: &DomainId, err: &str, now: Ts) -> (r: Result<u64, RepoError>)
        ensures
            old(self).wf() ==> final(self).wf(),
            old(self).store.files@.len() < u64::MAX ==> r is Ok,
            !(old(self).store.files@.len() < u64::MAX) ==> (r matches Err(RepoError::Other(m)) && m@ == too_many_message() && final(self).store == old(self).store),
            old(self).store.files@.len() < u64::MAX ==> (r matches Ok(v) ==> (final(self).store == (Store { files: final(self).store.files, ..old(self).store }))),
            old(self).store.files@.len() < u64::MAX ==> (r matches Ok(v) ==> (final(self).store.files@.len() == old(self).store.files@.len())),
            old(self).store.files@.len() < u64::MAX ==> (r matches Ok(v) ==> (forall|i: int| 0 <= i < old(self).store.files@.len() ==> if parkable(old(self).store.files@[i], *domain) {
            is_parked_from(#[trigger] final(self).store.files@[i], old(self).store.files@[i], err@, now)
        } else {
            final(self).store.files@[i] == old(self).store.files@[i]
        })),
            old(self).store.files@.len() < u64::MAX ==> (r matches Ok(v) ==> (v == count_parkable(old(self).store.files@, *domain))),
    {
        if self.store.files.len() as u64 == u64::MAX {
            return Err(too_many());
        }
        Ok(misc::park_domain(&mut self.store, domain, err, now))
    }

    fn unpark_domain(&mut self, domain: &DomainId, now: Ts) -> (r: Result<u64, RepoError>)
        ensures
            old(self).wf() ==> final(self).wf(),
            old(self).store.files@.len() < u64::MAX ==> r is Ok,
            !(old(self).store.files@.len() < u64::MAX) ==> (r matches Err(RepoError::Other(m)) && m@ == too_many_message() && final(self).store == old(self).store),
            old(self).store.files@.len() < u64::MAX ==> (r matches Ok(v) ==> (final(self).store == (Store { files: final(self).store.files, ..old(self).store }))),
            old(self).store.files@.len() < u64::MAX ==> (r matches Ok(v) ==> (final(self).store.files@.len() == old(self).store.files@.len())),
            old(self).store.files@.len() < u64::MAX ==> (r matches Ok(v) ==> (forall|i: int| 0 <= i < old(self).store.files@.len() ==> #[trigger] final(self).store.files@[i] == if unparkable(old(self).store.files@[i], *domain) {
            FileRecord { ready_at: Some(now), updated_at: now, ..old(self).store.files@[i] }
        } else {
            old(self).store.files@[i]
        })),
            old(self).store.files@.len() < u64::MAX ==> (r matches Ok(v) ==> (v == count_unparkable(old(self).store.files@, *domain))),
    {
        if self.store.files.len() as u64 == u64::MAX {
            return Err(too_many());
        }
        Ok(misc::unpark_domain(&mut self.store, domain, now))
    }

    fn requeue_verified(&mut self, allow: &Vec<FileLoc>, now: Ts) -> (r: Result<u64, RepoError>)
        ensures
            old(self).wf() ==> final(self).wf(),
            old(self).store.files@.len() < u64::MAX ==> r is Ok,
            !(old(self).store.files@.len() < u64::MAX) ==> (r matches Err(RepoError::Other(m)) && m@ == too_many_message() && final(self).store == old(self).store),
            old(self).store.files@.len() < u64::MAX ==> (r matches Ok(v) ==> (final(self).store == (Store { files: final(self).store.files, ..old(self).store }))),
            old(self).store.files@.len() < u64::MAX ==> (r matches Ok(v) ==> (final(self).store.files@.len() == old(self).store.files@.len())),
            old(self).store.files@.len() < u64::MAX ==> (r matches Ok(v) ==> (forall|i: int| 0 <= i < old(self).store.files@.len() ==> #[trigger] final(self).store.files@[i] == if requeueable(old(self).store.files@[i], allow@) {
            FileRecord { state: State::Hashed, ready_at: Some(now), updated_at: now, ..old(self).store.files@[i] }
        } else {
            old(self).store.files@[i]
        })),
            old(self).store.files@.len() < u64::MAX ==> (r matches Ok(v) ==> (v == count_requeueable(old(self).store.files@, allow@))),
    {
        if self.store.files.len() as u64 == u64::MAX {
            return Err(too_many());
        }
        Ok(misc::requeue_verified(&mut self.store, allow, now))
    }

    fn meta_get(&self, k: &str) -> (r: Result<Option<String>, RepoError>)
        ensures
            r matches Ok(o) && ({
                let i = meta_index(self.store.meta@, k@);
                if i >= 0 {
                    o matches Some(v) && v@ == self.store.meta@[i].1@
                } else {
                    o is None
                }
            }),
    {
        Ok(misc::meta_get(&self.store, k))
    }

    fn meta_set(&mut self, k: &str, v: &str) -> (r: Result<(), RepoError>)
        ensures
            old(self).wf() ==> final(self).wf(),
            final(self).store == (Store { meta: final(self).store.meta, ..old(self).store }),
            ({
            let i = meta_index(old(self).store.meta@, k@);
            &&& final(self).store.meta@.len() == (if i >= 0 { old(self).store.meta@.len() } else { old(self).store.meta@.len() + 1 })
            &&& forall|j: int| 0 <= j < old(self).store.meta@.len() && j != i ==> #[trigger] final(self).store.meta@[j] == old(self).store.meta@[j]
            &&& final(self).store.meta@[if i >= 0 { i } else { old(self).store.meta@.len() as int }].0@ == k@
            &&& final(self).store.meta@[if i >= 0 { i } else { old(self).store.meta@.len() as int }].1@ == v@
        }),
            r == Ok::<(), RepoError>(()),
    {
        misc::meta_set(&mut self.store, k, v);
        Ok(())
    }

    fn group_note_set(&mut self, n: &GroupNote) -> (r: Result<(), RepoError>)
        ensures
            old(self).wf() ==> final(self).wf(),
            group_index(old(self).store.groups@, n.group_id) < 0 ==> (r matches Err(RepoError::Constraint(m)) && m@ == "group "@
            + int_chars(n.group_id as int) + " không tồn tại"@) && final(self).store == old(self).store,
            group_index(old(self).store.groups@, n.group_id) >= 0 ==> {
            let k = note_index(old(self).store.notes@, n.group_id);
            &&& r is Ok
            &&& final(self).store == (Store { notes: final(self).store.notes, ..old(self).store })
            &&& final(self).store.notes@ == (if k >= 0 { old(self).store.notes@.update(k, *n) } else { old(self).store.notes@.push(*n) })
        },
    {
        misc::group_note_set(&mut self.store, n)
    }

    fn group_note_get(&self, group: i64) -> (r: Result<Option<GroupNote>, RepoError>)
        ensures
            r matches Ok(o) && ({
                let k = note_index(self.store.notes@, group);
                if k >= 0 {
                    o == Some(self.store.notes@[k])
                } else {
                    o is None
                }
            }),
    {
        Ok(misc::group_note_get(&self.store, group))
    }

    fn record_event(&mut self, ev: &DedupEvent) -> (r: Result<(), RepoError>)
        ensures
            old(self).wf() ==> final(self).wf(),
            r is Ok,
            final(self).store.events@ == old(self).store.events@.push(*ev),
            final(self).store.files == old(self).store.files,
            final(self).store.groups == old(self).store.groups,
    {
        self.store.events.push(ev.clone());
        Ok(())
    }

    fn events(&self, f: &EventFilter) -> (r: Result<Vec<DedupEvent>, RepoError>)
        ensures
            r matches Ok(v) && v@ == events_spec(self.store.events@, *f),
    {
        Ok(misc::events(&self.store, f))
    }

    fn purge(&mut self, now: Ts, retention_ms: i64) -> (r: Result<u64, RepoError>)
        ensures
            old(self).wf() ==> final(self).wf(),
            old(self).store.files@.len() + old(self).store.events@.len() <= u64::MAX ==> r is Ok,
            !(old(self).store.files@.len() + old(self).store.events@.len() <= u64::MAX) ==> (r matches Err(RepoError::Other(m)) && m@ == too_many_message() && final(self).store == old(self).store),
            old(self).store.files@.len() + old(self).store.events@.len() <= u64::MAX ==> (r matches Ok(v) ==> (({
            let cutoff = sat_sub_i64(now, retention_ms);
            &&& final(self).store.files@ == old(self).store.files@.filter(kept_pred(cutoff))
            &&& final(self).store.events@ == old(self).store.events@.filter(recent_pred(cutoff))
            &&& final(self).store.groups@.len() == old(self).store.groups@.len()
            &&& forall|i: int| 0 <= i < old(self).store.groups@.len() ==> #[trigger] final(self).store.groups@[i] == if loses_canonical(old(self).store.groups@[i], old(self).store.files@, cutoff) {
                Group { canonical_file_id: None, ..old(self).store.groups@[i] }
            } else {
                old(self).store.groups@[i]
            }
            &&& v == (old(self).store.files@.len() - final(self).store.files@.len()) + (old(self).store.events@.len() - final(self).store.events@.len())
            &&& final(self).store == (Store { files: final(self).store.files, groups: final(self).store.groups, events: final(self).store.events, ..old(self).store })
        }))),
    {
        let nf = self.store.files.len() as u64;
        let ne = self.store.events.len() as u64;
        if nf > u64::MAX - ne {
            return Err(too_many());
        }
        let ghost s0 = self.store;
        let v = misc::purge(&mut self.store, now, retention_ms);
        proof {
            if store_wf(&s0) {
                unique::lemma_filter_wf(s0.files@, s0.next_id, kept_pred(sat_sub_i64(now, retention_ms)));
            }
        }
        Ok(v)
    }

    fn checkpoint(&mut self) -> (r: Result<(), RepoError>)
        ensures
            old(self).wf() ==> final(self).wf(),
            r is Ok,
            final(self).store == old(self).store,
    {
        Ok(())
    }
}

} // verus!
