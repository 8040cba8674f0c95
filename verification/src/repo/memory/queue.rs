//! The queue in memory: upsert, initial scan, ready rows and counts.

use vstd::prelude::*;

use crate::config::parse::int_chars;
use crate::model::{queued, DomainId, FileKey, FileLoc, FileRecord, Group, Identity, RootKind, State, Ts};
use crate::repo::rules::{
    apply_upsert, decide_upsert, fresh_row, is_ready, new_row, ready_spec, upsert_decision,
    upserted_row,
};
use crate::repo::{RepoError, ScanRow, UpsertResult};

use super::{find_group, group_index, index, lemma_group_index, root_kind_spec, Store};

verus! {

/// Index of the first row with key `key` at or after `i`, or -1.
pub open spec fn key_index_from(s: Seq<FileRecord>, key: FileKey, i: int) -> int
    decreases s.len() - i,
{
    if i < 0 || i >= s.len() {
        -1
    } else if s[i].key == key {
        i
    } else {
        key_index_from(s, key, i + 1)
    }
}

/// Index of the first row with key `key`, or -1.
pub open spec fn key_index(s: Seq<FileRecord>, key: FileKey) -> int {
    key_index_from(s, key, 0)
}

pub proof fn lemma_key_index_from(s: Seq<FileRecord>, key: FileKey, i: int)
    requires
        0 <= i <= s.len(),
    ensures
        key_index_from(s, key, i) == -1 || i <= key_index_from(s, key, i) < s.len(),
        key_index_from(s, key, i) >= 0 ==> s[key_index_from(s, key, i)].key == key,
        forall|k: int|
            i <= k < s.len() && (key_index_from(s, key, i) == -1 || k < key_index_from(s, key, i))
                ==> (#[trigger] s[k]).key != key,
    decreases s.len() - i,
{
    if i < s.len() {
        lemma_key_index_from(s, key, i + 1);
    }
}

pub proof fn lemma_key_index(s: Seq<FileRecord>, key: FileKey)
    ensures
        -1 <= key_index(s, key) < s.len(),
        key_index(s, key) >= 0 ==> s[key_index(s, key)].key == key,
        forall|k: int|
            0 <= k < s.len() && (key_index(s, key) == -1 || k < key_index(s, key)) ==> (
            #[trigger] s[k]).key != key,
{
    lemma_key_index_from(s, key, 0);
}

pub fn find_key(files: &Vec<FileRecord>, key: &FileKey) -> (r: Option<usize>)
    ensures
        match r {
            Some(i) => i < files@.len() && i as int == key_index(files@, *key) && key_index(files@, *key) >= 0,
            None => key_index(files@, *key) == -1,
        },
{
    proof {
        lemma_key_index(files@, *key);
    }
    let mut i: usize = 0;
    while i < files.len()
        invariant
            i <= files@.len(),
            key_index(files@, *key) == key_index_from(files@, *key, i as int),
        decreases files@.len() - i,
    {
        if files[i].key.same(key) {
            return Some(i);
        }
        i = i + 1;
    }
    None
}

/// When a row leaves its group and was that group's canonical, the group
/// loses its canonical so that the next verification elects another.
pub open spec fn drop_lost_canonical(groups: Seq<Group>, row_id: i64, was: Option<i64>, now_g: Option<i64>) -> Seq<Group> {
    match was {
        Some(g) => {
            let gi = group_index(groups, g);
            if was != now_g && gi >= 0 && groups[gi].canonical_file_id == Some(row_id) {
                groups.update(gi, Group { canonical_file_id: None, ..groups[gi] })
            } else {
                groups
            }
        },
        None => groups,
    }
}

pub(crate) fn drop_lost_canonical_exec(groups: &mut Vec<Group>, row_id: i64, was: Option<i64>, now_g: Option<i64>)
    ensures
        final(groups)@ == drop_lost_canonical(old(groups)@, row_id, was, now_g),
{
    match was {
        Some(g) => {
            if was != now_g {
                match find_group(groups, g) {
                    Some(gi) => {
                        if groups[gi].canonical_file_id == Some(row_id) {
                            let mut grp = groups[gi];
                            grp.canonical_file_id = None;
                            groups.set(gi, grp);
                        }
                    },
                    None => {},
                }
            }
        },
        None => {},
    }
}

/// The message of an unregistered root.
pub open spec fn unknown_root_message(root_id: i64) -> Seq<char> {
    "root "@ + int_chars(root_id as int) + " chưa đăng ký"@
}

/// The message when ids run out.
pub open spec fn ids_exhausted_message() -> Seq<char> {
    "hết id"@
}

/// The store is as before, apart from files, groups and the id counter.
pub open spec fn only_rows_changed(a: &Store, b: &Store) -> bool {
    &&& b.journal == a.journal
    &&& b.events == a.events
    &&& b.volumes == a.volumes
    &&& b.roots == a.roots
    &&& b.scan == a.scan
    &&& b.meta == a.meta
    &&& b.notes == a.notes
    &&& b.seen == a.seen
    &&& b.durable_writes == a.durable_writes
}

/// Queues a file seen by an event: the existing row with its key follows the
/// upsert rules (and its group loses it as canonical when it leaves), or a
/// new row is created. The root must be registered.
pub fn upsert_pending(s: &mut Store, id: &Identity, loc: &FileLoc, ready_at: Ts, priority: u8, now: Ts) -> (r: Result<UpsertResult, RepoError>)
    ensures
        match root_kind_spec(old(s).roots@, loc.root_id) {
            None => (r matches Err(RepoError::Constraint(m)) && m@ == unknown_root_message(loc.root_id)) && *final(s) == *old(s),
            Some(kind) => {
                let k = key_index(old(s).files@, id.key);
                if k >= 0 {
                    let row = old(s).files@[k];
                    let d = upsert_decision(row, *id, kind, ready_at, priority);
                    let nr = upserted_row(row, d, *id, Some(*loc), now);
                    &&& final(s).files@ == old(s).files@.update(k, nr)
                    &&& final(s).groups@ == drop_lost_canonical(old(s).groups@, row.id, row.group_id, nr.group_id)
                    &&& final(s).next_id == old(s).next_id
                    &&& r == Ok::<UpsertResult, RepoError>(UpsertResult { id: row.id, dropped_as_self_event: d.fp_same && !queued(nr.state) })
                } else if old(s).next_id < i64::MAX {
                    let nid = (old(s).next_id + 1) as i64;
                    &&& final(s).files@ == old(s).files@.push(fresh_row(nid, *id, *loc, ready_at, priority, now))
                    &&& final(s).groups == old(s).groups
                    &&& final(s).next_id == nid
                    &&& r == Ok::<UpsertResult, RepoError>(UpsertResult { id: nid, dropped_as_self_event: false })
                } else {
                    (r matches Err(RepoError::Other(m)) && m@ == ids_exhausted_message()) && *final(s) == *old(s)
                }
            },
        },
        only_rows_changed(old(s), final(s)),
{
    let kind = match s.root_kind(loc.root_id) {
        Ok(k) => k,
        Err(e) => {
            return Err(e);
        },
    };
    match find_key(&s.files, &id.key) {
        Some(k) => {
            let mut row = s.files[k].clone();
            let d = decide_upsert(&row, id, kind, ready_at, priority);
            let fp_same = d.fp_same;
            let was_group = row.group_id;
            apply_upsert(&mut row, d, id, Some(loc), now);
            let row_id = row.id;
            let now_group = row.group_id;
            let dropped = fp_same && !row.state.is_queued();
            s.files.set(k, row);
            drop_lost_canonical_exec(&mut s.groups, row_id, was_group, now_group);
            Ok(UpsertResult { id: row_id, dropped_as_self_event: dropped })
        },
        None => {
            if s.next_id == i64::MAX {
                return Err(RepoError::Other("hết id".to_owned()));
            }
            let nid = match s.alloc_id() {
                Some(n) => n,
                None => {
                    return Err(RepoError::Other("hết id".to_owned()));
                },
            };
            s.files.push(new_row(nid, id, loc, ready_at, priority, now));
            Ok(UpsertResult { id: nid, dropped_as_self_event: false })
        },
    }
}

/// The first row of a batch whose root is not registered, or the batch length.
pub open spec fn first_unknown_root(roots: Seq<crate::model::Root>, rows: Seq<ScanRow>, i: int) -> int
    decreases rows.len() - i,
{
    if i < 0 || i >= rows.len() {
        rows.len() as int
    } else if root_kind_spec(roots, rows[i].loc.root_id) is None {
        i
    } else {
        first_unknown_root(roots, rows, i + 1)
    }
}

/// The new row of a scan entry.
pub open spec fn scan_row(nid: i64, r: ScanRow, now: Ts) -> FileRecord {
    FileRecord { state: r.state, ready_at: r.ready_at, ..fresh_row(nid, r.id, r.loc, now, r.priority, now) }
}

/// Files and id counter after inserting the batch rows from `i` on: a row
/// whose key is already present, in the store or earlier in the batch, is
/// skipped; the others get consecutive ids. Ids run out: nothing more is inserted.
pub open spec fn scan_inserted(files: Seq<FileRecord>, next_id: i64, rows: Seq<ScanRow>, now: Ts) -> (Seq<FileRecord>, i64, nat)
    decreases rows.len(),
{
    if rows.len() == 0 {
        (files, next_id, 0)
    } else {
        let (f, n, c) = scan_inserted(files, next_id, rows.drop_last(), now);
        let r = rows.last();
        if key_index(f, r.id.key) >= 0 || n == i64::MAX {
            (f, n, c)
        } else {
            (f.push(scan_row((n + 1) as i64, r, now)), (n + 1) as i64, c + 1)
        }
    }
}

/// Inserts the batch of an initial scan as one transaction: when a row names
/// an unregistered root, the first such root is reported and nothing is
/// written; otherwise rows whose key is already known are skipped. Returns
/// how many rows were inserted.
pub fn scan_insert(s: &mut Store, rows: &Vec<ScanRow>, now: Ts) -> (r: Result<u64, RepoError>)
    ensures
        first_unknown_root(old(s).roots@, rows@, 0) < rows@.len() ==> (r matches Err(RepoError::Constraint(m)) && m@ == unknown_root_message(rows@[first_unknown_root(old(s).roots@, rows@, 0)].loc.root_id)) && *final(s) == *old(s),
        first_unknown_root(old(s).roots@, rows@, 0) >= rows@.len() ==> {
            let (f, n, c) = scan_inserted(old(s).files@, old(s).next_id, rows@, now);
            &&& final(s).files@ == f
            &&& final(s).next_id == n
            &&& r == Ok::<u64, RepoError>(c as u64)
            &&& final(s).groups == old(s).groups
        },
        only_rows_changed(old(s), final(s)),
{
    let mut i: usize = 0;
    while i < rows.len()
        invariant
            i <= rows@.len(),
            first_unknown_root(s.roots@, rows@, 0) == first_unknown_root(s.roots@, rows@, i as int),
        decreases rows@.len() - i,
    {
        match s.root_kind(rows[i].loc.root_id) {
            Ok(_) => {},
            Err(e) => {
                return Err(e);
            },
        }
        i = i + 1;
    }
    let ghost f0 = s.files@;
    let ghost n0 = s.next_id;
    let ghost s0 = *s;
    let mut n: u64 = 0;
    let mut k: usize = 0;
    let mut idx = index::build(&s.files);
    while k < rows.len()
        invariant
            k <= rows@.len(),
            (s.files@, s.next_id, n as nat) == scan_inserted(f0, n0, rows@.subrange(0, k as int), now),
            n <= k,
            s.groups == s0.groups,
            only_rows_changed(&s0, s),
            index::index_ok(idx@, s.files@),
        decreases rows@.len() - k,
    {
        let ghost pre = rows@.subrange(0, k + 1);
        assert(pre.drop_last() =~= rows@.subrange(0, k as int));
        let known = index::known(&s.files, &idx, &rows[k].id.key);
        if !known && s.next_id < i64::MAX {
            let nid = match s.alloc_id() {
                Some(x) => x,
                None => 0,
            };
            let mut row = new_row(nid, &rows[k].id, &rows[k].loc, now, rows[k].priority, now);
            row.state = rows[k].state;
            row.ready_at = rows[k].ready_at;
            let ghost f1 = s.files@;
            s.files.push(row);
            assert(s.files@.drop_last() =~= f1);
            let pos = s.files.len() - 1;
            index::push_row(&mut idx, &s.files, pos);
            n = n + 1;
        }
        k = k + 1;
    }
    assert(rows@.subrange(0, rows@.len() as int) =~= rows@);
    Ok(n)
}

/// A row that counts when looking for same-size peers: not missing nor gone.
pub open spec fn live(r: FileRecord) -> bool {
    r.state != State::Missing && r.state != State::Gone
}

/// Number of live rows with this domain and size.
pub open spec fn same_size_count(files: Seq<FileRecord>, d: DomainId, size: u64) -> nat
    decreases files.len(),
{
    if files.len() == 0 {
        0
    } else {
        same_size_count(files.drop_last(), d, size) + if live(files.last()) && files.last().domain_id
            == d && files.last().size == size {
            1nat
        } else {
            0nat
        }
    }
}

fn count_same_size(files: &Vec<FileRecord>, d: &DomainId, size: u64) -> (r: u64)
    ensures
        r as nat == same_size_count(files@, *d, size) || (r == u64::MAX && same_size_count(files@, *d, size) >= u64::MAX),
{
    let mut c: u64 = 0;
    let mut i: usize = 0;
    while i < files.len()
        invariant
            i <= files@.len(),
            c as nat == same_size_count(files@.subrange(0, i as int), *d, size) || (c == u64::MAX && same_size_count(files@.subrange(0, i as int), *d, size) >= u64::MAX),
        decreases files@.len() - i,
    {
        let ghost pre = files@.subrange(0, i + 1);
        assert(pre.drop_last() =~= files@.subrange(0, i as int));
        let r = &files[i];
        if r.state != State::Missing && r.state != State::Gone && r.domain_id.same(d) && r.size == size {
            if c < u64::MAX {
                c = c + 1;
            }
        }
        i = i + 1;
    }
    assert(files@.subrange(0, files@.len() as int) =~= files@);
    c
}

/// A row of phase B: a `sized` row of the root without a wake-up time is
/// woken when it has a same-size peer anywhere, and becomes `distinct`
/// otherwise.
pub open spec fn phase_b_row(r: FileRecord, files: Seq<FileRecord>, root_id: i64, now: Ts) -> FileRecord {
    if r.loc.root_id != root_id || r.state != State::Sized || r.ready_at is Some {
        r
    } else if same_size_count(files, r.domain_id, r.size) > 1 {
        FileRecord { ready_at: Some(now), updated_at: now, ..r }
    } else {
        FileRecord { state: State::Distinct, updated_at: now, ..r }
    }
}

pub open spec fn phase_b_woken(r: FileRecord, files: Seq<FileRecord>, root_id: i64) -> bool {
    r.loc.root_id == root_id && r.state == State::Sized && r.ready_at is None && same_size_count(files, r.domain_id, r.size) > 1
}

pub open spec fn phase_b_alone(r: FileRecord, files: Seq<FileRecord>, root_id: i64) -> bool {
    r.loc.root_id == root_id && r.state == State::Sized && r.ready_at is None && same_size_count(files, r.domain_id, r.size) <= 1
}

pub open spec fn count_where(files: Seq<FileRecord>, all: Seq<FileRecord>, root_id: i64, woken: bool) -> nat
    decreases files.len(),
{
    if files.len() == 0 {
        0
    } else {
        count_where(files.drop_last(), all, root_id, woken) + if (woken && phase_b_woken(files.last(), all, root_id)) || (!woken && phase_b_alone(files.last(), all, root_id)) {
            1nat
        } else {
            0nat
        }
    }
}

/// Phase B of the initial scan, with same-size peers counted over the whole
/// store (a copy may sit on another root of the same filesystem). Returns
/// (woken, made distinct).
pub fn scan_phase_b(s: &mut Store, root_id: i64, now: Ts) -> (r: (u64, u64))
    requires
        old(s).files@.len() < u64::MAX,
    ensures
        final(s).files@.len() == old(s).files@.len(),
        forall|i: int| 0 <= i < old(s).files@.len() ==> #[trigger] final(s).files@[i] == phase_b_row(old(s).files@[i], old(s).files@, root_id, now),
        r.0 as nat == count_where(old(s).files@, old(s).files@, root_id, true),
        r.1 as nat == count_where(old(s).files@, old(s).files@, root_id, false),
        final(s).groups == old(s).groups,
        final(s).next_id == old(s).next_id,
        only_rows_changed(old(s), final(s)),
{
    let ghost f0 = s.files@;
    let n = s.files.len();
    let mut need: Vec<bool> = Vec::new();
    let mut i: usize = 0;
    while i < n
        invariant
            i <= n,
            n == f0.len(),
            s.files@ == f0,
            need@.len() == i,
            forall|k: int| 0 <= k < i ==> need@[k] == (same_size_count(f0, f0[k].domain_id, f0[k].size) > 1),
        decreases n - i,
    {
        let c = count_same_size(&s.files, &s.files[i].domain_id, s.files[i].size);
        need.push(c > 1);
        i = i + 1;
    }
    let ghost s0 = *s;
    let mut woken: u64 = 0;
    let mut alone: u64 = 0;
    let mut j: usize = 0;
    while j < n
        invariant
            j <= n,
            n == f0.len(),
            need@.len() == n,
            forall|k: int| 0 <= k < n ==> need@[k] == (same_size_count(f0, f0[k].domain_id, f0[k].size) > 1),
            s.files@.len() == n,
            forall|k: int| 0 <= k < j ==> #[trigger] s.files@[k] == phase_b_row(f0[k], f0, root_id, now),
            forall|k: int| j <= k < n ==> #[trigger] s.files@[k] == f0[k],
            woken as nat == count_where(f0.subrange(0, j as int), f0, root_id, true),
            alone as nat == count_where(f0.subrange(0, j as int), f0, root_id, false),
            woken + alone <= j,
            n < u64::MAX,
            s.groups == s0.groups,
            s.next_id == s0.next_id,
            only_rows_changed(&s0, s),
        decreases n - j,
    {
        let ghost pre = f0.subrange(0, j + 1);
        assert(pre.drop_last() =~= f0.subrange(0, j as int));
        assert(pre.last() == f0[j as int]);
        if s.files[j].loc.root_id == root_id && s.files[j].state == State::Sized && s.files[j].ready_at.is_none() {
            let mut row = s.files[j].clone();
            if need[j] {
                row.ready_at = Some(now);
                woken = woken + 1;
            } else {
                row.state = State::Distinct;
                alone = alone + 1;
            }
            row.updated_at = now;
            s.files.set(j, row);
        }
        j = j + 1;
    }
    assert(f0.subrange(0, n as int) =~= f0);
    (woken, alone)
}

/// `a` comes before `b` in the queue: by priority, then wake-up time (none
/// first), then id.
pub open spec fn queue_before(a: FileRecord, b: FileRecord) -> bool {
    if a.priority != b.priority {
        a.priority < b.priority
    } else if a.ready_at != b.ready_at {
        match (a.ready_at, b.ready_at) {
            (None, _) => true,
            (_, None) => false,
            (Some(x), Some(y)) => x < y,
        }
    } else {
        a.id < b.id
    }
}

fn queue_before_exec(a: &FileRecord, b: &FileRecord) -> (r: bool)
    ensures
        r == queue_before(*a, *b),
{
    if a.priority != b.priority {
        a.priority < b.priority
    } else if a.ready_at != b.ready_at {
        match (a.ready_at, b.ready_at) {
            (None, _) => true,
            (_, None) => false,
            (Some(x), Some(y)) => x < y,
        }
    } else {
        a.id < b.id
    }
}

/// `r` is the next row to work on among `files`: a ready row that no ready
/// row comes before, and the first such; `None` when no row is ready.
pub open spec fn next_ready_ok(files: Seq<FileRecord>, now: Ts, allow_heavy: bool, max_wait_ms: i64, r: Option<FileRecord>) -> bool {
    match r {
        Some(x) => exists|i: int| 0 <= i < files.len() && files[i] == x && ready_spec(x, now, allow_heavy, max_wait_ms)
            && (forall|j: int| 0 <= j < files.len() && ready_spec(#[trigger] files[j], now, allow_heavy, max_wait_ms) ==> !queue_before(files[j], x))
            && (forall|j: int| 0 <= j < i && ready_spec(#[trigger] files[j], now, allow_heavy, max_wait_ms) ==> queue_before(x, files[j])),
        None => forall|j: int| 0 <= j < files.len() ==> !ready_spec(#[trigger] files[j], now, allow_heavy, max_wait_ms),
    }
}

/// The next row to work on: the first ready row that no other ready row
/// comes before.
pub fn next_ready(s: &Store, now: Ts, allow_heavy: bool, max_wait_ms: i64) -> (r: Option<FileRecord>)
    ensures
        next_ready_ok(s.files@, now, allow_heavy, max_wait_ms, r),
{
    let mut best: Option<usize> = None;
    let mut i: usize = 0;
    while i < s.files.len()
        invariant
            i <= s.files@.len(),
            match best {
                Some(b) => b < i && ready_spec(s.files@[b as int], now, allow_heavy, max_wait_ms)
                    && (forall|j: int| 0 <= j < i && ready_spec(#[trigger] s.files@[j], now, allow_heavy, max_wait_ms) ==> !queue_before(s.files@[j], s.files@[b as int]))
                    && (forall|j: int| 0 <= j < b && ready_spec(#[trigger] s.files@[j], now, allow_heavy, max_wait_ms) ==> queue_before(s.files@[b as int], s.files@[j])),
                None => forall|j: int| 0 <= j < i ==> !ready_spec(#[trigger] s.files@[j], now, allow_heavy, max_wait_ms),
            },
        decreases s.files@.len() - i,
    {
        if is_ready(&s.files[i], now, allow_heavy, max_wait_ms) {
            match best {
                None => {
                    best = Some(i);
                },
                Some(b) => {
                    if queue_before_exec(&s.files[i], &s.files[b]) {
                        proof {
                            lemma_queue_before_order(s.files@, b as int, i as int, now, allow_heavy, max_wait_ms);
                        }
                        best = Some(i);
                    } else {
                        proof {
                            lemma_queue_before_total(s.files@[b as int], s.files@[i as int]);
                        }
                    }
                },
            }
        }
        i = i + 1;
    }
    match best {
        Some(b) => Some(s.files[b].clone()),
        None => None,
    }
}

proof fn lemma_queue_before_total(a: FileRecord, b: FileRecord)
    ensures
        !queue_before(a, b) ==> (a.priority == b.priority && a.ready_at == b.ready_at && a.id == b.id) || queue_before(b, a),
        queue_before(a, b) ==> !queue_before(b, a),
{
}

proof fn lemma_queue_before_trans(a: FileRecord, b: FileRecord, c: FileRecord)
    requires
        queue_before(a, b),
        queue_before(b, c),
    ensures
        queue_before(a, c),
{
}

proof fn lemma_queue_before_order(files: Seq<FileRecord>, b: int, i: int, now: Ts, allow_heavy: bool, max_wait_ms: i64)
    requires
        0 <= b < i < files.len(),
        queue_before(files[i], files[b]),
        forall|j: int| 0 <= j < i && ready_spec(#[trigger] files[j], now, allow_heavy, max_wait_ms) ==> !queue_before(files[j], files[b]),
        forall|j: int| 0 <= j < b && ready_spec(#[trigger] files[j], now, allow_heavy, max_wait_ms) ==> queue_before(files[b], files[j]),
    ensures
        forall|j: int| 0 <= j < i && ready_spec(#[trigger] files[j], now, allow_heavy, max_wait_ms) ==> queue_before(files[i], files[j]),
        forall|j: int| 0 <= j <= i && ready_spec(#[trigger] files[j], now, allow_heavy, max_wait_ms) ==> !queue_before(files[j], files[i]),
{
    assert forall|j: int| 0 <= j < i && ready_spec(#[trigger] files[j], now, allow_heavy, max_wait_ms) implies queue_before(files[i], files[j]) by {
        lemma_queue_before_total(files[j], files[b]);
        if queue_before(files[b], files[j]) {
            lemma_queue_before_trans(files[i], files[b], files[j]);
        }
    }
    assert forall|j: int| 0 <= j <= i && ready_spec(#[trigger] files[j], now, allow_heavy, max_wait_ms) implies !queue_before(files[j], files[i]) by {
        if j < i {
            lemma_queue_before_total(files[i], files[j]);
        }
    }
}

/// A settling row of the lowest priority waiting for its turn.
pub open spec fn pending_counted(r: FileRecord) -> bool {
    r.priority == 0 && r.state == State::Settling && r.ready_at is Some
}

/// One more row for `uid` in a per-uid count kept in increasing uid order.
pub open spec fn bump_uid(v: Seq<(u32, u64)>, uid: u32) -> Seq<(u32, u64)>
    decreases v.len(),
{
    if v.len() == 0 {
        seq![(uid, 1u64)]
    } else if v[0].0 == uid {
        v.update(0, (uid, (v[0].1 + 1) as u64))
    } else if v[0].0 > uid {
        seq![(uid, 1u64)] + v
    } else {
        seq![v[0]] + bump_uid(v.subrange(1, v.len() as int), uid)
    }
}

/// `(total, per uid)` of the pending rows among `files`.
pub open spec fn pending_fold(files: Seq<FileRecord>) -> (nat, Seq<(u32, u64)>)
    decreases files.len(),
{
    if files.len() == 0 {
        (0, seq![])
    } else {
        let (t, v) = pending_fold(files.drop_last());
        if pending_counted(files.last()) {
            (t + 1, bump_uid(v, files.last().owner_uid))
        } else {
            (t, v)
        }
    }
}

pub open spec fn counts_at_most(v: Seq<(u32, u64)>, n: int) -> bool {
    forall|k: int| 0 <= k < v.len() ==> #[trigger] v[k].1 <= n
}

proof fn lemma_bump_bound(v: Seq<(u32, u64)>, uid: u32, n: int)
    requires
        counts_at_most(v, n),
        0 <= n,
        n + 1 <= u64::MAX,
    ensures
        counts_at_most(bump_uid(v, uid), n + 1),
    decreases v.len(),
{
    if v.len() > 0 && v[0].0 < uid {
        let t = v.subrange(1, v.len() as int);
        assert(counts_at_most(t, n)) by {
            assert forall|k: int| 0 <= k < t.len() implies #[trigger] t[k].1 <= n by {
                assert(t[k] == v[k + 1]);
            }
        }
        lemma_bump_bound(t, uid, n);
        let b = bump_uid(v, uid);
        assert forall|k: int| 0 <= k < b.len() implies #[trigger] b[k].1 <= n + 1 by {
            if k > 0 {
                assert(b[k] == bump_uid(t, uid)[k - 1]);
            }
        }
    } else if v.len() > 0 && v[0].0 > uid {
        let b = bump_uid(v, uid);
        assert forall|k: int| 0 <= k < b.len() implies #[trigger] b[k].1 <= n + 1 by {
            if k > 0 {
                assert(b[k] == v[k - 1]);
            }
        }
    }
}

fn bump_uid_exec(v: &mut Vec<(u32, u64)>, uid: u32)
    requires
        forall|k: int| 0 <= k < old(v)@.len() ==> #[trigger] old(v)@[k].1 < u64::MAX,
    ensures
        final(v)@ == bump_uid(old(v)@, uid),
{
    let ghost v0 = v@;
    let mut i: usize = 0;
    assert(v0.subrange(0, 0) + v0.subrange(0, v0.len() as int) =~= v0);
    while i < v.len() && v[i].0 < uid
        invariant
            v@ == v0,
            i <= v0.len(),
            bump_uid(v0, uid) == v0.subrange(0, i as int) + bump_uid(v0.subrange(i as int, v0.len() as int), uid),
        decreases v0.len() - i,
    {
        proof {
            let t = v0.subrange(i as int, v0.len() as int);
            assert(t[0] == v0[i as int]);
            assert(t.subrange(1, t.len() as int) =~= v0.subrange(i + 1, v0.len() as int));
            assert(v0.subrange(0, i as int) + (seq![v0[i as int]] + bump_uid(v0.subrange(i + 1, v0.len() as int), uid))
                =~= v0.subrange(0, i + 1) + bump_uid(v0.subrange(i + 1, v0.len() as int), uid));
        }
        i = i + 1;
    }
    let ghost t = v0.subrange(i as int, v0.len() as int);
    if i < v.len() && v[i].0 == uid {
        let c = v[i].1;
        proof {
            assert(t[0] == v0[i as int]);
            assert(v0.subrange(0, i as int) + t.update(0, (uid, (c + 1) as u64)) =~= v0.update(i as int, (uid, (c + 1) as u64)));
        }
        v.set(i, (uid, c + 1));
    } else {
        proof {
            if i < v0.len() {
                assert(t[0] == v0[i as int]);
            } else {
                assert(t.len() == 0);
            }
            assert(v0.subrange(0, i as int) + (seq![(uid, 1u64)] + t) =~= v0.insert(i as int, (uid, 1u64)));
        }
        v.insert(i, (uid, 1));
    }
}

/// `(total, per uid in increasing order)` of the settling rows of the lowest
/// priority that wait for their turn.
pub fn pending_counts(s: &Store) -> (r: (u64, Vec<(u32, u64)>))
    requires
        s.files@.len() < u64::MAX,
    ensures
        r.0 == pending_fold(s.files@).0,
        r.1@ == pending_fold(s.files@).1,
{
    let mut total: u64 = 0;
    let mut per: Vec<(u32, u64)> = Vec::new();
    let mut i: usize = 0;
    while i < s.files.len()
        invariant
            i <= s.files@.len(),
            s.files@.len() < u64::MAX,
            total <= i,
            counts_at_most(per@, i as int),
            (total as nat, per@) == pending_fold(s.files@.subrange(0, i as int)),
        decreases s.files@.len() - i,
    {
        proof {
            let nxt = s.files@.subrange(0, i + 1);
            assert(nxt.drop_last() =~= s.files@.subrange(0, i as int));
            assert(nxt.last() == s.files@[i as int]);
        }
        let r = &s.files[i];
        if r.priority == 0 && r.state == State::Settling && r.ready_at.is_some() {
            proof {
                lemma_bump_bound(per@, r.owner_uid, i as int);
            }
            bump_uid_exec(&mut per, r.owner_uid);
            total = total + 1;
        } else {
            assert(counts_at_most(per@, i + 1));
        }
        i = i + 1;
    }
    assert(s.files@.subrange(0, s.files@.len() as int) =~= s.files@);
    (total, per)
}

} // verus!
