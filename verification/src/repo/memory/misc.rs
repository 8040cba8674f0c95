//! Journal, volumes, roots, scan progress, meta, notes and the ledger.

use vstd::prelude::*;

use crate::config::parse::int_chars;
use crate::model::{DomainId, FileLoc, FileRecord, Group, JournalState, Root, ScanProgress, State, Ts, Volume};
use crate::path::{path_starts_with, starts_with_path};
use crate::repo::types::{DedupEvent, EventFilter, GroupNote, JournalRow};
use crate::repo::RepoError;
use crate::text::str_eq;

use super::watch::sat_sub_i64;
use super::{find_group, find_journal, group_index, journal_index, lemma_group_index, lemma_journal_index, message_with_number, Store};

verus! {

/// Everything but the journal and the id counter is as before.
pub open spec fn only_journal_changed(a: &Store, b: &Store) -> bool {
    *b == (Store { journal: b.journal, next_id: b.next_id, durable_writes: b.durable_writes, ..*a })
}

/// Opens a journal row with a fresh id.
pub fn journal_begin(s: &mut Store, j: &JournalRow) -> (r: Result<i64, RepoError>)
    ensures
        old(s).next_id < i64::MAX ==> {
            let nid = (old(s).next_id + 1) as i64;
            &&& r == Ok::<i64, RepoError>(nid)
            &&& final(s).journal@ == old(s).journal@.push(JournalRow { id: Some(nid), ..*j })
            &&& final(s).next_id == nid
            &&& only_journal_changed(old(s), final(s))
            &&& final(s).durable_writes == old(s).durable_writes
        },
        old(s).next_id == i64::MAX ==> (r matches Err(RepoError::Other(m)) && m@ == "hết id"@) && *final(s) == *old(s),
{
    let nid = match s.alloc_id() {
        Some(n) => n,
        None => {
            return Err(RepoError::Other("hết id".to_owned()));
        },
    };
    let mut row = j.clone();
    row.id = Some(nid);
    s.journal.push(row);
    Ok(nid)
}

/// Sets the state of a journal row; `durable` counts a durable write
/// (saturating).
pub fn journal_update(s: &mut Store, id: i64, st: JournalState, durable: bool, now: Ts) -> (r: Result<(), RepoError>)
    ensures
        ({
            let k = journal_index(old(s).journal@, id);
            if k < 0 {
                (r matches Err(RepoError::Constraint(m)) && m@ == "journal "@ + int_chars(id as int) + " không tồn tại"@)
                    && *final(s) == *old(s)
            } else {
                &&& r is Ok
                &&& final(s).journal@ == old(s).journal@.update(k, JournalRow { state: st, updated_at: now, ..old(s).journal@[k] })
                &&& final(s).durable_writes == (if durable && old(s).durable_writes < u64::MAX {
                    old(s).durable_writes + 1
                } else {
                    old(s).durable_writes as int
                })
                &&& final(s).next_id == old(s).next_id
                &&& only_journal_changed(old(s), final(s))
            }
        }),
{
    proof {
        lemma_journal_index(s.journal@, id);
    }
    match find_journal(&s.journal, id) {
        None => Err(RepoError::Constraint(message_with_number("journal ", id, " không tồn tại"))),
        Some(k) => {
            let mut row = s.journal[k].clone();
            row.state = st;
            row.updated_at = now;
            s.journal.set(k, row);
            if durable {
                s.durable_writes = s.durable_writes.saturating_add(1);
            }
            Ok(())
        },
    }
}

pub open spec fn journal_is_open(j: JournalRow) -> bool {
    !(j.state == JournalState::Done || j.state == JournalState::Aborted)
}

pub open spec fn open_pred() -> spec_fn(JournalRow) -> bool {
    |j: JournalRow| journal_is_open(j)
}

/// Journal rows not yet closed, for the boot-time recovery.
pub fn journal_open(s: &Store) -> (r: Vec<JournalRow>)
    ensures
        r@ == s.journal@.filter(open_pred()),
{
    let mut out: Vec<JournalRow> = Vec::new();
    let mut i: usize = 0;
    while i < s.journal.len()
        invariant
            i <= s.journal@.len(),
            out@ == s.journal@.subrange(0, i as int).filter(open_pred()),
        decreases s.journal@.len() - i,
    {
        proof {
            let pre = s.journal@.subrange(0, i as int);
            pre.lemma_filter_push(s.journal@[i as int], open_pred());
            assert(s.journal@.subrange(0, i + 1) =~= pre.push(s.journal@[i as int]));
        }
        if !s.journal[i].state.is_closed() {
            out.push(s.journal[i].clone());
        }
        i = i + 1;
    }
    assert(s.journal@.subrange(0, s.journal@.len() as int) =~= s.journal@);
    out
}

/// Index of the first volume of domain `d`, or -1.
pub open spec fn volume_index(vs: Seq<Volume>, d: crate::model::DomainId) -> int
    decreases vs.len(),
{
    if vs.len() == 0 {
        -1
    } else if volume_index(vs.drop_last(), d) >= 0 {
        volume_index(vs.drop_last(), d)
    } else if vs.last().domain_id == d {
        vs.len() - 1
    } else {
        -1
    }
}

proof fn lemma_volume_index(vs: Seq<Volume>, d: crate::model::DomainId)
    ensures
        -1 <= volume_index(vs, d) < vs.len(),
    decreases vs.len(),
{
    if vs.len() > 0 {
        lemma_volume_index(vs.drop_last(), d);
    }
}

fn find_volume(vs: &Vec<Volume>, d: &crate::model::DomainId) -> (r: Option<usize>)
    ensures
        match r {
            Some(i) => i == volume_index(vs@, *d),
            None => volume_index(vs@, *d) == -1,
        },
{
    let mut i: usize = 0;
    while i < vs.len()
        invariant
            i <= vs@.len(),
            volume_index(vs@.subrange(0, i as int), *d) == -1,
        decreases vs@.len() - i,
    {
        let ghost nxt = vs@.subrange(0, i + 1);
        assert(nxt.drop_last() =~= vs@.subrange(0, i as int));
        if vs[i].domain_id.same(d) {
            proof {
                lemma_volume_index_prefix(vs@, *d, i + 1);
            }
            return Some(i);
        }
        i = i + 1;
    }
    assert(vs@.subrange(0, vs@.len() as int) =~= vs@);
    None
}

proof fn lemma_volume_index_prefix(vs: Seq<Volume>, d: crate::model::DomainId, n: int)
    requires
        0 <= n <= vs.len(),
        volume_index(vs.subrange(0, n), d) >= 0,
    ensures
        volume_index(vs, d) == volume_index(vs.subrange(0, n), d),
    decreases vs.len() - n,
{
    if n < vs.len() {
        assert(vs.subrange(0, n + 1).drop_last() =~= vs.subrange(0, n));
        lemma_volume_index_prefix(vs, d, n + 1);
    } else {
        assert(vs.subrange(0, n) =~= vs);
    }
}

/// Adds a volume, or updates the one of the same domain (keeping its id).
pub fn volume_upsert(s: &mut Store, v: &Volume) -> (r: Result<i64, RepoError>)
    ensures
        ({
            let k = volume_index(old(s).volumes@, v.domain_id);
            if k >= 0 {
                let id = old(s).volumes@[k].id;
                &&& r == Ok::<i64, RepoError>(id)
                &&& *final(s) == (Store { volumes: final(s).volumes, ..*old(s) })
                &&& final(s).volumes@ == old(s).volumes@.update(k, Volume { id, ..*v })
            } else if old(s).next_id < i64::MAX {
                let nid = (old(s).next_id + 1) as i64;
                &&& r == Ok::<i64, RepoError>(nid)
                &&& *final(s) == (Store { volumes: final(s).volumes, next_id: nid, ..*old(s) })
                &&& final(s).volumes@ == old(s).volumes@.push(Volume { id: nid, ..*v })
            } else {
                (r matches Err(RepoError::Other(m)) && m@ == "hết id"@) && *final(s) == *old(s)
            }
        }),
{
    proof {
        lemma_volume_index(s.volumes@, v.domain_id);
    }
    match find_volume(&s.volumes, &v.domain_id) {
        Some(k) => {
            let id = s.volumes[k].id;
            let mut nv = v.clone();
            nv.id = id;
            s.volumes.set(k, nv);
            Ok(id)
        },
        None => {
            let nid = match s.alloc_id() {
                Some(n) => n,
                None => {
                    return Err(RepoError::Other("hết id".to_owned()));
                },
            };
            let mut nv = v.clone();
            nv.id = nid;
            s.volumes.push(nv);
            Ok(nid)
        },
    }
}

/// Index of the root with `path`, or -1.
pub open spec fn root_path_index(rs: Seq<Root>, path: Seq<char>) -> int
    decreases rs.len(),
{
    if rs.len() == 0 {
        -1
    } else if root_path_index(rs.drop_last(), path) >= 0 {
        root_path_index(rs.drop_last(), path)
    } else if rs.last().path@ == path {
        rs.len() - 1
    } else {
        -1
    }
}

proof fn lemma_root_path_index(rs: Seq<Root>, path: Seq<char>)
    ensures
        -1 <= root_path_index(rs, path) < rs.len(),
    decreases rs.len(),
{
    if rs.len() > 0 {
        lemma_root_path_index(rs.drop_last(), path);
    }
}

proof fn lemma_root_path_index_prefix(rs: Seq<Root>, path: Seq<char>, n: int)
    requires
        0 <= n <= rs.len(),
        root_path_index(rs.subrange(0, n), path) >= 0,
    ensures
        root_path_index(rs, path) == root_path_index(rs.subrange(0, n), path),
    decreases rs.len() - n,
{
    if n < rs.len() {
        assert(rs.subrange(0, n + 1).drop_last() =~= rs.subrange(0, n));
        lemma_root_path_index_prefix(rs, path, n + 1);
    } else {
        assert(rs.subrange(0, n) =~= rs);
    }
}

fn find_root_path(rs: &Vec<Root>, path: &str) -> (r: Option<usize>)
    ensures
        match r {
            Some(i) => i == root_path_index(rs@, path@),
            None => root_path_index(rs@, path@) == -1,
        },
{
    let mut i: usize = 0;
    while i < rs.len()
        invariant
            i <= rs@.len(),
            root_path_index(rs@.subrange(0, i as int), path@) == -1,
        decreases rs@.len() - i,
    {
        let ghost nxt = rs@.subrange(0, i + 1);
        assert(nxt.drop_last() =~= rs@.subrange(0, i as int));
        if str_eq(rs[i].path.as_str(), path) {
            proof {
                lemma_root_path_index_prefix(rs@, path@, i + 1);
            }
            return Some(i);
        }
        i = i + 1;
    }
    assert(rs@.subrange(0, rs@.len() as int) =~= rs@);
    None
}

/// Where a root with id `id` goes to keep the list in id order: before the
/// first root with a larger id.
pub open spec fn root_pos(rs: Seq<Root>, id: i64) -> int
    decreases rs.len(),
{
    if rs.len() == 0 {
        0
    } else if rs[0].id > id {
        0
    } else {
        1 + root_pos(rs.subrange(1, rs.len() as int), id)
    }
}

proof fn lemma_root_pos(rs: Seq<Root>, id: i64)
    ensures
        0 <= root_pos(rs, id) <= rs.len(),
    decreases rs.len(),
{
    if rs.len() > 0 && rs[0].id <= id {
        lemma_root_pos(rs.subrange(1, rs.len() as int), id);
    }
}

fn root_pos_exec(rs: &Vec<Root>, id: i64) -> (r: usize)
    ensures
        r == root_pos(rs@, id),
{
    let mut i: usize = 0;
    assert(rs@.subrange(0, rs@.len() as int) =~= rs@);
    while i < rs.len() && rs[i].id <= id
        invariant
            i <= rs@.len(),
            root_pos(rs@, id) == i + root_pos(rs@.subrange(i as int, rs@.len() as int), id),
        decreases rs@.len() - i,
    {
        proof {
            let t = rs@.subrange(i as int, rs@.len() as int);
            assert(t.subrange(1, t.len() as int) =~= rs@.subrange(i + 1, rs@.len() as int));
        }
        i = i + 1;
    }
    i
}

/// Adds a root, or updates the one with the same path (keeping its id and
/// `added_at`). A new root keeps an explicit positive id that is free (and
/// the id counter moves past it); otherwise it gets a fresh id.
pub fn root_upsert(s: &mut Store, r: &Root, now: Ts) -> (res: Result<i64, RepoError>)
    ensures
        ({
            let k = root_path_index(old(s).roots@, r.path@);
            if k >= 0 {
                let e = old(s).roots@[k];
                &&& res == Ok::<i64, RepoError>(e.id)
                &&& *final(s) == (Store { roots: final(s).roots, ..*old(s) })
                &&& final(s).roots@ == old(s).roots@.update(k, Root { id: e.id, added_at: e.added_at, ..*r })
            } else if r.id > 0 && super::root_index(old(s).roots@, r.id) < 0 {
                &&& res == Ok::<i64, RepoError>(r.id)
                &&& *final(s) == (Store {
                    roots: final(s).roots,
                    next_id: if old(s).next_id >= r.id { old(s).next_id } else { r.id },
                    ..*old(s)
                })
                &&& final(s).roots@ == old(s).roots@.insert(root_pos(old(s).roots@, r.id), Root { added_at: now, ..*r })
            } else if old(s).next_id < i64::MAX {
                let nid = (old(s).next_id + 1) as i64;
                &&& res == Ok::<i64, RepoError>(nid)
                &&& *final(s) == (Store { roots: final(s).roots, next_id: nid, ..*old(s) })
                &&& final(s).roots@ == old(s).roots@.insert(root_pos(old(s).roots@, nid), Root { id: nid, added_at: now, ..*r })
            } else {
                (res matches Err(RepoError::Other(m)) && m@ == "hết id"@) && *final(s) == *old(s)
            }
        }),
{
    proof {
        lemma_root_path_index(s.roots@, r.path@);
        super::lemma_root_index(s.roots@, r.id);
    }
    match find_root_path(&s.roots, r.path.as_str()) {
        Some(k) => {
            let id = s.roots[k].id;
            let added_at = s.roots[k].added_at;
            let mut nr = r.clone();
            nr.id = id;
            nr.added_at = added_at;
            s.roots.set(k, nr);
            Ok(id)
        },
        None => {
            let free = r.id > 0 && super::find_root(&s.roots, r.id).is_none();
            let id = if free {
                if s.next_id < r.id {
                    s.next_id = r.id;
                }
                r.id
            } else {
                match s.alloc_id() {
                    Some(n) => n,
                    None => {
                        return Err(RepoError::Other("hết id".to_owned()));
                    },
                }
            };
            let mut nr = r.clone();
            nr.id = id;
            nr.added_at = now;
            let p = root_pos_exec(&s.roots, id);
            proof {
                lemma_root_pos(s.roots@, id);
            }
            s.roots.insert(p, nr);
            Ok(id)
        },
    }
}

/// Index of the progress row of `root_id`, or -1.
pub open spec fn scan_index(ps: Seq<ScanProgress>, root_id: i64) -> int
    decreases ps.len(),
{
    if ps.len() == 0 {
        -1
    } else if scan_index(ps.drop_last(), root_id) >= 0 {
        scan_index(ps.drop_last(), root_id)
    } else if ps.last().root_id == root_id {
        ps.len() - 1
    } else {
        -1
    }
}

proof fn lemma_scan_index(ps: Seq<ScanProgress>, root_id: i64)
    ensures
        -1 <= scan_index(ps, root_id) < ps.len(),
    decreases ps.len(),
{
    if ps.len() > 0 {
        lemma_scan_index(ps.drop_last(), root_id);
    }
}

proof fn lemma_scan_index_prefix(ps: Seq<ScanProgress>, root_id: i64, n: int)
    requires
        0 <= n <= ps.len(),
        scan_index(ps.subrange(0, n), root_id) >= 0,
    ensures
        scan_index(ps, root_id) == scan_index(ps.subrange(0, n), root_id),
    decreases ps.len() - n,
{
    if n < ps.len() {
        assert(ps.subrange(0, n + 1).drop_last() =~= ps.subrange(0, n));
        lemma_scan_index_prefix(ps, root_id, n + 1);
    } else {
        assert(ps.subrange(0, n) =~= ps);
    }
}

fn find_scan(ps: &Vec<ScanProgress>, root_id: i64) -> (r: Option<usize>)
    ensures
        match r {
            Some(i) => i == scan_index(ps@, root_id),
            None => scan_index(ps@, root_id) == -1,
        },
{
    let mut i: usize = 0;
    while i < ps.len()
        invariant
            i <= ps@.len(),
            scan_index(ps@.subrange(0, i as int), root_id) == -1,
        decreases ps@.len() - i,
    {
        let ghost nxt = ps@.subrange(0, i + 1);
        assert(nxt.drop_last() =~= ps@.subrange(0, i as int));
        if ps[i].root_id == root_id {
            proof {
                lemma_scan_index_prefix(ps@, root_id, i + 1);
            }
            return Some(i);
        }
        i = i + 1;
    }
    assert(ps@.subrange(0, ps@.len() as int) =~= ps@);
    None
}

/// The scan progress of a root.
pub fn scan_progress_get(s: &Store, root_id: i64) -> (r: Option<ScanProgress>)
    ensures
        ({
            let k = scan_index(s.scan@, root_id);
            if k >= 0 {
                r == Some(s.scan@[k])
            } else {
                r is None
            }
        }),
{
    proof {
        lemma_scan_index(s.scan@, root_id);
    }
    match find_scan(&s.scan, root_id) {
        Some(k) => Some(s.scan[k].clone()),
        None => None,
    }
}

/// Stores the scan progress of a root, replacing the previous one.
pub fn scan_progress_set(s: &mut Store, p: &ScanProgress)
    ensures
        *final(s) == (Store { scan: final(s).scan, ..*old(s) }),
        ({
            let k = scan_index(old(s).scan@, p.root_id);
            if k >= 0 {
                final(s).scan@ == old(s).scan@.update(k, *p)
            } else {
                final(s).scan@ == old(s).scan@.push(*p)
            }
        }),
{
    proof {
        lemma_scan_index(s.scan@, p.root_id);
    }
    match find_scan(&s.scan, p.root_id) {
        Some(k) => {
            s.scan.set(k, p.clone());
        },
        None => {
            s.scan.push(p.clone());
        },
    }
}

/// Index of the meta entry with key `k`, or -1.
pub open spec fn meta_index(m: Seq<(String, String)>, k: Seq<char>) -> int
    decreases m.len(),
{
    if m.len() == 0 {
        -1
    } else if meta_index(m.drop_last(), k) >= 0 {
        meta_index(m.drop_last(), k)
    } else if m.last().0@ == k {
        m.len() - 1
    } else {
        -1
    }
}

proof fn lemma_meta_index(m: Seq<(String, String)>, k: Seq<char>)
    ensures
        -1 <= meta_index(m, k) < m.len(),
    decreases m.len(),
{
    if m.len() > 0 {
        lemma_meta_index(m.drop_last(), k);
    }
}

proof fn lemma_meta_index_prefix(m: Seq<(String, String)>, k: Seq<char>, n: int)
    requires
        0 <= n <= m.len(),
        meta_index(m.subrange(0, n), k) >= 0,
    ensures
        meta_index(m, k) == meta_index(m.subrange(0, n), k),
    decreases m.len() - n,
{
    if n < m.len() {
        assert(m.subrange(0, n + 1).drop_last() =~= m.subrange(0, n));
        lemma_meta_index_prefix(m, k, n + 1);
    } else {
        assert(m.subrange(0, n) =~= m);
    }
}

/// `meta_index` is the first entry holding the key, or -1 when none does.
proof fn lemma_meta_index_first(m: Seq<(String, String)>, k: Seq<char>)
    ensures
        meta_index(m, k) >= 0 ==> m[meta_index(m, k)].0@ == k && forall|j: int|
            0 <= j < meta_index(m, k) ==> (#[trigger] m[j]).0@ != k,
        meta_index(m, k) == -1 ==> forall|j: int| 0 <= j < m.len() ==> (#[trigger] m[j]).0@ != k,
    decreases m.len(),
{
    lemma_meta_index(m, k);
    if m.len() > 0 {
        let p = m.drop_last();
        lemma_meta_index(p, k);
        lemma_meta_index_first(p, k);
        assert forall|j: int| 0 <= j < p.len() implies p[j] == m[j] by {}
        assert(m.last() == m[m.len() - 1]);
        if meta_index(p, k) >= 0 {
            let q = meta_index(p, k);
            assert(meta_index(m, k) == q);
            assert(p[q] == m[q]);
            assert forall|j: int| 0 <= j < q implies (#[trigger] m[j]).0@ != k by {
                assert(p[j] == m[j]);
            }
        } else if m.last().0@ == k {
            assert(meta_index(m, k) == m.len() - 1);
            assert forall|j: int| 0 <= j < m.len() - 1 implies (#[trigger] m[j]).0@ != k by {
                assert(p[j] == m[j]);
            }
        } else {
            assert(meta_index(m, k) == -1);
            assert forall|j: int| 0 <= j < m.len() implies (#[trigger] m[j]).0@ != k by {
                if j < m.len() - 1 {
                    assert(p[j] == m[j]);
                }
            }
        }
    }
}

/// A read gives back the last write: once `meta_set(k, v)` has run,
/// `meta_get(k)` finds `v`.
pub proof fn lemma_meta_read_after_write(before: Seq<(String, String)>, after: Seq<(String, String)>, k: Seq<char>, v: Seq<char>)
    requires
        ({
            let i = meta_index(before, k);
            &&& after.len() == (if i >= 0 { before.len() } else { before.len() + 1 })
            &&& forall|j: int| 0 <= j < before.len() && j != i ==> #[trigger] after[j] == before[j]
            &&& after[if i >= 0 { i } else { before.len() as int }].0@ == k
            &&& after[if i >= 0 { i } else { before.len() as int }].1@ == v
        }),
    ensures
        meta_index(after, k) >= 0,
        after[meta_index(after, k)].1@ == v,
{
    lemma_meta_index(before, k);
    lemma_meta_index(after, k);
    lemma_meta_index_first(before, k);
    lemma_meta_index_first(after, k);
    let i = meta_index(before, k);
    assert(after[if i >= 0 { i } else { before.len() as int }].0@ == k);
    let at = if i >= 0 { i } else { before.len() as int };
    assert forall|j: int| 0 <= j < at implies (#[trigger] after[j]).0@ != k by {
        assert(after[j] == before[j]);
    }
    assert(after[at].0@ == k);
    let f = meta_index(after, k);
    if f >= 0 && f < at {
        assert(after[f].0@ != k);
    }
}

fn find_meta(m: &Vec<(String, String)>, k: &str) -> (r: Option<usize>)
    ensures
        match r {
            Some(i) => i == meta_index(m@, k@),
            None => meta_index(m@, k@) == -1,
        },
{
    let mut i: usize = 0;
    while i < m.len()
        invariant
            i <= m@.len(),
            meta_index(m@.subrange(0, i as int), k@) == -1,
        decreases m@.len() - i,
    {
        let ghost nxt = m@.subrange(0, i + 1);
        assert(nxt.drop_last() =~= m@.subrange(0, i as int));
        if str_eq(m[i].0.as_str(), k) {
            proof {
                lemma_meta_index_prefix(m@, k@, i + 1);
            }
            return Some(i);
        }
        i = i + 1;
    }
    assert(m@.subrange(0, m@.len() as int) =~= m@);
    None
}

/// The value stored under `k`.
pub fn meta_get(s: &Store, k: &str) -> (r: Option<String>)
    ensures
        ({
            let i = meta_index(s.meta@, k@);
            if i >= 0 {
                r matches Some(v) && v@ == s.meta@[i].1@
            } else {
                r is None
            }
        }),
{
    proof {
        lemma_meta_index(s.meta@, k@);
    }
    match find_meta(&s.meta, k) {
        Some(i) => Some(s.meta[i].1.clone()),
        None => None,
    }
}

/// Stores `v` under `k`.
pub fn meta_set(s: &mut Store, k: &str, v: &str)
    ensures
        *final(s) == (Store { meta: final(s).meta, ..*old(s) }),
        ({
            let i = meta_index(old(s).meta@, k@);
            &&& final(s).meta@.len() == (if i >= 0 { old(s).meta@.len() } else { old(s).meta@.len() + 1 })
            &&& forall|j: int| 0 <= j < old(s).meta@.len() && j != i ==> #[trigger] final(s).meta@[j] == old(s).meta@[j]
            &&& final(s).meta@[if i >= 0 { i } else { old(s).meta@.len() as int }].0@ == k@
            &&& final(s).meta@[if i >= 0 { i } else { old(s).meta@.len() as int }].1@ == v@
        }),
{
    proof {
        lemma_meta_index(s.meta@, k@);
    }
    let entry = (k.to_owned(), v.to_owned());
    match find_meta(&s.meta, k) {
        Some(i) => {
            s.meta.set(i, entry);
        },
        None => {
            s.meta.push(entry);
        },
    }
}

/// Index of the note of `group`, or -1.
pub open spec fn note_index(ns: Seq<GroupNote>, group: i64) -> int
    decreases ns.len(),
{
    if ns.len() == 0 {
        -1
    } else if note_index(ns.drop_last(), group) >= 0 {
        note_index(ns.drop_last(), group)
    } else if ns.last().group_id == group {
        ns.len() - 1
    } else {
        -1
    }
}

proof fn lemma_note_index(ns: Seq<GroupNote>, group: i64)
    ensures
        -1 <= note_index(ns, group) < ns.len(),
    decreases ns.len(),
{
    if ns.len() > 0 {
        lemma_note_index(ns.drop_last(), group);
    }
}

proof fn lemma_note_index_prefix(ns: Seq<GroupNote>, group: i64, n: int)
    requires
        0 <= n <= ns.len(),
        note_index(ns.subrange(0, n), group) >= 0,
    ensures
        note_index(ns, group) == note_index(ns.subrange(0, n), group),
    decreases ns.len() - n,
{
    if n < ns.len() {
        assert(ns.subrange(0, n + 1).drop_last() =~= ns.subrange(0, n));
        lemma_note_index_prefix(ns, group, n + 1);
    } else {
        assert(ns.subrange(0, n) =~= ns);
    }
}

fn find_note(ns: &Vec<GroupNote>, group: i64) -> (r: Option<usize>)
    ensures
        match r {
            Some(i) => i == note_index(ns@, group),
            None => note_index(ns@, group) == -1,
        },
{
    let mut i: usize = 0;
    while i < ns.len()
        invariant
            i <= ns@.len(),
            note_index(ns@.subrange(0, i as int), group) == -1,
        decreases ns@.len() - i,
    {
        let ghost nxt = ns@.subrange(0, i + 1);
        assert(nxt.drop_last() =~= ns@.subrange(0, i as int));
        if ns[i].group_id == group {
            proof {
                lemma_note_index_prefix(ns@, group, i + 1);
            }
            return Some(i);
        }
        i = i + 1;
    }
    assert(ns@.subrange(0, ns@.len() as int) =~= ns@);
    None
}

/// Stores the note of an existing group, replacing the previous one.
pub fn group_note_set(s: &mut Store, n: &GroupNote) -> (r: Result<(), RepoError>)
    ensures
        group_index(old(s).groups@, n.group_id) < 0 ==> (r matches Err(RepoError::Constraint(m)) && m@ == "group "@
            + int_chars(n.group_id as int) + " không tồn tại"@) && *final(s) == *old(s),
        group_index(old(s).groups@, n.group_id) >= 0 ==> {
            let k = note_index(old(s).notes@, n.group_id);
            &&& r is Ok
            &&& *final(s) == (Store { notes: final(s).notes, ..*old(s) })
            &&& final(s).notes@ == (if k >= 0 { old(s).notes@.update(k, *n) } else { old(s).notes@.push(*n) })
        },
{
    proof {
        lemma_group_index(s.groups@, n.group_id);
        lemma_note_index(s.notes@, n.group_id);
    }
    if find_group(&s.groups, n.group_id).is_none() {
        return Err(RepoError::Constraint(message_with_number("group ", n.group_id, " không tồn tại")));
    }
    match find_note(&s.notes, n.group_id) {
        Some(k) => {
            s.notes.set(k, n.clone());
        },
        None => {
            s.notes.push(n.clone());
        },
    }
    Ok(())
}

/// The note of a group.
pub fn group_note_get(s: &Store, group: i64) -> (r: Option<GroupNote>)
    ensures
        ({
            let k = note_index(s.notes@, group);
            if k >= 0 {
                r == Some(s.notes@[k])
            } else {
                r is None
            }
        }),
{
    proof {
        lemma_note_index(s.notes@, group);
    }
    match find_note(&s.notes, group) {
        Some(k) => Some(s.notes[k].clone()),
        None => None,
    }
}

/// The event passes the filter: one of its uids is the filter's uid, and it is
/// not older than `since`.
pub open spec fn event_passes(e: DedupEvent, f: EventFilter) -> bool {
    &&& (f.uid matches Some(u) ==> (e.src_uid == Some(u) || e.dst_uid == Some(u)))
    &&& (f.since matches Some(t) ==> e.ts >= t)
}

/// Where a stable insertion by decreasing time puts `x`: after every event
/// that is not older.
pub open spec fn event_pos(s: Seq<DedupEvent>, x: DedupEvent) -> int
    decreases s.len(),
{
    if s.len() == 0 {
        0
    } else if s.last().ts < x.ts {
        event_pos(s.drop_last(), x)
    } else {
        s.len() as int
    }
}

proof fn lemma_event_pos(s: Seq<DedupEvent>, x: DedupEvent)
    ensures
        0 <= event_pos(s, x) <= s.len(),
    decreases s.len(),
{
    if s.len() > 0 {
        lemma_event_pos(s.drop_last(), x);
    }
}

/// `s` sorted stably by decreasing time.
pub open spec fn events_sorted(s: Seq<DedupEvent>) -> Seq<DedupEvent>
    decreases s.len(),
{
    if s.len() == 0 {
        s
    } else {
        let t = events_sorted(s.drop_last());
        t.insert(event_pos(t, s.last()), s.last())
    }
}

pub open spec fn event_pred(f: EventFilter) -> spec_fn(DedupEvent) -> bool {
    |e: DedupEvent| event_passes(e, f)
}

/// What `events` returns: the events that pass the filter, newest first (ties:
/// the later recorded first), at most `limit`.
pub open spec fn events_spec(evs: Seq<DedupEvent>, f: EventFilter) -> Seq<DedupEvent> {
    let c = events_sorted(evs.reverse().filter(event_pred(f)));
    match f.limit {
        Some(l) => if c.len() <= l { c } else { c.take(l as int) },
        None => c,
    }
}

fn event_insert(out: &mut Vec<DedupEvent>, x: DedupEvent)
    ensures
        final(out)@ == old(out)@.insert(event_pos(old(out)@, x), x),
{
    let ghost s = out@;
    let mut p: usize = out.len();
    assert(s.subrange(0, p as int) =~= s);
    while p > 0 && out[p - 1].ts < x.ts
        invariant
            out@ == s,
            p <= s.len(),
            event_pos(s, x) == event_pos(s.subrange(0, p as int), x),
        decreases p,
    {
        proof {
            let t = s.subrange(0, p as int);
            assert(t.drop_last() =~= s.subrange(0, p - 1));
        }
        p = p - 1;
    }
    proof {
        let t = s.subrange(0, p as int);
        if p == 0 {
            assert(t.len() == 0);
        } else {
            assert(t.last() == s[p - 1]);
        }
        lemma_event_pos(s, x);
    }
    out.insert(p, x);
}

/// The ledger through a filter, newest first; among events of one
/// millisecond the later recorded comes first.
pub fn events(s: &Store, f: &EventFilter) -> (r: Vec<DedupEvent>)
    ensures
        r@ == events_spec(s.events@, *f),
{
    let ghost rev = s.events@.reverse();
    let mut out: Vec<DedupEvent> = Vec::new();
    let n = s.events.len();
    let mut i: usize = 0;
    while i < n
        invariant
            n == s.events@.len(),
            rev == s.events@.reverse(),
            i <= n,
            out@ == events_sorted(rev.subrange(0, i as int).filter(event_pred(*f))),
        decreases n - i,
    {
        let ghost pre = rev.subrange(0, i as int);
        let e = &s.events[n - 1 - i];
        proof {
            assert(rev[i as int] == s.events@[n - 1 - i]);
            pre.lemma_filter_push(rev[i as int], event_pred(*f));
            assert(rev.subrange(0, i + 1) =~= pre.push(rev[i as int]));
        }
        let pass = match f.uid {
            Some(u) => e.src_uid == Some(u) || e.dst_uid == Some(u),
            None => true,
        } && match f.since {
            Some(t) => e.ts >= t,
            None => true,
        };
        if pass {
            proof {
                let c = pre.filter(event_pred(*f));
                assert(c.push(rev[i as int]).drop_last() =~= c);
            }
            event_insert(&mut out, e.clone());
        }
        i = i + 1;
    }
    assert(rev.subrange(0, n as int) =~= rev);
    match f.limit {
        Some(l) => {
            if out.len() > l {
                out.truncate(l);
            }
        },
        None => {},
    }
    out
}

/// The row is a scheduled `hashed` row of domain `d`.
pub open spec fn parkable(r: FileRecord, d: DomainId) -> bool {
    r.domain_id == d && r.state == State::Hashed && r.ready_at is Some
}

/// `n` is `r` parked with error `err`: no `ready_at`, the error recorded.
pub open spec fn is_parked_from(n: FileRecord, r: FileRecord, err: Seq<char>, now: Ts) -> bool {
    &&& n == (FileRecord { ready_at: None, last_error: n.last_error, updated_at: now, ..r })
    &&& n.last_error matches Some(m) && m@ == err
}

/// Number of rows of `files` that satisfy `parkable`.
pub open spec fn count_parkable(files: Seq<FileRecord>, d: DomainId) -> nat
    decreases files.len(),
{
    if files.len() == 0 {
        0
    } else {
        count_parkable(files.drop_last(), d) + if parkable(files.last(), d) { 1nat } else { 0nat }
    }
}

/// Parks every scheduled `hashed` row of a domain whose backend cannot dedupe.
/// Returns how many rows were parked.
pub fn park_domain(s: &mut Store, domain: &DomainId, err: &str, now: Ts) -> (r: u64)
    requires
        old(s).files@.len() < u64::MAX,
    ensures
        *final(s) == (Store { files: final(s).files, ..*old(s) }),
        final(s).files@.len() == old(s).files@.len(),
        forall|i: int| 0 <= i < old(s).files@.len() ==> if parkable(old(s).files@[i], *domain) {
            is_parked_from(#[trigger] final(s).files@[i], old(s).files@[i], err@, now)
        } else {
            final(s).files@[i] == old(s).files@[i]
        },
        r == count_parkable(old(s).files@, *domain),
{
    let ghost f0 = s.files@;
    let ghost s0 = *s;
    let mut n: u64 = 0;
    let mut i: usize = 0;
    while i < s.files.len()
        invariant
            s.files@.len() == f0.len(),
            f0.len() < u64::MAX,
            i <= f0.len(),
            n == count_parkable(f0.subrange(0, i as int), *domain),
            n <= i,
            *s == (Store { files: s.files, ..s0 }),
            forall|k: int| 0 <= k < i ==> if parkable(f0[k], *domain) {
                is_parked_from(#[trigger] s.files@[k], f0[k], err@, now)
            } else {
                s.files@[k] == f0[k]
            },
            forall|k: int| i <= k < f0.len() ==> #[trigger] s.files@[k] == f0[k],
        decreases f0.len() - i,
    {
        proof {
            assert(f0.subrange(0, i + 1).drop_last() =~= f0.subrange(0, i as int));
        }
        if s.files[i].domain_id.same(domain) && s.files[i].state == State::Hashed && s.files[i].ready_at.is_some() {
            let mut row = s.files[i].clone();
            row.ready_at = None;
            row.last_error = Some(err.to_owned());
            row.updated_at = now;
            s.files.set(i, row);
            n = n + 1;
        }
        i = i + 1;
    }
    assert(f0.subrange(0, f0.len() as int) =~= f0);
    n
}

/// The row is a parked `hashed` row of domain `d`.
pub open spec fn unparkable(r: FileRecord, d: DomainId) -> bool {
    r.domain_id == d && r.state == State::Hashed && r.ready_at is None
}

pub open spec fn count_unparkable(files: Seq<FileRecord>, d: DomainId) -> nat
    decreases files.len(),
{
    if files.len() == 0 {
        0
    } else {
        count_unparkable(files.drop_last(), d) + if unparkable(files.last(), d) { 1nat } else { 0nat }
    }
}

/// Puts every parked `hashed` row of a domain back in the queue. Returns how
/// many rows were woken.
pub fn unpark_domain(s: &mut Store, domain: &DomainId, now: Ts) -> (r: u64)
    requires
        old(s).files@.len() < u64::MAX,
    ensures
        *final(s) == (Store { files: final(s).files, ..*old(s) }),
        final(s).files@.len() == old(s).files@.len(),
        forall|i: int| 0 <= i < old(s).files@.len() ==> #[trigger] final(s).files@[i] == if unparkable(old(s).files@[i], *domain) {
            FileRecord { ready_at: Some(now), updated_at: now, ..old(s).files@[i] }
        } else {
            old(s).files@[i]
        },
        r == count_unparkable(old(s).files@, *domain),
{
    let ghost f0 = s.files@;
    let ghost s0 = *s;
    let mut n: u64 = 0;
    let mut i: usize = 0;
    while i < s.files.len()
        invariant
            s.files@.len() == f0.len(),
            f0.len() < u64::MAX,
            i <= f0.len(),
            n == count_unparkable(f0.subrange(0, i as int), *domain),
            n <= i,
            *s == (Store { files: s.files, ..s0 }),
            forall|k: int| 0 <= k < i ==> #[trigger] s.files@[k] == if unparkable(f0[k], *domain) {
                FileRecord { ready_at: Some(now), updated_at: now, ..f0[k] }
            } else {
                f0[k]
            },
            forall|k: int| i <= k < f0.len() ==> #[trigger] s.files@[k] == f0[k],
        decreases f0.len() - i,
    {
        proof {
            assert(f0.subrange(0, i + 1).drop_last() =~= f0.subrange(0, i as int));
        }
        if s.files[i].domain_id.same(domain) && s.files[i].state == State::Hashed && s.files[i].ready_at.is_none() {
            let mut row = s.files[i].clone();
            row.ready_at = Some(now);
            row.updated_at = now;
            s.files.set(i, row);
            n = n + 1;
        }
        i = i + 1;
    }
    assert(f0.subrange(0, f0.len() as int) =~= f0);
    n
}

/// The row lies under one of the allowed locations (an empty `rel_path`
/// allows the whole root).
pub open spec fn allowed_by(r: FileRecord, allow: Seq<FileLoc>) -> bool {
    exists|j: int| 0 <= j < allow.len() && r.loc.root_id == (#[trigger] allow[j]).root_id && (allow[j].rel_path@.len() == 0
        || path_starts_with(r.loc.rel_path@, allow[j].rel_path@))
}

pub open spec fn requeueable(r: FileRecord, allow: Seq<FileLoc>) -> bool {
    r.state == State::Verified && allowed_by(r, allow)
}

pub open spec fn count_requeueable(files: Seq<FileRecord>, allow: Seq<FileLoc>) -> nat
    decreases files.len(),
{
    if files.len() == 0 {
        0
    } else {
        count_requeueable(files.drop_last(), allow) + if requeueable(files.last(), allow) { 1nat } else { 0nat }
    }
}

fn allowed_exec(r: &FileRecord, allow: &Vec<FileLoc>) -> (b: bool)
    ensures
        b == allowed_by(*r, allow@),
{
    let mut j: usize = 0;
    while j < allow.len()
        invariant
            j <= allow@.len(),
            forall|q: int| 0 <= q < j ==> !(r.loc.root_id == (#[trigger] allow@[q]).root_id && (allow@[q].rel_path@.len() == 0
                || path_starts_with(r.loc.rel_path@, allow@[q].rel_path@))),
        decreases allow@.len() - j,
    {
        let a = &allow[j];
        if r.loc.root_id == a.root_id && (a.rel_path.as_str().unicode_len() == 0 || starts_with_path(r.loc.rel_path.as_str(), a.rel_path.as_str())) {
            return true;
        }
        j = j + 1;
    }
    false
}

/// `verified` → `hashed` for the rows under an allowed location, so that they
/// are verified again (for real) once deduplication is allowed there.
pub fn requeue_verified(s: &mut Store, allow: &Vec<FileLoc>, now: Ts) -> (r: u64)
    requires
        old(s).files@.len() < u64::MAX,
    ensures
        *final(s) == (Store { files: final(s).files, ..*old(s) }),
        final(s).files@.len() == old(s).files@.len(),
        forall|i: int| 0 <= i < old(s).files@.len() ==> #[trigger] final(s).files@[i] == if requeueable(old(s).files@[i], allow@) {
            FileRecord { state: State::Hashed, ready_at: Some(now), updated_at: now, ..old(s).files@[i] }
        } else {
            old(s).files@[i]
        },
        r == count_requeueable(old(s).files@, allow@),
{
    let ghost f0 = s.files@;
    let ghost s0 = *s;
    let mut n: u64 = 0;
    let mut i: usize = 0;
    while i < s.files.len()
        invariant
            s.files@.len() == f0.len(),
            f0.len() < u64::MAX,
            i <= f0.len(),
            n == count_requeueable(f0.subrange(0, i as int), allow@),
            n <= i,
            *s == (Store { files: s.files, ..s0 }),
            forall|k: int| 0 <= k < i ==> #[trigger] s.files@[k] == if requeueable(f0[k], allow@) {
                FileRecord { state: State::Hashed, ready_at: Some(now), updated_at: now, ..f0[k] }
            } else {
                f0[k]
            },
            forall|k: int| i <= k < f0.len() ==> #[trigger] s.files@[k] == f0[k],
        decreases f0.len() - i,
    {
        proof {
            assert(f0.subrange(0, i + 1).drop_last() =~= f0.subrange(0, i as int));
        }
        if s.files[i].state == State::Verified && allowed_exec(&s.files[i], allow) {
            let mut row = s.files[i].clone();
            row.state = State::Hashed;
            row.ready_at = Some(now);
            row.updated_at = now;
            s.files.set(i, row);
            n = n + 1;
        }
        i = i + 1;
    }
    assert(f0.subrange(0, f0.len() as int) =~= f0);
    n
}

/// A `gone` row older than the retention cutoff.
pub open spec fn expired(r: FileRecord, cutoff: int) -> bool {
    r.state == State::Gone && r.updated_at < cutoff
}

pub open spec fn kept_pred(cutoff: int) -> spec_fn(FileRecord) -> bool {
    |r: FileRecord| !expired(r, cutoff)
}

pub open spec fn recent_pred(cutoff: int) -> spec_fn(DedupEvent) -> bool {
    |e: DedupEvent| e.ts >= cutoff
}

/// Some row of `files` with id `id` is expired.
pub open spec fn has_expired_id(files: Seq<FileRecord>, id: i64, cutoff: int) -> bool
    decreases files.len(),
{
    if files.len() == 0 {
        false
    } else {
        has_expired_id(files.drop_last(), id, cutoff) || (files.last().id == id && expired(files.last(), cutoff))
    }
}

/// The canonical of `g` is one of the rows that `purge` deletes.
pub open spec fn loses_canonical(g: Group, files: Seq<FileRecord>, cutoff: int) -> bool {
    g.canonical_file_id matches Some(id) && has_expired_id(files, id, cutoff)
}

proof fn lemma_push_contains(s: Seq<i64>, x: i64, y: i64)
    ensures
        s.push(x).contains(y) == (s.contains(y) || y == x),
{
    if s.push(x).contains(y) {
        let q = choose|q: int| 0 <= q < s.push(x).len() && s.push(x)[q] == y;
        if q < s.len() {
            assert(s[q] == y);
        }
    }
    if s.contains(y) {
        let q = choose|q: int| 0 <= q < s.len() && s[q] == y;
        assert(s.push(x)[q] == y);
    }
    if y == x {
        assert(s.push(x)[s.len() as int] == x);
    }
}

fn ids_of_expired(files: &Vec<FileRecord>, cutoff: i64) -> (r: Vec<i64>)
    ensures
        forall|id: i64| r@.contains(id) == has_expired_id(files@, id, cutoff as int),
{
    let mut out: Vec<i64> = Vec::new();
    let mut i: usize = 0;
    while i < files.len()
        invariant
            i <= files@.len(),
            forall|id: i64| out@.contains(id) == has_expired_id(files@.subrange(0, i as int), id, cutoff as int),
        decreases files@.len() - i,
    {
        let ghost pre = files@.subrange(0, i as int);
        let ghost nxt = files@.subrange(0, i + 1);
        assert(nxt.drop_last() =~= pre);
        assert(nxt.last() == files@[i as int]);
        if files[i].state == State::Gone && files[i].updated_at < cutoff {
            proof {
                assert forall|id: i64| out@.push(files@[i as int].id).contains(id) == has_expired_id(nxt, id, cutoff as int) by {
                    lemma_push_contains(out@, files@[i as int].id, id);
                }
            }
            out.push(files[i].id);
        }
        i = i + 1;
    }
    assert(files@.subrange(0, files@.len() as int) =~= files@);
    out
}

fn contains_id(v: &Vec<i64>, id: i64) -> (r: bool)
    ensures
        r == v@.contains(id),
{
    let mut i: usize = 0;
    while i < v.len()
        invariant
            i <= v@.len(),
            forall|k: int| 0 <= k < i ==> v@[k] != id,
        decreases v@.len() - i,
    {
        if v[i] == id {
            assert(v@[i as int] == id);
            return true;
        }
        i = i + 1;
    }
    false
}

/// Deletes the `gone` rows and the events older than the retention window;
/// a group whose canonical is deleted loses its canonical pointer, so that a
/// member can take the role. Returns how many rows and events were deleted.
pub fn purge(s: &mut Store, now: Ts, retention_ms: i64) -> (r: u64)
    requires
        old(s).files@.len() + old(s).events@.len() <= u64::MAX,
    ensures
        ({
            let cutoff = sat_sub_i64(now, retention_ms);
            &&& final(s).files@ == old(s).files@.filter(kept_pred(cutoff))
            &&& final(s).events@ == old(s).events@.filter(recent_pred(cutoff))
            &&& final(s).groups@.len() == old(s).groups@.len()
            &&& forall|i: int| 0 <= i < old(s).groups@.len() ==> #[trigger] final(s).groups@[i] == if loses_canonical(old(s).groups@[i], old(s).files@, cutoff) {
                Group { canonical_file_id: None, ..old(s).groups@[i] }
            } else {
                old(s).groups@[i]
            }
            &&& r == (old(s).files@.len() - final(s).files@.len()) + (old(s).events@.len() - final(s).events@.len())
            &&& *final(s) == (Store { files: final(s).files, groups: final(s).groups, events: final(s).events, ..*old(s) })
        }),
{
    let cutoff: i64 = if retention_ms >= 0 {
        if now >= i64::MIN + retention_ms { now - retention_ms } else { i64::MIN }
    } else {
        if now <= i64::MAX + retention_ms { now - retention_ms } else { i64::MAX }
    };
    let ghost s0 = *s;
    let ghost f0 = s.files@;
    let gone = ids_of_expired(&s.files, cutoff);
    let mut kept: Vec<FileRecord> = Vec::new();
    let mut i: usize = 0;
    while i < s.files.len()
        invariant
            i <= f0.len(),
            s.files@ == f0,
            kept@ == f0.subrange(0, i as int).filter(kept_pred(cutoff as int)),
            kept@.len() <= i,
        decreases f0.len() - i,
    {
        proof {
            let pre = f0.subrange(0, i as int);
            pre.lemma_filter_push(f0[i as int], kept_pred(cutoff as int));
            assert(f0.subrange(0, i + 1) =~= pre.push(f0[i as int]));
        }
        if !(s.files[i].state == State::Gone && s.files[i].updated_at < cutoff) {
            kept.push(s.files[i].clone());
        }
        i = i + 1;
    }
    assert(f0.subrange(0, f0.len() as int) =~= f0);
    let removed_files: u64 = (s.files.len() - kept.len()) as u64;
    s.files = kept;
    let ghost g0 = s.groups@;
    let mut j: usize = 0;
    while j < s.groups.len()
        invariant
            j <= g0.len(),
            s.groups@.len() == g0.len(),
            forall|id: i64| gone@.contains(id) == has_expired_id(f0, id, cutoff as int),
            forall|k: int| 0 <= k < j ==> #[trigger] s.groups@[k] == if loses_canonical(g0[k], f0, cutoff as int) {
                Group { canonical_file_id: None, ..g0[k] }
            } else {
                g0[k]
            },
            forall|k: int| j <= k < g0.len() ==> #[trigger] s.groups@[k] == g0[k],
            s.files@ == f0.filter(kept_pred(cutoff as int)),
            s.events == s0.events,
            *s == (Store { files: s.files, groups: s.groups, ..s0 }),
        decreases g0.len() - j,
    {
        match s.groups[j].canonical_file_id {
            Some(id) => {
                if contains_id(&gone, id) {
                    let mut g = s.groups[j];
                    g.canonical_file_id = None;
                    s.groups.set(j, g);
                }
            },
            None => {},
        }
        j = j + 1;
    }
    let ghost e0 = s.events@;
    let mut recent: Vec<DedupEvent> = Vec::new();
    let mut k: usize = 0;
    while k < s.events.len()
        invariant
            k <= e0.len(),
            s.events@ == e0,
            recent@ == e0.subrange(0, k as int).filter(recent_pred(cutoff as int)),
            recent@.len() <= k,
        decreases e0.len() - k,
    {
        proof {
            let pre = e0.subrange(0, k as int);
            pre.lemma_filter_push(e0[k as int], recent_pred(cutoff as int));
            assert(e0.subrange(0, k + 1) =~= pre.push(e0[k as int]));
        }
        if s.events[k].ts >= cutoff {
            recent.push(s.events[k].clone());
        }
        k = k + 1;
    }
    assert(e0.subrange(0, e0.len() as int) =~= e0);
    let removed_events: u64 = (s.events.len() - recent.len()) as u64;
    s.events = recent;
    removed_files + removed_events
}

} // verus!
