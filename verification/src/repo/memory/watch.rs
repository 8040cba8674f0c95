//! Updates from the watcher and from reconcile and presence scans.

use vstd::prelude::*;

use crate::model::{FileKey, FileLoc, FileRecord, Fingerprint, Identity, State, Ts};
use crate::path::{comp_views, components, components_of, path_starts_with, starts_with_path};
use crate::repo::rules::{apply_upsert, decide_upsert, upsert_decision, upserted_row};
use crate::repo::RepoError;

use super::queue::{
    drop_lost_canonical, drop_lost_canonical_exec, find_key, key_index, lemma_key_index,
    only_rows_changed, unknown_root_message,
};
use super::{root_kind_spec, Store};

verus! {

/// A row gone from disk becomes `missing` and remembers its state; rows
/// already `missing` or `gone` are left as they are.
pub open spec fn missing_row(r: FileRecord, now: Ts) -> FileRecord {
    if r.state == State::Missing || r.state == State::Gone {
        r
    } else {
        FileRecord {
            prev_state: Some(r.state),
            state: State::Missing,
            ready_at: None,
            heavy_wait_since: None,
            updated_at: now,
            ..r
        }
    }
}

pub fn set_missing(r: &mut FileRecord, now: Ts)
    ensures
        *final(r) == missing_row(*old(r), now),
{
    if r.state == State::Missing || r.state == State::Gone {
        return;
    }
    r.prev_state = Some(r.state);
    r.state = State::Missing;
    r.ready_at = None;
    r.heavy_wait_since = None;
    r.updated_at = now;
}

/// The row lies under the directory `dir` (same root, path components prefixed).
pub open spec fn under_dir(r: FileRecord, dir: FileLoc) -> bool {
    r.loc.root_id == dir.root_id && path_starts_with(r.loc.rel_path@, dir.rel_path@)
}

/// Marks every row at `loc` missing.
pub open spec fn at_loc_missing(files: Seq<FileRecord>, loc: FileLoc, now: Ts) -> Seq<FileRecord> {
    Seq::new(files.len(), |i: int| if files[i].loc@ == loc@ { missing_row(files[i], now) } else { files[i] })
}

/// Marks every row at `loc` missing: after a rename over an existing file,
/// two rows may point at one path, and both are stale once it is deleted.
pub fn mark_missing(s: &mut Store, loc: &FileLoc, now: Ts)
    ensures
        final(s).files@ == at_loc_missing(old(s).files@, *loc, now),
        final(s).groups == old(s).groups,
        final(s).next_id == old(s).next_id,
        only_rows_changed(old(s), final(s)),
{
    let ghost f0 = s.files@;
    let ghost s0 = *s;
    let mut i: usize = 0;
    while i < s.files.len()
        invariant
            s.files@.len() == f0.len(),
            i <= f0.len(),
            forall|k: int| 0 <= k < i ==> #[trigger] s.files@[k] == (if f0[k].loc@ == loc@ { missing_row(f0[k], now) } else { f0[k] }),
            forall|k: int| i <= k < f0.len() ==> #[trigger] s.files@[k] == f0[k],
            s.groups == s0.groups,
            s.next_id == s0.next_id,
            only_rows_changed(&s0, s),
        decreases f0.len() - i,
    {
        if s.files[i].loc.same_as(loc) {
            let mut r = s.files[i].clone();
            set_missing(&mut r, now);
            s.files.set(i, r);
        }
        i = i + 1;
    }
    assert(s.files@ =~= at_loc_missing(f0, *loc, now));
}

/// Marks every live row under a directory missing; returns how many changed.
pub fn mark_missing_prefix(s: &mut Store, dir: &FileLoc, now: Ts) -> (r: u64)
    requires
        old(s).files@.len() < u64::MAX,
    ensures
        final(s).files@.len() == old(s).files@.len(),
        forall|i: int| 0 <= i < old(s).files@.len() ==> #[trigger] final(s).files@[i] == (if under_dir(old(s).files@[i], *dir) { missing_row(old(s).files@[i], now) } else { old(s).files@[i] }),
        r <= old(s).files@.len(),
        final(s).groups == old(s).groups,
        final(s).next_id == old(s).next_id,
        only_rows_changed(old(s), final(s)),
{
    let ghost f0 = s.files@;
    let ghost s0 = *s;
    let mut n: u64 = 0;
    let mut i: usize = 0;
    while i < s.files.len()
        invariant
            s.files@.len() == f0.len(),
            f0.len() < u64::MAX,
            i <= f0.len(),
            n <= i,
            forall|k: int| 0 <= k < i ==> #[trigger] s.files@[k] == (if under_dir(f0[k], *dir) { missing_row(f0[k], now) } else { f0[k] }),
            forall|k: int| i <= k < f0.len() ==> #[trigger] s.files@[k] == f0[k],
            s.groups == s0.groups,
            s.next_id == s0.next_id,
            only_rows_changed(&s0, s),
        decreases f0.len() - i,
    {
        if s.files[i].loc.root_id == dir.root_id && starts_with_path(s.files[i].loc.rel_path.as_str(), dir.rel_path.as_str()) {
            if s.files[i].state != State::Missing && s.files[i].state != State::Gone {
                n = n + 1;
            }
            let mut r = s.files[i].clone();
            set_missing(&mut r, now);
            s.files.set(i, r);
        }
        i = i + 1;
    }
    n
}

/// Moves the row of `key` to `new_loc`; a different row at `new_loc` was
/// replaced by the rename and becomes missing. Nothing is written when no row
/// has the key.
pub fn rename(s: &mut Store, key: &FileKey, new_loc: &FileLoc, now: Ts) -> (r: Result<(), RepoError>)
    ensures
        key_index(old(s).files@, *key) < 0 ==> (r matches Err(RepoError::Constraint(m)) && m@ == "rename: không có row cho khóa này"@) && *final(s) == *old(s),
        key_index(old(s).files@, *key) >= 0 ==> {
            let k = key_index(old(s).files@, *key);
            let f1 = Seq::new(old(s).files@.len(), |i: int| if old(s).files@[i].loc@ == new_loc@ && old(s).files@[i].key != *key { missing_row(old(s).files@[i], now) } else { old(s).files@[i] });
            &&& r is Ok
            &&& final(s).files@ == f1.update(k, FileRecord { loc: *new_loc, updated_at: now, ..f1[k] })
        },
        final(s).groups == old(s).groups,
        final(s).next_id == old(s).next_id,
        only_rows_changed(old(s), final(s)),
{
    proof {
        lemma_key_index(s.files@, *key);
    }
    let k = match find_key(&s.files, key) {
        Some(k) => k,
        None => {
            return Err(RepoError::Constraint("rename: không có row cho khóa này".to_owned()));
        },
    };
    let ghost f0 = s.files@;
    let ghost s0 = *s;
    let mut i: usize = 0;
    while i < s.files.len()
        invariant
            s.files@.len() == f0.len(),
            i <= f0.len(),
            forall|q: int| 0 <= q < i ==> #[trigger] s.files@[q] == (if f0[q].loc@ == new_loc@ && f0[q].key != *key { missing_row(f0[q], now) } else { f0[q] }),
            forall|q: int| i <= q < f0.len() ==> #[trigger] s.files@[q] == f0[q],
            s.groups == s0.groups,
            s.next_id == s0.next_id,
            only_rows_changed(&s0, s),
        decreases f0.len() - i,
    {
        if s.files[i].loc.same_as(new_loc) && !s.files[i].key.same(key) {
            let mut r = s.files[i].clone();
            set_missing(&mut r, now);
            s.files.set(i, r);
        }
        i = i + 1;
    }
    let ghost f1 = s.files@;
    assert(f1 =~= Seq::new(f0.len(), |q: int| if f0[q].loc@ == new_loc@ && f0[q].key != *key { missing_row(f0[q], now) } else { f0[q] }));
    let mut r = s.files[k].clone();
    r.loc = new_loc.clone();
    r.updated_at = now;
    s.files.set(k, r);
    Ok(())
}

/// A missing row seen again: back to its previous state when the fingerprint
/// matches, else to `settling`, by the same rule as the queue upsert. A key
/// without a row is no error.
pub fn restore_or_reset(s: &mut Store, key: &FileKey, id: &Identity, now: Ts) -> (r: Result<(), RepoError>)
    ensures
        key_index(old(s).files@, *key) < 0 ==> r is Ok && *final(s) == *old(s),
        key_index(old(s).files@, *key) >= 0 ==> {
            let k = key_index(old(s).files@, *key);
            let row = old(s).files@[k];
            match root_kind_spec(old(s).roots@, row.loc.root_id) {
                None => (r matches Err(RepoError::Constraint(m)) && m@ == unknown_root_message(row.loc.root_id)) && *final(s) == *old(s),
                Some(kind) => r is Ok && if row.state == State::Missing {
                    let nr = upserted_row(row, upsert_decision(row, *id, kind, now, row.priority), *id, None, now);
                    &&& final(s).files@ == old(s).files@.update(k, nr)
                    &&& final(s).groups@ == drop_lost_canonical(old(s).groups@, row.id, row.group_id, nr.group_id)
                } else {
                    final(s).files@ == old(s).files@ && final(s).groups == old(s).groups
                },
            }
        },
        key_index(old(s).files@, *key) < 0 ==> final(s).groups == old(s).groups,
        final(s).next_id == old(s).next_id,
        only_rows_changed(old(s), final(s)),
{
    let k = match find_key(&s.files, key) {
        Some(k) => k,
        None => {
            return Ok(());
        },
    };
    let kind = match s.root_kind(s.files[k].loc.root_id) {
        Ok(kind) => kind,
        Err(e) => {
            return Err(e);
        },
    };
    if s.files[k].state == State::Missing {
        let mut row = s.files[k].clone();
        let pr = row.priority;
        let d = decide_upsert(&row, id, kind, now, pr);
        let was_group = row.group_id;
        apply_upsert(&mut row, d, id, None, now);
        let row_id = row.id;
        let now_group = row.group_id;
        s.files.set(k, row);
        drop_lost_canonical_exec(&mut s.groups, row_id, was_group, now_group);
    }
    Ok(())
}


/// Components joined by `/`.
pub open spec fn join_comps(cs: Seq<Seq<char>>) -> Seq<char>
    decreases cs.len(),
{
    if cs.len() == 0 {
        Seq::empty()
    } else if cs.len() == 1 {
        cs[0]
    } else {
        join_comps(cs.drop_last()) + seq!['/'] + cs.last()
    }
}

fn join_comp_vecs(cs: &Vec<Vec<char>>, from: usize) -> (r: Vec<char>)
    requires
        from <= cs@.len(),
    ensures
        r@ == join_comps(comp_views(cs@).subrange(from as int, cs@.len() as int)),
{
    let mut out: Vec<char> = Vec::new();
    let mut i: usize = from;
    while i < cs.len()
        invariant
            from <= i <= cs@.len(),
            out@ == join_comps(comp_views(cs@).subrange(from as int, i as int)),
        decreases cs@.len() - i,
    {
        let ghost pre = comp_views(cs@).subrange(from as int, i + 1);
        assert(pre.drop_last() =~= comp_views(cs@).subrange(from as int, i as int));
        assert(pre.last() == cs@[i as int]@);
        if i > from {
            out.push('/');
        }
        let c = &cs[i];
        let ghost head = out@;
        let mut k: usize = 0;
        while k < c.len()
            invariant
                k <= c@.len(),
                out@ == head + c@.subrange(0, k as int),
            decreases c@.len() - k,
        {
            out.push(c[k]);
            k = k + 1;
        }
        assert(c@.subrange(0, c@.len() as int) =~= c@);
        proof {
            if i == from {
                assert(pre.len() == 1);
                assert(head =~= Seq::<char>::empty());
                assert(out@ =~= pre[0]);
            }
        }
        i = i + 1;
    }
    out
}

/// `s` without its trailing `/`s.
pub open spec fn trim_slashes(s: Seq<char>) -> Seq<char>
    decreases s.len(),
{
    if s.len() > 0 && s.last() == '/' {
        trim_slashes(s.drop_last())
    } else {
        s
    }
}

/// `dir` joined with `rest` by exactly one `/`, whatever the host OS.
pub open spec fn joined_path(dir: Seq<char>, rest: Seq<char>) -> Seq<char> {
    if rest.len() == 0 {
        dir
    } else if dir.len() == 0 {
        rest
    } else {
        trim_slashes(dir) + seq!['/'] + rest
    }
}

fn joined_path_exec(dir: &str, rest: &Vec<char>) -> (r: String)
    ensures
        r@ == joined_path(dir@, rest@),
{
    let d = crate::text::chars_of(dir);
    if rest.len() == 0 {
        return crate::text::string_of(&d);
    }
    if d.len() == 0 {
        return crate::text::string_of(rest);
    }
    let mut e: usize = d.len();
    assert(d@.subrange(0, e as int) =~= d@);
    while e > 0 && d[e - 1] == '/'
        invariant
            e <= d@.len(),
            trim_slashes(d@) == trim_slashes(d@.subrange(0, e as int)),
        decreases e,
    {
        assert(d@.subrange(0, e as int).drop_last() =~= d@.subrange(0, e - 1));
        e = e - 1;
    }
    let mut out: Vec<char> = Vec::new();
    let mut k: usize = 0;
    while k < e
        invariant
            k <= e <= d@.len(),
            out@ == d@.subrange(0, k as int),
        decreases e - k,
    {
        out.push(d[k]);
        k = k + 1;
    }
    out.push('/');
    let ghost head = out@;
    let mut q: usize = 0;
    while q < rest.len()
        invariant
            q <= rest@.len(),
            out@ == head + rest@.subrange(0, q as int),
        decreases rest@.len() - q,
    {
        out.push(rest[q]);
        q = q + 1;
    }
    assert(rest@.subrange(0, rest@.len() as int) =~= rest@);
    assert(trim_slashes(d@.subrange(0, e as int)) == d@.subrange(0, e as int));
    crate::text::string_of(&out)
}

/// Renames every row under `old_dir` to the same place under `new_dir`;
/// returns how many rows moved.
pub fn rename_prefix(s: &mut Store, old_dir: &FileLoc, new_dir: &FileLoc, now: Ts) -> (r: u64)
    requires
        old(s).files@.len() < u64::MAX,
    ensures
        final(s).files@.len() == old(s).files@.len(),
        forall|i: int| 0 <= i < old(s).files@.len() ==> {
            let r0 = #[trigger] old(s).files@[i];
            let r1 = final(s).files@[i];
            if under_dir(r0, *old_dir) {
                let c = components(r0.loc.rel_path@);
                let rest = join_comps(c.subrange(components(old_dir.rel_path@).len() as int, c.len() as int));
                &&& r1.loc.root_id == new_dir.root_id
                &&& r1.loc.rel_path@ == joined_path(new_dir.rel_path@, rest)
                &&& r1 == FileRecord { loc: r1.loc, updated_at: now, ..r0 }
            } else {
                r1 == r0
            }
        },
        r <= old(s).files@.len(),
        final(s).groups == old(s).groups,
        final(s).next_id == old(s).next_id,
        only_rows_changed(old(s), final(s)),
{
    let ghost f0 = s.files@;
    let ghost s0 = *s;
    let base = components_of(old_dir.rel_path.as_str());
    let mut n: u64 = 0;
    let mut i: usize = 0;
    while i < s.files.len()
        invariant
            s.files@.len() == f0.len(),
            f0.len() < u64::MAX,
            i <= f0.len(),
            n <= i,
            comp_views(base@) == components(old_dir.rel_path@),
            forall|k: int| 0 <= k < i ==> {
                let r0 = #[trigger] f0[k];
                let r1 = s.files@[k];
                if under_dir(r0, *old_dir) {
                    let c = components(r0.loc.rel_path@);
                    let rest = join_comps(c.subrange(components(old_dir.rel_path@).len() as int, c.len() as int));
                    &&& r1.loc.root_id == new_dir.root_id
                    &&& r1.loc.rel_path@ == joined_path(new_dir.rel_path@, rest)
                    &&& r1 == FileRecord { loc: r1.loc, updated_at: now, ..r0 }
                } else {
                    r1 == r0
                }
            },
            forall|k: int| i <= k < f0.len() ==> #[trigger] s.files@[k] == f0[k],
            s.groups == s0.groups,
            s.next_id == s0.next_id,
            only_rows_changed(&s0, s),
        decreases f0.len() - i,
    {
        if s.files[i].loc.root_id == old_dir.root_id && starts_with_path(s.files[i].loc.rel_path.as_str(), old_dir.rel_path.as_str()) {
            let cs = components_of(s.files[i].loc.rel_path.as_str());
            proof {
                assert(comp_views(cs@).len() == cs@.len());
                assert(comp_views(base@).len() == base@.len());
            }
            let rest = join_comp_vecs(&cs, base.len());
            let nr = joined_path_exec(new_dir.rel_path.as_str(), &rest);
            let mut r = s.files[i].clone();
            r.loc = crate::model::FileLoc { root_id: new_dir.root_id, rel_path: nr };
            r.updated_at = now;
            s.files.set(i, r);
            n = n + 1;
        }
        i = i + 1;
    }
    n
}


/// Whether some row with the key is `missing`.
pub open spec fn has_missing_key(files: Seq<FileRecord>, key: FileKey) -> bool {
    exists|i: int| 0 <= i < files.len() && (#[trigger] files[i]).key == key && files[i].state == State::Missing
}

fn has_missing_key_exec(files: &Vec<FileRecord>, key: &FileKey) -> (r: bool)
    ensures
        r == has_missing_key(files@, *key),
{
    let mut i: usize = 0;
    while i < files.len()
        invariant
            i <= files@.len(),
            forall|k: int| 0 <= k < i ==> !((#[trigger] files@[k]).key == *key && files@[k].state == State::Missing),
        decreases files@.len() - i,
    {
        if files[i].key.same(key) && files[i].state == State::Missing {
            return true;
        }
        i = i + 1;
    }
    false
}

/// The identity a presence entry stands for, the rest taken from the row.
pub open spec fn presence_identity(r: FileRecord, key: FileKey, fp: Fingerprint) -> Identity {
    Identity {
        key,
        domain_id: r.domain_id,
        size: fp.size,
        mtime_ns: fp.mtime_ns,
        ctime_ns: fp.ctime_ns,
        atime_ns: 0,
        nlink: r.nlink,
        uid: r.owner_uid,
        mode: r.mode,
        blocks: 0,
        dev: 0,
    }
}

/// One presence entry: its key is recorded as seen; a missing row with that
/// key is restored by the upsert rule (the root of the entry must then be
/// registered, else the error names it).
pub open spec fn presence_step(files: Seq<FileRecord>, seen: Seq<FileKey>, roots: Seq<crate::model::Root>, e: (FileKey, Fingerprint, FileLoc), now: Ts) -> (Seq<FileRecord>, Seq<FileKey>, nat, Option<i64>) {
    let seen2 = seen.push(e.0);
    if !has_missing_key(files, e.0) {
        (files, seen2, 0, None)
    } else {
        match root_kind_spec(roots, e.2.root_id) {
            None => (files, seen2, 0, Some(e.2.root_id)),
            Some(kind) => {
                let k = key_index(files, e.0);
                let row = files[k];
                let inc = presence_identity(row, e.0, e.1);
                let nr = upserted_row(row, upsert_decision(row, inc, kind, now, row.priority), inc, Some(e.2), now);
                (files.update(k, nr), seen2, 1, None)
            },
        }
    }
}

/// The entries folded in order, stopping at the first unknown root.
pub open spec fn presence_fold(files: Seq<FileRecord>, seen: Seq<FileKey>, roots: Seq<crate::model::Root>, es: Seq<(FileKey, Fingerprint, FileLoc)>, now: Ts) -> (Seq<FileRecord>, Seq<FileKey>, nat, Option<i64>)
    decreases es.len(),
{
    if es.len() == 0 {
        (files, seen, 0, None)
    } else {
        let (f, sn, c, err) = presence_fold(files, seen, roots, es.drop_last(), now);
        if err is Some {
            (f, sn, c, err)
        } else {
            let (f2, sn2, c2, err2) = presence_step(f, sn, roots, es.last(), now);
            (f2, sn2, c + c2, err2)
        }
    }
}

pub open spec fn seen_view(o: Option<Vec<FileKey>>) -> Option<Seq<FileKey>> {
    match o {
        Some(v) => Some(v@),
        None => None,
    }
}

proof fn lemma_presence_fold_stops(files: Seq<FileRecord>, seen: Seq<FileKey>, roots: Seq<crate::model::Root>, es: Seq<(FileKey, Fingerprint, FileLoc)>, n: int, now: Ts)
    requires
        0 <= n <= es.len(),
        presence_fold(files, seen, roots, es.subrange(0, n), now).3 is Some,
    ensures
        presence_fold(files, seen, roots, es, now) == presence_fold(files, seen, roots, es.subrange(0, n), now),
    decreases es.len() - n,
{
    if n < es.len() {
        let m = es.subrange(0, n + 1);
        assert(m.drop_last() =~= es.subrange(0, n));
        lemma_presence_fold_stops(files, seen, roots, es, n + 1, now);
    } else {
        assert(es.subrange(0, n) =~= es);
    }
}

fn copy_keys(v: &Vec<FileKey>) -> (r: Vec<FileKey>)
    ensures
        r@ == v@,
{
    let mut out: Vec<FileKey> = Vec::new();
    let mut i: usize = 0;
    while i < v.len()
        invariant
            i <= v@.len(),
            out@ == v@.subrange(0, i as int),
        decreases v@.len() - i,
    {
        out.push(v[i]);
        assert(out@ =~= v@.subrange(0, i + 1));
        i = i + 1;
    }
    assert(v@.subrange(0, v@.len() as int) =~= v@);
    out
}

/// Records the entries of a presence scan as seen and restores the missing
/// rows they show present again. Returns how many rows were restored. A batch
/// that fails on an unregistered root leaves no trace: the rows and the seen
/// keys are those from before the batch.
pub fn presence_seen(s: &mut Store, seen: &Vec<(FileKey, Fingerprint, FileLoc)>, now: Ts) -> (r: Result<u64, RepoError>)
    requires
        seen@.len() < u64::MAX,
    ensures
        old(s).seen is None ==> (r matches Err(RepoError::Other(m)) && m@ == "presence_seen trước presence_begin"@) && *final(s) == *old(s),
        old(s).seen matches Some(sv) ==> {
            let (f, sn, c, err) = presence_fold(old(s).files@, sv@, old(s).roots@, seen@, now);
            &&& match err {
                None => r == Ok::<u64, RepoError>(c as u64) && final(s).files@ == f && seen_view(final(s).seen) == Some(sn),
                Some(root_id) => (r matches Err(RepoError::Constraint(m)) && m@ == unknown_root_message(root_id))
                    && final(s).files@ == old(s).files@ && seen_view(final(s).seen) == Some(sv@),
            }
        },
        final(s).groups == old(s).groups,
        final(s).next_id == old(s).next_id,
        final(s).journal == old(s).journal,
        final(s).events == old(s).events,
        final(s).roots == old(s).roots,
        final(s).volumes == old(s).volumes,
        final(s).scan == old(s).scan,
        final(s).meta == old(s).meta,
        final(s).notes == old(s).notes,
        final(s).durable_writes == old(s).durable_writes,
{
    let mut set: Vec<FileKey> = match s.seen.take() {
        Some(v) => v,
        None => {
            return Err(RepoError::Other("presence_seen trước presence_begin".to_owned()));
        },
    };
    let ghost f0 = s.files@;
    let ghost sv0 = set@;
    let ghost s0 = *s;
    let saved_files = super::lookup::copy_files(&s.files);
    let saved_set = copy_keys(&set);
    let mut restored: u64 = 0;
    let mut i: usize = 0;
    while i < seen.len()
        invariant
            i <= seen@.len(),
            seen@.len() < u64::MAX,
            restored <= i,
            s.seen is None,
            saved_files@ == f0,
            saved_set@ == sv0,
            old(s).seen is Some,
            sv0 == old(s).seen.unwrap()@,
            f0 == old(s).files@,
            (s.files@, set@, restored as nat, None::<i64>) == presence_fold(f0, sv0, s.roots@, seen@.subrange(0, i as int), now),
            s.groups == old(s).groups,
            s.next_id == old(s).next_id,
            s.journal == old(s).journal,
            s.events == old(s).events,
            s.roots == old(s).roots,
            s.volumes == old(s).volumes,
            s.scan == old(s).scan,
            s.meta == old(s).meta,
            s.notes == old(s).notes,
            s.durable_writes == old(s).durable_writes,
        decreases seen@.len() - i,
    {
        let ghost pre = seen@.subrange(0, i + 1);
        assert(pre.drop_last() =~= seen@.subrange(0, i as int));
        let key = seen[i].0;
        let fp = seen[i].1;
        set.push(key);
        if has_missing_key_exec(&s.files, &key) {
            let kind = match s.root_kind(seen[i].2.root_id) {
                Ok(k) => k,
                Err(e) => {
                    proof {
                        assert(pre.last() == seen@[i as int]);
                        assert(presence_fold(f0, sv0, s.roots@, pre, now) == (s.files@, set@, restored as nat, Some(seen@[i as int].2.root_id)));
                        lemma_presence_fold_stops(f0, sv0, s.roots@, seen@, i + 1, now);
                    }
                    s.files = saved_files;
                    s.seen = Some(saved_set);
                    return Err(e);
                },
            };
            proof {
                lemma_key_index(s.files@, key);
                let w = choose|q: int| 0 <= q < s.files@.len() && (#[trigger] s.files@[q]).key == key && s.files@[q].state == State::Missing;
                assert(s.files@[w].key == key);
            }
            match find_key(&s.files, &key) {
                Some(k) => {
                    let mut row = s.files[k].clone();
                    let incoming = Identity {
                        key,
                        domain_id: row.domain_id,
                        size: fp.size,
                        mtime_ns: fp.mtime_ns,
                        ctime_ns: fp.ctime_ns,
                        atime_ns: 0,
                        nlink: row.nlink,
                        uid: row.owner_uid,
                        mode: row.mode,
                        blocks: 0,
                        dev: 0,
                    };
                    let pr = row.priority;
                    let d = decide_upsert(&row, &incoming, kind, now, pr);
                    apply_upsert(&mut row, d, &incoming, Some(&seen[i].2), now);
                    s.files.set(k, row);
                    restored = restored + 1;
                },
                None => {},
            }
        }
        i = i + 1;
    }
    assert(seen@.subrange(0, seen@.len() as int) =~= seen@);
    s.seen = Some(set);
    Ok(restored)
}

/// What presence_finish does to one row of the root that the scan did not see:
/// a row not written since the scan began goes `missing`. A `missing` row
/// stays `missing`: only `presence_expire` turns it `gone`.
pub open spec fn finish_row(r: FileRecord, scan_id: Ts) -> FileRecord {
    if r.updated_at < scan_id {
        missing_row(r, scan_id)
    } else {
        r
    }
}

/// The row becomes `missing` at the end of the scan.
pub open spec fn finish_marks(r: FileRecord, scan_id: Ts) -> bool {
    r.state != State::Missing && r.state != State::Gone && r.updated_at < scan_id
}

/// What presence_expire does to one row: a row of the root `missing` since
/// before `cutoff` becomes `gone` at `now`.
pub open spec fn expire_row(r: FileRecord, root_id: i64, cutoff: Ts, now: Ts) -> FileRecord {
    if expires(r, root_id, cutoff) {
        FileRecord { state: State::Gone, updated_at: now, ..r }
    } else {
        r
    }
}

pub open spec fn expires(r: FileRecord, root_id: i64, cutoff: Ts) -> bool {
    r.loc.root_id == root_id && r.state == State::Missing && r.updated_at < cutoff
}

/// `a - b`, saturating at the bounds of `i64`.
pub open spec fn sat_sub_i64(a: i64, b: i64) -> int {
    if a - b < i64::MIN {
        i64::MIN as int
    } else if a - b > i64::MAX {
        i64::MAX as int
    } else {
        a - b
    }
}

/// `a - b`, saturating at the bounds of `i64`.
pub fn sat_sub(a: i64, b: i64) -> (r: i64)
    ensures
        r == sat_sub_i64(a, b),
{
    if b >= 0 {
        if a >= i64::MIN + b { a - b } else { i64::MIN }
    } else {
        if a <= i64::MAX + b { a - b } else { i64::MAX }
    }
}

pub open spec fn finish_applies(r: FileRecord, root_id: i64, seen: Seq<FileKey>) -> bool {
    r.loc.root_id == root_id && !seen.contains(r.key)
}

fn contains_key(v: &Vec<FileKey>, key: &FileKey) -> (r: bool)
    ensures
        r == v@.contains(*key),
{
    let mut i: usize = 0;
    while i < v.len()
        invariant
            i <= v@.len(),
            forall|k: int| 0 <= k < i ==> v@[k] != *key,
        decreases v@.len() - i,
    {
        if v[i].same(key) {
            assert(v@[i as int] == *key);
            return true;
        }
        i = i + 1;
    }
    false
}

/// Ends a presence scan of one root: rows it did not see go `missing`,
/// except those written during the walk. Never turns a row `gone`. Returns
/// how many rows became `missing`.
pub fn presence_finish(s: &mut Store, root_id: i64, scan_id: Ts) -> (r: Result<u64, RepoError>)
    requires
        old(s).files@.len() < u64::MAX,
    ensures
        old(s).seen is None ==> (r matches Err(RepoError::Other(m)) && m@ == "presence_finish trước presence_begin"@) && *final(s) == *old(s),
        old(s).seen matches Some(sv) ==> {
            &&& r matches Ok(n) && n as nat == count_finish(old(s).files@, root_id, sv@, scan_id)
            &&& final(s).seen is None
            &&& final(s).files@.len() == old(s).files@.len()
            &&& forall|i: int| 0 <= i < old(s).files@.len() ==> #[trigger] final(s).files@[i] == (if finish_applies(old(s).files@[i], root_id, sv@) {
                finish_row(old(s).files@[i], scan_id)
            } else {
                old(s).files@[i]
            })
        },
        final(s).groups == old(s).groups,
        final(s).next_id == old(s).next_id,
        final(s).journal == old(s).journal,
        final(s).events == old(s).events,
        final(s).roots == old(s).roots,
        final(s).volumes == old(s).volumes,
        final(s).scan == old(s).scan,
        final(s).meta == old(s).meta,
        final(s).notes == old(s).notes,
        final(s).durable_writes == old(s).durable_writes,
{
    let set: Vec<FileKey> = match s.seen.take() {
        Some(v) => v,
        None => {
            return Err(RepoError::Other("presence_finish trước presence_begin".to_owned()));
        },
    };
    let ghost f0 = s.files@;
    let ghost s0 = *s;
    let mut to_missing: u64 = 0;
    let mut i: usize = 0;
    while i < s.files.len()
        invariant
            s.files@.len() == f0.len(),
            f0.len() < u64::MAX,
            i <= f0.len(),
            to_missing <= i,
            to_missing as nat == count_finish(f0.subrange(0, i as int), root_id, set@, scan_id),
            s.seen is None,
            forall|k: int| 0 <= k < i ==> #[trigger] s.files@[k] == (if finish_applies(f0[k], root_id, set@) {
                finish_row(f0[k], scan_id)
            } else {
                f0[k]
            }),
            forall|k: int| i <= k < f0.len() ==> #[trigger] s.files@[k] == f0[k],
            s.groups == s0.groups,
            s.next_id == s0.next_id,
            s.journal == s0.journal,
            s.events == s0.events,
            s.roots == s0.roots,
            s.volumes == s0.volumes,
            s.scan == s0.scan,
            s.meta == s0.meta,
            s.notes == s0.notes,
            s.durable_writes == s0.durable_writes,
        decreases f0.len() - i,
    {
        assert(f0.subrange(0, i + 1).drop_last() =~= f0.subrange(0, i as int));
        if s.files[i].loc.root_id == root_id && !contains_key(&set, &s.files[i].key) {
            let st = s.files[i].state;
            if st != State::Missing && st != State::Gone && s.files[i].updated_at < scan_id {
                let mut r = s.files[i].clone();
                set_missing(&mut r, scan_id);
                s.files.set(i, r);
                to_missing = to_missing + 1;
            }
        }
        i = i + 1;
    }
    assert(f0.subrange(0, f0.len() as int) =~= f0);
    Ok(to_missing)
}

/// How many rows of `files` a presence scan of `root_id` that saw `seen`
/// turns `missing`.
pub open spec fn count_finish(files: Seq<FileRecord>, root_id: i64, seen: Seq<FileKey>, scan_id: Ts) -> nat
    decreases files.len(),
{
    if files.len() == 0 {
        0
    } else {
        count_finish(files.drop_last(), root_id, seen, scan_id) + (if finish_applies(files.last(), root_id, seen) && finish_marks(files.last(), scan_id) { 1nat } else { 0nat })
    }
}

/// How many rows `presence_expire` turns `gone`.
pub open spec fn count_expire(files: Seq<FileRecord>, root_id: i64, cutoff: Ts) -> nat
    decreases files.len(),
{
    if files.len() == 0 {
        0
    } else {
        count_expire(files.drop_last(), root_id, cutoff) + (if expires(files.last(), root_id, cutoff) { 1nat } else { 0nat })
    }
}

/// Rows of `root_id` `missing` since before `cutoff` become `gone` at `now`.
/// Needs no presence session. Returns how many rows became `gone`.
pub fn presence_expire(s: &mut Store, root_id: i64, cutoff: Ts, now: Ts) -> (r: u64)
    requires
        old(s).files@.len() < u64::MAX,
    ensures
        r as nat == count_expire(old(s).files@, root_id, cutoff),
        final(s).files@.len() == old(s).files@.len(),
        forall|i: int| 0 <= i < old(s).files@.len() ==> #[trigger] final(s).files@[i] == expire_row(old(s).files@[i], root_id, cutoff, now),
        final(s).groups == old(s).groups,
        final(s).next_id == old(s).next_id,
        final(s).seen == old(s).seen,
        only_rows_changed(old(s), final(s)),
{
    let ghost f0 = s.files@;
    let ghost s0 = *s;
    let mut n: u64 = 0;
    let mut i: usize = 0;
    while i < s.files.len()
        invariant
            s.files@.len() == f0.len(),
            f0.len() < u64::MAX,
            i <= f0.len(),
            n <= i,
            n as nat == count_expire(f0.subrange(0, i as int), root_id, cutoff),
            forall|k: int| 0 <= k < i ==> #[trigger] s.files@[k] == expire_row(f0[k], root_id, cutoff, now),
            forall|k: int| i <= k < f0.len() ==> #[trigger] s.files@[k] == f0[k],
            s.groups == s0.groups,
            s.next_id == s0.next_id,
            s.journal == s0.journal,
            s.events == s0.events,
            s.roots == s0.roots,
            s.volumes == s0.volumes,
            s.scan == s0.scan,
            s.meta == s0.meta,
            s.notes == s0.notes,
            s.seen == s0.seen,
            s.durable_writes == s0.durable_writes,
        decreases f0.len() - i,
    {
        assert(f0.subrange(0, i + 1).drop_last() =~= f0.subrange(0, i as int));
        if s.files[i].loc.root_id == root_id && s.files[i].state == State::Missing && s.files[i].updated_at < cutoff {
            let mut r = s.files[i].clone();
            r.state = State::Gone;
            r.updated_at = now;
            s.files.set(i, r);
            n = n + 1;
        }
        i = i + 1;
    }
    assert(f0.subrange(0, f0.len() as int) =~= f0);
    n
}

} // verus!
