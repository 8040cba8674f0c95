//! The rows of the store have distinct ids and distinct keys, and no id above
//! the id counter: what every operation of the store keeps.

use vstd::prelude::*;

use crate::model::{FileRecord, Group, Ts};
use crate::model::FileKey;
use crate::repo::rules::fresh_row;
use crate::repo::types::ScanRow;

use super::apply::{apply_rows, cas_ok, cas_row, group_op_applied, other_step, others_applied, set_group_of};
use super::watch::{has_missing_key, presence_fold, presence_identity};
use super::root_kind_spec;
use crate::repo::rules::{upsert_decision, upserted_row};
use super::queue::{key_index, lemma_key_index, scan_inserted, scan_row};
use super::{file_index, lemma_file_index, Store};

verus! {

/// No two rows share an id or a key.
pub open spec fn rows_unique(f: Seq<FileRecord>) -> bool {
    forall|i: int, j: int| #![trigger f[i], f[j]] 0 <= i < j < f.len() ==> f[i].id != f[j].id && f[i].key != f[j].key
}

/// Distinct ids and keys, every id at most `next_id`.
pub open spec fn rows_wf(f: Seq<FileRecord>, next_id: i64) -> bool {
    &&& rows_unique(f)
    &&& forall|i: int| 0 <= i < f.len() ==> #[trigger] f[i].id <= next_id
}

/// The well-formedness of the store: its rows have distinct ids and keys,
/// none above the id counter.
pub open spec fn store_wf(s: &Store) -> bool {
    rows_wf(s.files@, s.next_id)
}

/// `b` holds rows with the ids and keys of `a`, in the same places.
pub open spec fn same_ids_keys(a: Seq<FileRecord>, b: Seq<FileRecord>) -> bool {
    &&& a.len() == b.len()
    &&& forall|i: int| 0 <= i < a.len() ==> (#[trigger] b[i]).id == a[i].id && b[i].key == a[i].key
}

pub proof fn lemma_same_shape(a: Seq<FileRecord>, b: Seq<FileRecord>, n0: i64, n1: i64)
    requires
        rows_wf(a, n0),
        same_ids_keys(a, b),
        n0 <= n1,
    ensures
        rows_wf(b, n1),
{
    assert forall|i: int, j: int| 0 <= i < j < b.len() implies b[i].id != b[j].id && b[i].key != b[j].key by {
        assert(a[i].id != a[j].id && a[i].key != a[j].key);
    }
    assert forall|i: int| 0 <= i < b.len() implies #[trigger] b[i].id <= n1 by {
        assert(a[i].id <= n0);
    }
}

pub proof fn lemma_push_fresh(a: Seq<FileRecord>, n0: i64, x: FileRecord)
    requires
        rows_wf(a, n0),
        key_index(a, x.key) < 0,
        x.id > n0,
    ensures
        rows_wf(a.push(x), x.id),
{
    lemma_key_index(a, x.key);
    let b = a.push(x);
    assert forall|i: int, j: int| 0 <= i < j < b.len() implies b[i].id != b[j].id && b[i].key != b[j].key by {
        if j < a.len() {
            assert(a[i].id != a[j].id && a[i].key != a[j].key);
        } else {
            assert(b[j] == x);
            assert(a[i].id <= n0);
            assert(a[i].key != x.key);
        }
    }
    assert forall|i: int| 0 <= i < b.len() implies #[trigger] b[i].id <= x.id by {
        if i < a.len() {
            assert(a[i].id <= n0);
        }
    }
}

pub proof fn lemma_update_shape(a: Seq<FileRecord>, j: int, r: FileRecord)
    requires
        0 <= j < a.len(),
        r.id == a[j].id,
        r.key == a[j].key,
    ensures
        same_ids_keys(a, a.update(j, r)),
{
}

pub proof fn lemma_same_trans(a: Seq<FileRecord>, b: Seq<FileRecord>, c: Seq<FileRecord>)
    requires
        same_ids_keys(a, b),
        same_ids_keys(b, c),
    ensures
        same_ids_keys(a, c),
{
    assert forall|i: int| 0 <= i < a.len() implies (#[trigger] c[i]).id == a[i].id && c[i].key == a[i].key by {
        assert(b[i].id == a[i].id);
    }
}

pub proof fn lemma_set_group_shape(f: Seq<FileRecord>, id: i64, g: Option<i64>)
    ensures
        same_ids_keys(f, set_group_of(f, id, g)),
{
    lemma_file_index(f, id);
}

pub proof fn lemma_others_shape(f: Seq<FileRecord>, others: Seq<(i64, crate::model::State, crate::model::State, crate::repo::types::Patch)>, now: Ts)
    ensures
        same_ids_keys(f, others_applied(f, others, now)),
    decreases others.len(),
{
    if others.len() > 0 {
        let f1 = others_applied(f, others.drop_last(), now);
        lemma_others_shape(f, others.drop_last(), now);
        lemma_file_index(f1, others.last().0);
        assert(same_ids_keys(f1, other_step(f1, others.last(), now)));
        lemma_same_trans(f, f1, other_step(f1, others.last(), now));
    }
}

pub proof fn lemma_group_op_shape(f: Seq<FileRecord>, groups: Seq<Group>, next_id: i64, row_id: i64, op: crate::repo::types::GroupOp, now: Ts)
    ensures
        same_ids_keys(f, group_op_applied(f, groups, next_id, row_id, op, now).0),
        group_op_applied(f, groups, next_id, row_id, op, now).2 >= next_id,
{
    match op {
        crate::repo::types::GroupOp::Create { canonical, .. } => {
            let i = file_index(f, row_id);
            if !(i < 0 || next_id == i64::MAX) {
                let gid = (next_id + 1) as i64;
                let f1 = set_group_of(f, row_id, Some(gid));
                lemma_set_group_shape(f, row_id, Some(gid));
                lemma_set_group_shape(f1, canonical, Some(gid));
                lemma_same_trans(f, f1, set_group_of(f1, canonical, Some(gid)));
            }
        },
        crate::repo::types::GroupOp::Join(g) => {
            lemma_set_group_shape(f, row_id, Some(g));
        },
        crate::repo::types::GroupOp::SetCanonical { group, file } => {
            lemma_set_group_shape(f, file, Some(group));
        },
        crate::repo::types::GroupOp::Leave(g) => {
            lemma_set_group_shape(f, row_id, None);
        },
        crate::repo::types::GroupOp::Verified { .. } => {},
    }
}

pub proof fn lemma_apply_rows(s: &Store, t: crate::repo::types::Transition)
    requires
        store_wf(s),
    ensures
        rows_wf(apply_rows(s, t).0, apply_rows(s, t).2),
        apply_rows(s, t).2 >= s.next_id,
{
    let files = s.files@;
    if cas_ok(files, t) {
        let i = file_index(files, t.id);
        lemma_file_index(files, t.id);
        let f1 = files.update(i, cas_row(files[i], t.patch, t.from, t.to, t.now));
        lemma_update_shape(files, i, cas_row(files[i], t.patch, t.from, t.to, t.now));
        let f2 = others_applied(f1, t.others@, t.now);
        lemma_others_shape(f1, t.others@, t.now);
        lemma_same_trans(files, f1, f2);
        match t.group {
            Some(op) => {
                lemma_group_op_shape(f2, s.groups@, s.next_id, t.id, op, t.now);
                lemma_same_trans(files, f2, group_op_applied(f2, s.groups@, s.next_id, t.id, op, t.now).0);
                lemma_same_shape(files, apply_rows(s, t).0, s.next_id, apply_rows(s, t).2);
            },
            None => {
                lemma_same_shape(files, f2, s.next_id, s.next_id);
            },
        }
    }
}

pub proof fn lemma_scan_inserted(files: Seq<FileRecord>, next_id: i64, rows: Seq<ScanRow>, now: Ts)
    requires
        rows_wf(files, next_id),
    ensures
        rows_wf(scan_inserted(files, next_id, rows, now).0, scan_inserted(files, next_id, rows, now).1),
        scan_inserted(files, next_id, rows, now).1 >= next_id,
    decreases rows.len(),
{
    if rows.len() > 0 {
        lemma_scan_inserted(files, next_id, rows.drop_last(), now);
        let (f, n, c) = scan_inserted(files, next_id, rows.drop_last(), now);
        let r = rows.last();
        if !(key_index(f, r.id.key) >= 0 || n == i64::MAX) {
            lemma_push_fresh(f, n, scan_row((n + 1) as i64, r, now));
        }
    }
}

pub proof fn lemma_presence_fold_shape(files: Seq<FileRecord>, seen: Seq<FileKey>, roots: Seq<crate::model::Root>, es: Seq<(FileKey, crate::model::Fingerprint, crate::model::FileLoc)>, now: Ts)
    ensures
        same_ids_keys(files, presence_fold(files, seen, roots, es, now).0),
    decreases es.len(),
{
    if es.len() > 0 {
        lemma_presence_fold_shape(files, seen, roots, es.drop_last(), now);
        let (f, sn, c, err) = presence_fold(files, seen, roots, es.drop_last(), now);
        if err is None {
            let e = es.last();
            if has_missing_key(f, e.0) {
                match root_kind_spec(roots, e.2.root_id) {
                    Some(kind) => {
                        let k = key_index(f, e.0);
                        lemma_key_index(f, e.0);
                        let w = choose|q: int| 0 <= q < f.len() && (#[trigger] f[q]).key == e.0 && f[q].state == crate::model::State::Missing;
                        assert(f[w].key == e.0);
                        let row = f[k];
                        let inc = presence_identity(row, e.0, e.1);
                        let nr = upserted_row(row, upsert_decision(row, inc, kind, now, row.priority), inc, Some(e.2), now);
                        lemma_update_shape(f, k, nr);
                        lemma_same_trans(files, f, f.update(k, nr));
                    },
                    None => {},
                }
            }
        }
    }
}

/// A subsequence of rows kept by a filter keeps them distinct.
pub proof fn lemma_filter_wf(f: Seq<FileRecord>, n: i64, pred: spec_fn(FileRecord) -> bool)
    requires
        rows_wf(f, n),
    ensures
        rows_wf(f.filter(pred), n),
    decreases f.len(),
{
    reveal(Seq::filter);
    if f.len() > 0 {
        let d = f.drop_last();
        assert forall|i: int, j: int| 0 <= i < j < d.len() implies d[i].id != d[j].id && d[i].key != d[j].key by {
            assert(f[i] == d[i] && f[j] == d[j]);
        }
        assert forall|i: int| 0 <= i < d.len() implies #[trigger] d[i].id <= n by {
            assert(f[i] == d[i]);
        }
        lemma_filter_wf(d, n, pred);
        let g = d.filter(pred);
        if pred(f.last()) {
            let x = f.last();
            assert forall|k: int| 0 <= k < g.len() implies g[k].id != x.id && g[k].key != x.key by {
                assert(g.contains(g[k]));
                d.lemma_filter_contains_rev(pred, g[k]);
                assert(d.contains(g[k]));
                let m = choose|m: int| 0 <= m < d.len() && d[m] == g[k];
                assert(f[m] == d[m]);
                assert(f[m].id != f[f.len() - 1].id && f[m].key != f[f.len() - 1].key);
            }
            let b = g.push(x);
            assert forall|i: int, j: int| 0 <= i < j < b.len() implies b[i].id != b[j].id && b[i].key != b[j].key by {
                if j < g.len() {
                    assert(g[i].id != g[j].id && g[i].key != g[j].key);
                } else {
                    assert(b[j] == x);
                    assert(b[i] == g[i]);
                }
            }
            assert forall|i: int| 0 <= i < b.len() implies #[trigger] b[i].id <= n by {
                if i < g.len() {
                    assert(g[i].id <= n);
                } else {
                    assert(f[f.len() - 1].id <= n);
                }
            }
            assert(f.filter(pred) == b);
        } else {
            assert(f.filter(pred) == g);
        }
    }
}

} // verus!
