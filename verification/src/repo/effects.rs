//! What the repository's writes do to its rows and groups, stated over the
//! views that every implementation exposes.

use vstd::prelude::*;

use crate::model::{FileKey, FileLoc, FileRecord, Group, Identity, Root, State, Ts};
use crate::path::components;
use crate::repo::memory::queue::{drop_lost_canonical, key_index};
use crate::repo::memory::root_kind_spec;
use crate::repo::memory::watch::{join_comps, joined_path, missing_row, under_dir};
use crate::repo::rules::{fresh_row, upsert_decision, upserted_row};
use crate::repo::UpsertResult;

verus! {

/// `rename`: a row of another key at `new_loc` goes `missing`, then the row of
/// `key` moves to `new_loc`.
pub open spec fn renamed_rows(files: Seq<FileRecord>, key: FileKey, new_loc: FileLoc, now: Ts) -> Seq<FileRecord> {
    let f1 = Seq::new(files.len(), |i: int| if files[i].loc@ == new_loc@ && files[i].key != key { missing_row(files[i], now) } else { files[i] });
    let k = key_index(files, key);
    f1.update(k, FileRecord { loc: new_loc, updated_at: now, ..f1[k] })
}

/// `mark_missing_prefix`: every row below `dir` goes `missing`.
pub open spec fn below_missing(files: Seq<FileRecord>, dir: FileLoc, now: Ts) -> Seq<FileRecord> {
    Seq::new(files.len(), |i: int| if under_dir(files[i], dir) { missing_row(files[i], now) } else { files[i] })
}

/// `rename_prefix`: every row below `old_dir` moves below `new_dir`, keeping
/// the rest of its path; the other rows are unchanged.
pub open spec fn prefix_moved(before: Seq<FileRecord>, after: Seq<FileRecord>, old_dir: FileLoc, new_dir: FileLoc, now: Ts) -> bool {
    &&& after.len() == before.len()
    &&& forall|i: int| 0 <= i < before.len() ==> {
        let r0 = #[trigger] before[i];
        let r1 = after[i];
        if under_dir(r0, old_dir) {
            let c = components(r0.loc.rel_path@);
            let rest = join_comps(c.subrange(components(old_dir.rel_path@).len() as int, c.len() as int));
            &&& r1.loc.root_id == new_dir.root_id
            &&& r1.loc.rel_path@ == joined_path(new_dir.rel_path@, rest)
            &&& r1 == FileRecord { loc: r1.loc, updated_at: now, ..r0 }
        } else {
            r1 == r0
        }
    }
}

/// `upsert_pending` answered `u`: the row of the key follows the upsert rules
/// (its group loses it as canonical when it leaves), or a new row `u.id` is
/// appended. The root of `loc` is registered.
pub open spec fn upsert_effect(
    files: Seq<FileRecord>,
    groups: Seq<Group>,
    roots: Seq<Root>,
    id: Identity,
    loc: FileLoc,
    ready_at: Ts,
    priority: u8,
    now: Ts,
    u: UpsertResult,
    nf: Seq<FileRecord>,
    ng: Seq<Group>,
) -> bool {
    match root_kind_spec(roots, loc.root_id) {
        None => false,
        Some(kind) => {
            let k = key_index(files, id.key);
            if k >= 0 {
                let row = files[k];
                let d = upsert_decision(row, id, kind, ready_at, priority);
                let nr = upserted_row(row, d, id, Some(loc), now);
                &&& nf == files.update(k, nr)
                &&& ng == drop_lost_canonical(groups, row.id, row.group_id, nr.group_id)
                &&& u == (UpsertResult { id: row.id, dropped_as_self_event: d.fp_same && !crate::model::queued(nr.state) })
            } else {
                &&& nf == files.push(fresh_row(u.id, id, loc, ready_at, priority, now))
                &&& ng == groups
                &&& !u.dropped_as_self_event
            }
        },
    }
}

/// `restore_or_reset` succeeded: a `missing` row of the key follows the
/// upsert rules at its own path; any other row is left alone.
pub open spec fn restore_effect(files: Seq<FileRecord>, groups: Seq<Group>, roots: Seq<Root>, key: FileKey, id: Identity, now: Ts, nf: Seq<FileRecord>, ng: Seq<Group>) -> bool {
    let k = key_index(files, key);
    if k < 0 {
        nf == files && ng == groups
    } else {
        let row = files[k];
        match root_kind_spec(roots, row.loc.root_id) {
            None => false,
            Some(kind) => if row.state == State::Missing {
                let nr = upserted_row(row, upsert_decision(row, id, kind, now, row.priority), id, None, now);
                &&& nf == files.update(k, nr)
                &&& ng == drop_lost_canonical(groups, row.id, row.group_id, nr.group_id)
            } else {
                nf == files && ng == groups
            },
        }
    }
}

} // verus!
