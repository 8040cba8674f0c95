//! What the handler writes to the repository for each event, stated over the
//! repository's rows and groups before (`f0`, `g0`) and after (`f1`, `g1`).

use vstd::prelude::*;

use crate::model::{FileLoc, FileRecord, Group, Identity, Root, State, Ts};
use crate::repo::effects::{below_missing, prefix_moved, renamed_rows, restore_effect, upsert_effect};
use crate::repo::memory::lookup::{row_by_key, row_by_path};
use crate::repo::memory::watch::at_loc_missing;
use crate::repo::UpsertResult;

verus! {

/// Nothing was written.
pub open spec fn same_views(f0: Seq<FileRecord>, g0: Seq<Group>, f1: Seq<FileRecord>, g1: Seq<Group>) -> bool {
    f1 == f0 && g1 == g0
}

/// The rows at `loc`, then those below it, went `missing`.
pub open spec fn marked_missing_at(f0: Seq<FileRecord>, g0: Seq<Group>, loc: FileLoc, now: Ts, f1: Seq<FileRecord>, g1: Seq<Group>) -> bool {
    f1 == below_missing(at_loc_missing(f0, loc, now), loc, now) && g1 == g0
}

/// `loc` was cleared for the file `id`: a row of another key at `loc` moved
/// away with the file's own row brought to `loc` (when the file has a row),
/// or went `missing` (when it has none).
pub open spec fn cleared_for(f0: Seq<FileRecord>, g0: Seq<Group>, loc: FileLoc, id: Identity, now: Ts, f1: Seq<FileRecord>, g1: Seq<Group>) -> bool {
    match row_by_path(f0, loc) {
        Some(cu) => if cu.key != id.key {
            g1 == g0 && match row_by_key(f0, id.key) {
                Some(_) => f1 == renamed_rows(f0, id.key, loc, now),
                None => f1 == at_loc_missing(f0, loc, now),
            }
        } else {
            same_views(f0, g0, f1, g1)
        },
        None => same_views(f0, g0, f1, g1),
    }
}

/// The file `id` at `loc` was queued: `loc` cleared for it, then the upsert
/// with the deadline `ready_at` and the event priority 0.
pub open spec fn queued_at(f0: Seq<FileRecord>, g0: Seq<Group>, roots: Seq<Root>, loc: FileLoc, id: Identity, ready_at: Ts, now: Ts, f1: Seq<FileRecord>, g1: Seq<Group>) -> bool {
    exists|fm: Seq<FileRecord>, gm: Seq<Group>, u: UpsertResult|
        cleared_for(f0, g0, loc, id, now, fm, gm) && #[trigger] upsert_effect(fm, gm, roots, id, loc, ready_at, 0, now, u, f1, g1)
}

/// What a path found empty of its file leads to, whatever `statx` says is
/// there now: nothing, the rows at and below it marked missing, or a new
/// file there queued.
pub open spec fn removal_writes(f0: Seq<FileRecord>, g0: Seq<Group>, roots: Seq<Root>, loc: FileLoc, ready_at: Ts, now: Ts, f1: Seq<FileRecord>, g1: Seq<Group>) -> bool {
    ||| same_views(f0, g0, f1, g1)
    ||| marked_missing_at(f0, g0, loc, now, f1, g1)
    ||| exists|id: Identity| #[trigger] queued_at(f0, g0, roots, loc, id, ready_at, now, f1, g1)
}

/// A file of a known key renamed to `to`: its row moved there (and, when it
/// was `missing`, was restored), then the source path was left alone or its
/// rows marked missing.
pub open spec fn key_moved(f0: Seq<FileRecord>, g0: Seq<Group>, roots: Seq<Root>, from: FileLoc, to: FileLoc, id: Identity, now: Ts, f1: Seq<FileRecord>, g1: Seq<Group>) -> bool {
    row_by_key(f0, id.key) matches Some(row) && {
        let fm = renamed_rows(f0, id.key, to, now);
        exists|f2: Seq<FileRecord>, g2: Seq<Group>| {
            &&& #[trigger] restored_or_not(fm, g0, roots, row.state, id, now, f2, g2)
            &&& (same_views(f2, g2, f1, g1) || marked_missing_at(f2, g2, from, now, f1, g1))
        }
    }
}

pub open spec fn restored_or_not(f0: Seq<FileRecord>, g0: Seq<Group>, roots: Seq<Root>, st: State, id: Identity, now: Ts, f1: Seq<FileRecord>, g1: Seq<Group>) -> bool {
    if st == State::Missing {
        restore_effect(f0, g0, roots, id.key, id, now, f1, g1)
    } else {
        same_views(f0, g0, f1, g1)
    }
}

/// A new file renamed to `to`: the source path left alone or its rows marked
/// missing, then the file queued at `to`.
pub open spec fn new_at(f0: Seq<FileRecord>, g0: Seq<Group>, roots: Seq<Root>, from: FileLoc, to: FileLoc, id: Identity, ready_at: Ts, now: Ts, f1: Seq<FileRecord>, g1: Seq<Group>) -> bool {
    exists|f2: Seq<FileRecord>, g2: Seq<Group>| {
        &&& (same_views(f0, g0, f2, g2) || marked_missing_at(f0, g0, from, now, f2, g2))
        &&& #[trigger] queued_or_not(f2, g2, roots, to, id, ready_at, now, f1, g1)
    }
}

pub open spec fn queued_or_not(f0: Seq<FileRecord>, g0: Seq<Group>, roots: Seq<Root>, loc: FileLoc, id: Identity, ready_at: Ts, now: Ts, f1: Seq<FileRecord>, g1: Seq<Group>) -> bool {
    same_views(f0, g0, f1, g1) || queued_at(f0, g0, roots, loc, id, ready_at, now, f1, g1)
}

/// What a rename leads to, whatever `statx` says of the target: what a
/// removal of the source does; nothing; the rows below `from` moved below
/// `to` (a directory); the row of a known file moved to `to`; or a new file
/// queued at `to`.
pub open spec fn rename_writes(f0: Seq<FileRecord>, g0: Seq<Group>, roots: Seq<Root>, from: FileLoc, to: FileLoc, ready_at: Ts, now: Ts, f1: Seq<FileRecord>, g1: Seq<Group>) -> bool {
    ||| removal_writes(f0, g0, roots, from, ready_at, now, f1, g1)
    ||| prefix_moved(f0, f1, from, to, now) && g1 == g0
    ||| exists|id: Identity| #[trigger] key_moved(f0, g0, roots, from, to, id, now, f1, g1)
    ||| exists|id: Identity| #[trigger] new_at(f0, g0, roots, from, to, id, ready_at, now, f1, g1)
}

/// What a creation or a move-in leads to, whatever `statx` says: nothing, or
/// the file there queued.
pub open spec fn creation_writes(f0: Seq<FileRecord>, g0: Seq<Group>, roots: Seq<Root>, loc: FileLoc, ready_at: Ts, now: Ts, f1: Seq<FileRecord>, g1: Seq<Group>) -> bool {
    ||| same_views(f0, g0, f1, g1)
    ||| exists|id: Identity| #[trigger] queued_at(f0, g0, roots, loc, id, ready_at, now, f1, g1)
}

/// A modification pushed the deadline of the settling row of the file at
/// `loc`: one upsert of that row, nothing cleared.
pub open spec fn pushed_at(f0: Seq<FileRecord>, g0: Seq<Group>, roots: Seq<Root>, loc: FileLoc, id: Identity, ready_at: Ts, now: Ts, f1: Seq<FileRecord>, g1: Seq<Group>) -> bool {
    &&& row_by_key(f0, id.key) matches Some(row) && row.state == State::Settling && row.loc@ == loc@
    &&& exists|u: UpsertResult| #[trigger] upsert_effect(f0, g0, roots, id, loc, ready_at, 0, now, u, f1, g1)
}

/// What a modification leads to: nothing, or the deadline pushed.
pub open spec fn modify_writes(f0: Seq<FileRecord>, g0: Seq<Group>, roots: Seq<Root>, loc: FileLoc, ready_at: Ts, now: Ts, f1: Seq<FileRecord>, g1: Seq<Group>) -> bool {
    ||| same_views(f0, g0, f1, g1)
    ||| exists|id: Identity| #[trigger] pushed_at(f0, g0, roots, loc, id, ready_at, now, f1, g1)
}

} // verus!
