//! `apply(Transition)` in memory: compare-and-swap, patch, group operation,
//! event and journal, all or nothing.

use vstd::prelude::*;

use crate::config::parse::int_chars;
use crate::model::{clone_opt_string, FileRecord, Group, Ts};
use crate::repo::types::{clone_opt_opt_string, DedupEvent, GroupOp, JournalRow, Patch, Transition};
use crate::repo::RepoError;

use super::{
    file_index, find_file, find_group, find_journal, group_index, journal_index, lemma_file_index,
    lemma_group_index, lemma_journal_index, message_with_number, Store,
};

verus! {

/// A row after a patch. `state_changes`: the transition changes the state,
/// and `heavy_wait_since` then becomes NULL unless the patch sets it.
pub open spec fn patched(r: FileRecord, p: Patch, state_changes: bool) -> FileRecord {
    FileRecord {
        ready_at: match p.ready_at {
            Some(v) => v,
            None => r.ready_at,
        },
        priority: match p.priority {
            Some(v) => v,
            None => r.priority,
        },
        attempts: match p.attempts {
            Some(v) => v,
            None => r.attempts,
        },
        heavy_wait_since: match p.heavy_wait_since {
            Some(v) => v,
            None => if state_changes {
                None
            } else {
                r.heavy_wait_since
            },
        },
        last_error: match p.last_error {
            Some(v) => v,
            None => r.last_error,
        },
        skip_reason: match p.skip_reason {
            Some(v) => v,
            None => r.skip_reason,
        },
        size: match p.identity {
            Some(id) => id.size,
            None => r.size,
        },
        mtime_ns: match p.identity {
            Some(id) => id.mtime_ns,
            None => r.mtime_ns,
        },
        ctime_ns: match p.identity {
            Some(id) => id.ctime_ns,
            None => r.ctime_ns,
        },
        nlink: match p.identity {
            Some(id) => id.nlink,
            None => r.nlink,
        },
        owner_uid: match p.identity {
            Some(id) => id.uid,
            None => r.owner_uid,
        },
        mode: match p.identity {
            Some(id) => id.mode,
            None => r.mode,
        },
        enq: match p.enq {
            Some(v) => v,
            None => r.enq,
        },
        magic_ok: match p.magic_ok {
            Some(v) => Some(v),
            None => r.magic_ok,
        },
        sparse_hash: match p.sparse_hash {
            Some(v) => v,
            None => r.sparse_hash,
        },
        hash_version: match p.hash_version {
            Some(v) => Some(v),
            None => r.hash_version,
        },
        full_hash: match p.full_hash {
            Some(v) => v,
            None => r.full_hash,
        },
        group_id: match p.group_id {
            Some(v) => v,
            None => r.group_id,
        },
        prev_state: match p.prev_state {
            Some(v) => v,
            None => r.prev_state,
        },
        duration_ms: match p.duration_ms {
            Some(v) => v,
            None => r.duration_ms,
        },
        ..r
    }
}

/// Writes a patch onto a row.
pub fn apply_patch(r: &mut FileRecord, p: &Patch, state_changes: bool)
    ensures
        *final(r) == patched(*old(r), *p, state_changes),
{
    let last_error = match &p.last_error {
        Some(v) => clone_opt_string(v),
        None => clone_opt_string(&r.last_error),
    };
    let skip_reason = match &p.skip_reason {
        Some(v) => clone_opt_string(v),
        None => clone_opt_string(&r.skip_reason),
    };
    let (size, mtime_ns, ctime_ns, nlink, owner_uid, mode) = match p.identity {
        Some(id) => (id.size, id.mtime_ns, id.ctime_ns, id.nlink, id.uid, id.mode),
        None => (r.size, r.mtime_ns, r.ctime_ns, r.nlink, r.owner_uid, r.mode),
    };
    let nr = FileRecord {
        id: r.id,
        key: r.key,
        domain_id: r.domain_id,
        loc: r.loc.clone(),
        owner_uid,
        mode,
        size,
        mtime_ns,
        ctime_ns,
        nlink,
        state: r.state,
        prev_state: match p.prev_state {
            Some(v) => v,
            None => r.prev_state,
        },
        ready_at: match p.ready_at {
            Some(v) => v,
            None => r.ready_at,
        },
        priority: match p.priority {
            Some(v) => v,
            None => r.priority,
        },
        heavy_wait_since: match p.heavy_wait_since {
            Some(v) => v,
            None => if state_changes {
                None
            } else {
                r.heavy_wait_since
            },
        },
        attempts: match p.attempts {
            Some(v) => v,
            None => r.attempts,
        },
        last_error,
        skip_reason,
        enq: match p.enq {
            Some(v) => v,
            None => r.enq,
        },
        magic_ok: match p.magic_ok {
            Some(v) => Some(v),
            None => r.magic_ok,
        },
        sparse_hash: match p.sparse_hash {
            Some(v) => v,
            None => r.sparse_hash,
        },
        hash_version: match p.hash_version {
            Some(v) => Some(v),
            None => r.hash_version,
        },
        full_hash: match p.full_hash {
            Some(v) => v,
            None => r.full_hash,
        },
        duration_ms: match p.duration_ms {
            Some(v) => v,
            None => r.duration_ms,
        },
        probe_status: clone_opt_string(&r.probe_status),
        group_id: match p.group_id {
            Some(v) => v,
            None => r.group_id,
        },
        first_seen_at: r.first_seen_at,
        last_seen_at: r.last_seen_at,
        updated_at: r.updated_at,
    };
    *r = nr;
}

/// Why a transition is refused before anything is written.
pub enum ApplyRefusal {
    /// The journal row does not exist.
    NoJournal(i64),
    /// A file of the group to create does not exist.
    NoGroupFile,
    /// The group does not exist.
    NoGroup(i64),
}

pub open spec fn refusal_message(k: ApplyRefusal) -> Seq<char> {
    match k {
        ApplyRefusal::NoJournal(j) => "journal "@ + int_chars(j as int) + " không tồn tại"@,
        ApplyRefusal::NoGroupFile => "file của group không tồn tại"@,
        ApplyRefusal::NoGroup(g) => "group "@ + int_chars(g as int) + " không tồn tại"@,
    }
}

/// A group op that refers to a missing row or group.
pub open spec fn group_op_refusal(files: Seq<FileRecord>, groups: Seq<Group>, row_id: i64, op: GroupOp) -> Option<ApplyRefusal> {
    match op {
        GroupOp::Create { canonical, .. } => if file_index(files, row_id) < 0 || file_index(
            files,
            canonical,
        ) < 0 {
            Some(ApplyRefusal::NoGroupFile)
        } else {
            None
        },
        GroupOp::Join(g) | GroupOp::Leave(g) => if group_index(groups, g) < 0 {
            Some(ApplyRefusal::NoGroup(g))
        } else {
            None
        },
        GroupOp::SetCanonical { group, .. } | GroupOp::Verified { group, .. } => if group_index(
            groups,
            group,
        ) < 0 {
            Some(ApplyRefusal::NoGroup(group))
        } else {
            None
        },
    }
}

/// A patch that points a row at a missing group.
pub open spec fn patch_refusal(groups: Seq<Group>, p: Patch) -> Option<ApplyRefusal> {
    match p.group_id {
        Some(Some(g)) => if group_index(groups, g) < 0 {
            Some(ApplyRefusal::NoGroup(g))
        } else {
            None
        },
        _ => None,
    }
}

/// The first refusal among the patches of the other rows.
pub open spec fn others_refusal(groups: Seq<Group>, others: Seq<(i64, crate::model::State, crate::model::State, Patch)>) -> Option<ApplyRefusal>
    decreases others.len(),
{
    if others.len() == 0 {
        None
    } else {
        match others_refusal(groups, others.drop_last()) {
            Some(k) => Some(k),
            None => patch_refusal(groups, others.last().3),
        }
    }
}

/// The first reason to refuse the whole transition, checked in order:
/// journal, group op, own patch, patches of the other rows.
pub open spec fn apply_refusal(s: &Store, t: Transition) -> Option<ApplyRefusal> {
    let j = match t.journal {
        Some((jid, _)) => if journal_index(s.journal@, jid) < 0 {
            Some(ApplyRefusal::NoJournal(jid))
        } else {
            None
        },
        None => None,
    };
    let g = match t.group {
        Some(op) => group_op_refusal(s.files@, s.groups@, t.id, op),
        None => None,
    };
    if j is Some {
        j
    } else if g is Some {
        g
    } else if patch_refusal(s.groups@, t.patch) is Some {
        patch_refusal(s.groups@, t.patch)
    } else {
        others_refusal(s.groups@, t.others@)
    }
}

/// A row after a successful compare-and-swap.
pub open spec fn cas_row(r: FileRecord, p: Patch, from: crate::model::State, to: crate::model::State, now: Ts) -> FileRecord {
    FileRecord { state: to, updated_at: now, ..patched(r, p, from != to) }
}

/// The compare-and-swap of one other row: applied when the row exists and
/// still has the expected state, skipped otherwise.
pub open spec fn other_step(files: Seq<FileRecord>, o: (i64, crate::model::State, crate::model::State, Patch), now: Ts) -> Seq<FileRecord> {
    let j = file_index(files, o.0);
    if j >= 0 && files[j].state == o.1 {
        files.update(j, cas_row(files[j], o.3, o.1, o.2, now))
    } else {
        files
    }
}

pub open spec fn others_applied(files: Seq<FileRecord>, others: Seq<(i64, crate::model::State, crate::model::State, Patch)>, now: Ts) -> Seq<FileRecord>
    decreases others.len(),
{
    if others.len() == 0 {
        files
    } else {
        other_step(others_applied(files, others.drop_last(), now), others.last(), now)
    }
}

/// Sets the group of the first row with id `id`, if there is one.
pub open spec fn set_group_of(files: Seq<FileRecord>, id: i64, g: Option<i64>) -> Seq<FileRecord> {
    let j = file_index(files, id);
    if j >= 0 {
        files.update(j, FileRecord { group_id: g, ..files[j] })
    } else {
        files
    }
}

/// Files, groups and id counter after a group operation on row `row_id`.
pub open spec fn group_op_applied(files: Seq<FileRecord>, groups: Seq<Group>, next_id: i64, row_id: i64, op: GroupOp, now: Ts) -> (Seq<FileRecord>, Seq<Group>, i64) {
    match op {
        GroupOp::Create { canonical, sparse_hash, hash_version } => {
            let i = file_index(files, row_id);
            if i < 0 || next_id == i64::MAX {
                (files, groups, next_id)
            } else {
                let gid = (next_id + 1) as i64;
                let grp = Group {
                    id: gid,
                    domain_id: files[i].domain_id,
                    size: files[i].size,
                    sparse_hash,
                    hash_version,
                    full_hash: None,
                    canonical_file_id: Some(canonical),
                    verified_at: None,
                    created_at: now,
                };
                (set_group_of(set_group_of(files, row_id, Some(gid)), canonical, Some(gid)), groups.push(grp), gid)
            }
        },
        GroupOp::Join(g) => (set_group_of(files, row_id, Some(g)), groups, next_id),
        GroupOp::SetCanonical { group, file } => {
            let gi = group_index(groups, group);
            let groups2 = if gi >= 0 {
                groups.update(gi, Group { canonical_file_id: Some(file), ..groups[gi] })
            } else {
                groups
            };
            (set_group_of(files, file, Some(group)), groups2, next_id)
        },
        GroupOp::Leave(g) => {
            let gi = group_index(groups, g);
            let groups2 = if gi >= 0 && groups[gi].canonical_file_id == Some(row_id) {
                groups.update(gi, Group { canonical_file_id: None, ..groups[gi] })
            } else {
                groups
            };
            (set_group_of(files, row_id, None), groups2, next_id)
        },
        GroupOp::Verified { group, full_hash } => {
            let gi = group_index(groups, group);
            let groups2 = if gi >= 0 {
                groups.update(
                    gi,
                    Group {
                        verified_at: match groups[gi].verified_at {
                            Some(v) => Some(v),
                            None => Some(now),
                        },
                        full_hash: match groups[gi].full_hash {
                            Some(h) => Some(h),
                            None => full_hash,
                        },
                        ..groups[gi]
                    },
                )
            } else {
                groups
            };
            (files, groups2, next_id)
        },
    }
}

/// The note of an event recorded for a transition that lost the race.
pub open spec fn raced_note(note: Option<String>) -> Seq<char> {
    match note {
        Some(n) => n@ + " | state_raced"@,
        None => "state_raced"@,
    }
}

/// The journal after closing row `jid` with state `st` at `now`.
pub open spec fn journal_closed(j: Seq<JournalRow>, jid: i64, st: crate::model::JournalState, now: Ts) -> Seq<JournalRow> {
    let k = journal_index(j, jid);
    if k >= 0 {
        j.update(k, JournalRow { state: st, updated_at: now, ..j[k] })
    } else {
        j
    }
}

/// Whether the compare-and-swap of the transition's own row succeeds.
pub open spec fn cas_ok(files: Seq<FileRecord>, t: Transition) -> bool {
    file_index(files, t.id) >= 0 && files[file_index(files, t.id)].state == t.from
}

/// Files, groups and id counter after a transition that was not refused.
pub open spec fn apply_rows(s: &Store, t: Transition) -> (Seq<FileRecord>, Seq<Group>, i64) {
    let files = s.files@;
    if cas_ok(files, t) {
        let i = file_index(files, t.id);
        let f1 = files.update(i, cas_row(files[i], t.patch, t.from, t.to, t.now));
        let f2 = others_applied(f1, t.others@, t.now);
        match t.group {
            Some(op) => group_op_applied(f2, s.groups@, s.next_id, t.id, op, t.now),
            None => (f2, s.groups@, s.next_id),
        }
    } else {
        (files, s.groups@, s.next_id)
    }
}

/// The journal after the transition.
pub open spec fn apply_journal(s: &Store, t: Transition) -> Seq<JournalRow> {
    match t.journal {
        Some((jid, st)) => journal_closed(s.journal@, jid, st, t.now),
        None => s.journal@,
    }
}

/// The store is as before, apart from what `apply` may write.
pub open spec fn untouched_by_apply(a: &Store, b: &Store) -> bool {
    &&& b.volumes == a.volumes
    &&& b.roots == a.roots
    &&& b.scan == a.scan
    &&& b.meta == a.meta
    &&& b.notes == a.notes
    &&& b.seen == a.seen
    &&& b.durable_writes == a.durable_writes
}

fn check_group_exists(s: &Store, g: i64) -> (r: Result<(), RepoError>)
    ensures
        group_index(s.groups@, g) >= 0 ==> r is Ok,
        group_index(s.groups@, g) < 0 ==> (r matches Err(RepoError::Constraint(m)) && m@ == refusal_message(ApplyRefusal::NoGroup(g))),
{
    match find_group(&s.groups, g) {
        Some(_) => Ok(()),
        None => Err(RepoError::Constraint(message_with_number("group ", g, " không tồn tại"))),
    }
}

fn check_patch(s: &Store, p: &Patch) -> (r: Result<(), RepoError>)
    ensures
        match patch_refusal(s.groups@, *p) {
            Some(k) => r matches Err(RepoError::Constraint(m)) && m@ == refusal_message(k),
            None => r is Ok,
        },
{
    match p.group_id {
        Some(Some(g)) => check_group_exists(s, g),
        _ => Ok(()),
    }
}

fn check_group_op(s: &Store, row_id: i64, op: &GroupOp) -> (r: Result<(), RepoError>)
    ensures
        match group_op_refusal(s.files@, s.groups@, row_id, *op) {
            Some(k) => r matches Err(RepoError::Constraint(m)) && m@ == refusal_message(k),
            None => r is Ok,
        },
{
    match op {
        GroupOp::Create { canonical, .. } => {
            if find_file(&s.files, row_id).is_none() || find_file(&s.files, *canonical).is_none() {
                return Err(RepoError::Constraint("file của group không tồn tại".to_owned()));
            }
            Ok(())
        },
        GroupOp::Join(g) | GroupOp::Leave(g) => check_group_exists(s, *g),
        GroupOp::SetCanonical { group, .. } | GroupOp::Verified { group, .. } => check_group_exists(
            s,
            *group,
        ),
    }
}

fn set_group_exec(files: &mut Vec<FileRecord>, id: i64, g: Option<i64>)
    ensures
        final(files)@ == set_group_of(old(files)@, id, g),
{
    match find_file(files, id) {
        Some(j) => {
            let mut r = files[j].clone();
            r.group_id = g;
            files.set(j, r);
        },
        None => {},
    }
}

fn apply_group_op(s: &mut Store, row_id: i64, op: GroupOp, now: Ts)
    ensures
        (final(s).files@, final(s).groups@, final(s).next_id) == group_op_applied(
            old(s).files@,
            old(s).groups@,
            old(s).next_id,
            row_id,
            op,
            now,
        ),
        final(s).journal == old(s).journal,
        final(s).events == old(s).events,
        untouched_by_apply(old(s), final(s)),
{
    match op {
        GroupOp::Create { canonical, sparse_hash, hash_version } => {
            let i = match find_file(&s.files, row_id) {
                Some(i) => i,
                None => {
                    return;
                },
            };
            let domain_id = s.files[i].domain_id;
            let size = s.files[i].size;
            let gid = match s.alloc_id() {
                Some(g) => g,
                None => {
                    return;
                },
            };
            s.groups.push(
                Group {
                    id: gid,
                    domain_id,
                    size,
                    sparse_hash,
                    hash_version,
                    full_hash: None,
                    canonical_file_id: Some(canonical),
                    verified_at: None,
                    created_at: now,
                },
            );
            set_group_exec(&mut s.files, row_id, Some(gid));
            set_group_exec(&mut s.files, canonical, Some(gid));
        },
        GroupOp::Join(g) => {
            set_group_exec(&mut s.files, row_id, Some(g));
        },
        GroupOp::SetCanonical { group, file } => {
            match find_group(&s.groups, group) {
                Some(gi) => {
                    let mut grp = s.groups[gi];
                    grp.canonical_file_id = Some(file);
                    s.groups.set(gi, grp);
                },
                None => {},
            }
            set_group_exec(&mut s.files, file, Some(group));
        },
        GroupOp::Leave(g) => {
            set_group_exec(&mut s.files, row_id, None);
            match find_group(&s.groups, g) {
                Some(gi) => {
                    if s.groups[gi].canonical_file_id == Some(row_id) {
                        let mut grp = s.groups[gi];
                        grp.canonical_file_id = None;
                        s.groups.set(gi, grp);
                    }
                },
                None => {},
            }
        },
        GroupOp::Verified { group, full_hash } => {
            match find_group(&s.groups, group) {
                Some(gi) => {
                    let mut grp = s.groups[gi];
                    grp.verified_at = match grp.verified_at {
                        Some(v) => Some(v),
                        None => Some(now),
                    };
                    grp.full_hash = match grp.full_hash {
                        Some(h) => Some(h),
                        None => full_hash,
                    };
                    s.groups.set(gi, grp);
                },
                None => {},
            }
        },
    }
}


/// `after` is `before` with `ev` recorded, its note marking a lost race when
/// the compare-and-swap failed.
pub open spec fn event_recorded(before: Seq<DedupEvent>, after: Seq<DedupEvent>, ev: DedupEvent, ok: bool) -> bool {
    &&& after.len() == before.len() + 1
    &&& after.subrange(0, before.len() as int) == before
    &&& ok ==> after.last() == ev
    &&& !ok ==> (after.last().note matches Some(n) && n@ == raced_note(ev.note) && after.last()
        == DedupEvent { note: after.last().note, ..ev })
}

fn others_refused(s: &Store, t: &Transition) -> (r: Result<(), RepoError>)
    ensures
        match others_refusal(s.groups@, t.others@) {
            Some(k) => r matches Err(RepoError::Constraint(m)) && m@ == refusal_message(k),
            None => r is Ok,
        },
{
    let mut k: usize = 0;
    while k < t.others.len()
        invariant
            k <= t.others@.len(),
            others_refusal(s.groups@, t.others@.subrange(0, k as int)) is None,
        decreases t.others@.len() - k,
    {
        let ghost pre = t.others@.subrange(0, k + 1);
        assert(pre.drop_last() =~= t.others@.subrange(0, k as int));
        match check_patch(s, &t.others[k].3) {
            Ok(()) => {},
            Err(e) => {
                proof {
                    lemma_others_refusal_prefix(s.groups@, t.others@, k + 1);
                }
                return Err(e);
            },
        }
        k = k + 1;
    }
    assert(t.others@.subrange(0, t.others@.len() as int) =~= t.others@);
    Ok(())
}

proof fn lemma_others_refusal_prefix(groups: Seq<Group>, others: Seq<(i64, crate::model::State, crate::model::State, Patch)>, n: int)
    requires
        0 <= n <= others.len(),
        others_refusal(groups, others.subrange(0, n)) is Some,
    ensures
        others_refusal(groups, others) == others_refusal(groups, others.subrange(0, n)),
    decreases others.len() - n,
{
    if n < others.len() {
        let m = others.subrange(0, n + 1);
        assert(m.drop_last() =~= others.subrange(0, n));
        lemma_others_refusal_prefix(groups, others, n + 1);
    } else {
        assert(others.subrange(0, n) =~= others);
    }
}

/// Applies a transition as one transaction: nothing is written when it is
/// refused; otherwise the compare-and-swap of its row decides whether the
/// patch, the other rows and the group operation are written, while the
/// event (marked when the race was lost) and the journal are always written.
/// Returns whether the compare-and-swap succeeded.
pub fn apply(s: &mut Store, t: &Transition) -> (r: Result<bool, RepoError>)
    ensures
        match apply_refusal(old(s), *t) {
            Some(k) => (r matches Err(RepoError::Constraint(m)) && m@ == refusal_message(k))
                && *final(s) == *old(s),
            None => {
                &&& r == Ok::<bool, RepoError>(cas_ok(old(s).files@, *t))
                &&& (final(s).files@, final(s).groups@, final(s).next_id) == apply_rows(old(s), *t)
                &&& final(s).journal@ == apply_journal(old(s), *t)
                &&& match t.event {
                    Some(ev) => event_recorded(old(s).events@, final(s).events@, ev, cas_ok(old(s).files@, *t)),
                    None => final(s).events@ == old(s).events@,
                }
                &&& untouched_by_apply(old(s), final(s))
            },
        },
{
    match t.journal {
        Some((jid, _)) => {
            if find_journal(&s.journal, jid).is_none() {
                return Err(RepoError::Constraint(message_with_number("journal ", jid, " không tồn tại")));
            }
        },
        None => {},
    }
    match &t.group {
        Some(op) => {
            match check_group_op(s, t.id, op) {
                Ok(()) => {},
                Err(e) => {
                    return Err(e);
                },
            }
        },
        None => {},
    }
    match check_patch(s, &t.patch) {
        Ok(()) => {},
        Err(e) => {
            return Err(e);
        },
    }
    match others_refused(s, t) {
        Ok(()) => {},
        Err(e) => {
            return Err(e);
        },
    }
    let ghost s0 = *s;
    let ok = match find_file(&s.files, t.id) {
        Some(i) => {
            if s.files[i].state == t.from {
                let mut row = s.files[i].clone();
                apply_patch(&mut row, &t.patch, t.from != t.to);
                row.state = t.to;
                row.updated_at = t.now;
                s.files.set(i, row);
                true
            } else {
                false
            }
        },
        None => false,
    };
    assert(ok == cas_ok(s0.files@, *t));
    if ok {
        let ghost f1 = s.files@;
        let mut k: usize = 0;
        while k < t.others.len()
            invariant
                k <= t.others@.len(),
                s.files@ == others_applied(f1, t.others@.subrange(0, k as int), t.now),
                s.groups == s0.groups,
                s.next_id == s0.next_id,
                s.journal == s0.journal,
                s.events == s0.events,
                untouched_by_apply(&s0, s),
            decreases t.others@.len() - k,
        {
            let ghost pre = t.others@.subrange(0, k + 1);
            assert(pre.drop_last() =~= t.others@.subrange(0, k as int));
            let id = t.others[k].0;
            let from = t.others[k].1;
            let to = t.others[k].2;
            match find_file(&s.files, id) {
                Some(j) => {
                    if s.files[j].state == from {
                        let mut row = s.files[j].clone();
                        apply_patch(&mut row, &t.others[k].3, from != to);
                        row.state = to;
                        row.updated_at = t.now;
                        s.files.set(j, row);
                    }
                },
                None => {},
            }
            k = k + 1;
        }
        assert(t.others@.subrange(0, t.others@.len() as int) =~= t.others@);
        match t.group {
            Some(op) => {
                apply_group_op(s, t.id, op, t.now);
            },
            None => {},
        }
    }
    let ghost s1 = *s;
    match &t.event {
        Some(ev) => {
            let mut e = ev.clone();
            if !ok {
                let note: String = match &ev.note {
                    Some(n) => {
                        let mut v = crate::text::chars_of(n.as_str());
                        let tail = crate::text::chars_of(" | state_raced");
                        let ghost head = v@;
                        let mut q: usize = 0;
                        while q < tail.len()
                            invariant
                                q <= tail@.len(),
                                v@ == head + tail@.subrange(0, q as int),
                            decreases tail@.len() - q,
                        {
                            v.push(tail[q]);
                            q = q + 1;
                        }
                        assert(tail@.subrange(0, tail@.len() as int) =~= tail@);
                        crate::text::string_of(&v)
                    },
                    None => "state_raced".to_owned(),
                };
                e.note = Some(note);
            }
            s.events.push(e);
        },
        None => {},
    }
    match t.journal {
        Some((jid, st)) => {
            match find_journal(&s.journal, jid) {
                Some(k) => {
                    let mut j = s.journal[k].clone();
                    j.state = st;
                    j.updated_at = t.now;
                    s.journal.set(k, j);
                },
                None => {},
            }
        },
        None => {},
    }
    proof {
        if t.event is Some {
            assert(s.events@.subrange(0, s1.events@.len() as int) =~= s1.events@);
        }
    }
    Ok(ok)
}

} // verus!
