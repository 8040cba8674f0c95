//! Placing a hashed file in a group, backfilling candidate hashes, electing
//! the canonical file.
//!
//! A group is a hypothesis: files with the same `(domain, size, sparse_hash)`.
//! Only the verify step turns it into a fact, byte by byte.

use vstd::prelude::*;

use crate::config::ScopeCfg;
use crate::dedupe::Deduper;
use crate::filter::magic;
use crate::fs::{FileSystem, OpenedFile};
use crate::hash::{sparse_hash, HashParams, HASH_VERSION};
use crate::model::{digest_eq, fingerprint_of, record_fingerprint, skip_name, FileRecord, Group, Identity, SkipReason, State, Ts};
use crate::repo::memory::lookup::{candidates_spec, group_has_key, groups_with_key, members_of, pending_same_size_spec};
use crate::repo::memory::{file_index, find_file, lemma_file_index};
use crate::repo::types::{empty_patch, Patch};
use crate::repo::{GroupOp, Repository, Scope, Transition};
use crate::throttle::IoGovernor;

use super::sized::patch_bo_qua;
use super::{about, applies, duoi_file, next_heavy, text_is, times_fit, StepCtx, StepError, StepOutcome, TIME_SPAN};

verus! {

/// The configured scope as a repository scope.
pub open spec fn scope_of(s: ScopeCfg) -> Scope {
    match s {
        ScopeCfg::Owner => Scope::Owner,
        ScopeCfg::Share => Scope::Share,
        ScopeCfg::SameDomain => Scope::SameDomain,
    }
}

pub fn scope_tu_config(s: ScopeCfg) -> (r: Scope)
    ensures
        r == scope_of(s),
{
    match s {
        ScopeCfg::Owner => Scope::Owner,
        ScopeCfg::Share => Scope::Share,
        ScopeCfg::SameDomain => Scope::SameDomain,
    }
}

/// `o` applies a transition of row `id` with exactly `patch` and the group
/// operation `op`, and nothing else.
pub open spec fn applies_group(o: StepOutcome, id: i64, from: State, to: State, patch: Patch, op: GroupOp, now: Ts) -> bool {
    o matches StepOutcome::Apply(t) && t.id == id && t.from == from && t.to == to && t.now == now && t.patch == patch
        && t.group == Some(op) && t.event is None && t.journal is None && t.others@.len() == 0
}

/// The row is neither `missing` nor `gone`.
pub open spec fn alive(r: FileRecord) -> bool {
    !(r.state == State::Missing || r.state == State::Gone)
}

/// The canonical row of a group among its members.
pub open spec fn canonical_among(members: Seq<FileRecord>, canonical: Option<i64>) -> Option<FileRecord> {
    match canonical {
        Some(id) => if file_index(members, id) >= 0 {
            Some(members[file_index(members, id)])
        } else {
            None
        },
        None => None,
    }
}

/// What joining an existing group `g` decides, given its canonical row: a
/// live canonical means `hashed`, waiting to be verified against it (or
/// `canonical` when the row is that canonical); a group without a live
/// canonical gets this row as canonical, with no I/O at all.
pub open spec fn join_ok(o: StepOutcome, rec_id: i64, g: i64, canonical: Option<FileRecord>, now: Ts) -> bool {
    match canonical {
        Some(c) if alive(c) => if c.id == rec_id {
            applies(o, rec_id, State::Sized, State::Canonical, Patch { group_id: Some(Some(g)), ready_at: Some(None), ..empty_patch() }, now)
        } else {
            applies(o, rec_id, State::Sized, State::Hashed, Patch { group_id: Some(Some(g)), ready_at: Some(Some(now)), ..empty_patch() }, now)
        },
        _ => applies_group(o, rec_id, State::Sized, State::Canonical, Patch { group_id: Some(Some(g)), ready_at: Some(None), ..empty_patch() },
            GroupOp::SetCanonical { group: g, file: rec_id }, now),
    }
}

pub fn vao_nhom(rec_id: i64, g: i64, canonical: Option<&FileRecord>, now: Ts) -> (r: StepOutcome)
    ensures
        join_ok(r, rec_id, g, match canonical { Some(c) => Some(*c), None => None }, now),
{
    match canonical {
        Some(c) => {
            if !(c.state == State::Missing || c.state == State::Gone) {
                if c.id == rec_id {
                    return StepOutcome::apply(Transition::new(
                        rec_id,
                        State::Sized,
                        State::Canonical,
                        Patch::new().group_id(Some(g)).ready_at(None),
                        now,
                    ));
                }
                return StepOutcome::apply(Transition::new(
                    rec_id,
                    State::Sized,
                    State::Hashed,
                    Patch::new().group_id(Some(g)).ready_at(Some(now)),
                    now,
                ));
            }
        },
        None => {},
    }
    StepOutcome::apply(Transition::new(
        rec_id,
        State::Sized,
        State::Canonical,
        Patch::new().group_id(Some(g)).ready_at(None),
        now,
    ).with_group(GroupOp::SetCanonical { group: g, file: rec_id }))
}

/// The row already has its hash: join the first group of its key when there
/// is one, else look for candidates. Only the first group is considered: the
/// verify step moves a row to a later group of the same key when the contents
/// differ, and going back to the first would loop forever.
pub fn xep_cho<'a, R: Repository, F: FileSystem, D: Deduper, G: IoGovernor>(ctx: &StepCtx<'a, R, F, D>, gov: &mut G, rec: &FileRecord, h: [u8; 32]) -> (r: Result<StepOutcome, StepError>)
    requires
        times_fit(ctx.now, ctx.timing.settle_delay.0),
        rec.state == State::Sized,
    ensures
        r matches Ok(o) ==> {
            &&& about(o, *rec, ctx.now)
            &&& o matches StepOutcome::Apply(t) ==> t.patch.sparse_hash is None
            &&& {
                let gs = groups_with_key(ctx.repo.groups_view(), rec.domain_id, rec.size, h);
                gs.len() > 0 ==> join_ok(o, rec.id, gs[0].id, canonical_among(members_of(ctx.repo.files_view(), gs[0].id), gs[0].canonical_file_id), ctx.now)
            }
        },
{
    let groups = match ctx.repo.groups_by_key(&rec.domain_id, rec.size, &h) {
        Ok(v) => v,
        Err(e) => {
            return Err(StepError::Repo(e));
        },
    };
    if groups.len() > 0 {
        let g = groups[0];
        let members = match ctx.repo.group_members(g.id) {
            Ok(v) => v,
            Err(e) => {
                return Err(StepError::Repo(e));
            },
        };
        proof {
            lemma_file_index(members@, g.canonical_file_id.unwrap_or(0));
        }
        let canonical = match g.canonical_file_id {
            Some(id) => match find_file(&members, id) {
                Some(k) => Some(&members[k]),
                None => None,
            },
            None => None,
        };
        return Ok(vao_nhom(rec.id, g.id, canonical, ctx.now));
    }
    tim_ung_vien(ctx, gov, rec, h)
}

/// `(now - delay)` milliseconds in nanoseconds, saturating at the bounds of `i64`.
pub open spec fn settled_before_ns(now: Ts, delay: i64) -> i64 {
    let x = now - delay;
    if x * 1_000_000 > i64::MAX {
        i64::MAX
    } else if x * 1_000_000 < i64::MIN {
        i64::MIN
    } else {
        (x * 1_000_000) as i64
    }
}

fn settled_before(now: Ts, delay: i64) -> (r: i64)
    requires
        times_fit(now, delay),
    ensures
        r == settled_before_ns(now, delay),
{
    let x = now - delay;
    if x > 9223372036854 {
        i64::MAX
    } else if x < -9223372036854 {
        i64::MIN
    } else {
        x * 1_000_000
    }
}

/// Index of the first candidate without a hash, or -1.
pub open spec fn first_unhashed(c: Seq<FileRecord>, i: int) -> int
    decreases c.len() - i,
{
    if i < 0 || i >= c.len() {
        -1
    } else if c[i].sparse_hash is None {
        i
    } else {
        first_unhashed(c, i + 1)
    }
}

proof fn lemma_first_unhashed(c: Seq<FileRecord>, i: int)
    requires
        0 <= i <= c.len(),
    ensures
        -1 <= first_unhashed(c, i) < c.len(),
        first_unhashed(c, i) >= 0 ==> c[first_unhashed(c, i)].sparse_hash is None,
        first_unhashed(c, i) == -1 ==> forall|k: int| i <= k < c.len() ==> (#[trigger] c[k]).sparse_hash is Some,
    decreases c.len() - i,
{
    if i < c.len() {
        lemma_first_unhashed(c, i + 1);
    }
}

fn find_unhashed(c: &Vec<FileRecord>) -> (r: Option<usize>)
    ensures
        match r {
            Some(i) => i as int == first_unhashed(c@, 0) && i < c@.len(),
            None => first_unhashed(c@, 0) == -1,
        },
{
    proof {
        lemma_first_unhashed(c@, 0);
    }
    let mut i: usize = 0;
    while i < c.len()
        invariant
            i <= c@.len(),
            first_unhashed(c@, 0) == first_unhashed(c@, i as int),
        decreases c@.len() - i,
    {
        if c[i].sparse_hash.is_none() {
            return Some(i);
        }
        i = i + 1;
    }
    None
}

pub open spec fn hash_pred(h: [u8; 32]) -> spec_fn(FileRecord) -> bool {
    |c: FileRecord| c.sparse_hash == Some(h)
}

/// The candidates whose hash is `h`, in order.
pub open spec fn same_hash(c: Seq<FileRecord>, h: [u8; 32]) -> Seq<FileRecord> {
    c.filter(hash_pred(h))
}

fn find_same_hash(c: &Vec<FileRecord>, h: &[u8; 32]) -> (r: Vec<FileRecord>)
    ensures
        r@ == same_hash(c@, *h),
{
    let mut out: Vec<FileRecord> = Vec::new();
    let mut i: usize = 0;
    while i < c.len()
        invariant
            i <= c@.len(),
            out@ == same_hash(c@.subrange(0, i as int), *h),
        decreases c@.len() - i,
    {
        proof {
            let pre = c@.subrange(0, i as int);
            pre.lemma_filter_push(c@[i as int], hash_pred(*h));
            assert(c@.subrange(0, i + 1) =~= pre.push(c@[i as int]));
        }
        let hit = match c[i].sparse_hash {
            Some(x) => digest_eq(&x, h),
            None => false,
        };
        if hit {
            out.push(c[i].clone());
        }
        i = i + 1;
    }
    assert(c@.subrange(0, c@.len() as int) =~= c@);
    out
}

/// What the candidates decide once they all have a hash: no candidate with
/// the same hash makes the row `distinct` (keeping its hash, so a later file
/// of the same size compares at once); otherwise a group is created.
pub open spec fn after_candidates_ok(o: StepOutcome, rec: FileRecord, cands: Seq<FileRecord>, h: [u8; 32], now: Ts) -> bool {
    let trung = same_hash(cands, h);
    if trung.len() == 0 {
        applies(o, rec.id, State::Sized, State::Distinct, Patch { ready_at: Some(None), ..empty_patch() }, now)
    } else {
        tao_nhom_ok(o, rec, trung, h, now)
    }
}

/// No group yet: look for candidates of the same `(domain, size)`. A file of
/// that size still settling may be the duplicate: wait for it rather than
/// conclude `distinct` and take it back later. Candidates without a hash are
/// read first, one per round.
pub fn tim_ung_vien<'a, R: Repository, F: FileSystem, D: Deduper, G: IoGovernor>(ctx: &StepCtx<'a, R, F, D>, gov: &mut G, rec: &FileRecord, h: [u8; 32]) -> (r: Result<StepOutcome, StepError>)
    requires
        times_fit(ctx.now, ctx.timing.settle_delay.0),
        rec.state == State::Sized,
    ensures
        r matches Ok(o) ==> {
            &&& about(o, *rec, ctx.now)
            &&& o matches StepOutcome::Apply(t) ==> t.patch.sparse_hash is None
            &&& {
                let scope = scope_of(ctx.policy.scope);
                let den = pending_same_size_spec(ctx.repo.files_view(), *rec, scope);
                let cands = candidates_spec(ctx.repo.files_view(), *rec, scope, settled_before_ns(ctx.now, ctx.timing.settle_delay.0), ctx.policy.max_size_group);
                if den is Some && den.unwrap() > ctx.now {
                    o == (StepOutcome::Defer { until: den.unwrap(), reason: "chờ file cùng kích thước ổn định" })
                } else if first_unhashed(cands, 0) >= 0 {
                    !ctx.allow_heavy ==> o == (StepOutcome::Defer { until: next_heavy(ctx.next_heavy_at, ctx.now), reason: "chờ khung giờ để backfill hash ứng viên" })
                } else {
                    after_candidates_ok(o, *rec, cands, h, ctx.now)
                }
            }
        },
{
    let now = ctx.now;
    let settled = settled_before(now, ctx.timing.settle_delay.0);
    let scope = scope_tu_config(ctx.policy.scope);
    let den = match ctx.repo.pending_same_size(rec, scope) {
        Ok(d) => d,
        Err(e) => {
            return Err(StepError::Repo(e));
        },
    };
    match den {
        Some(d) => {
            if d > now {
                return Ok(StepOutcome::Defer { until: d, reason: "chờ file cùng kích thước ổn định" });
            }
        },
        None => {},
    }
    let cands = match ctx.repo.candidates(rec, scope, settled, ctx.policy.max_size_group) {
        Ok(v) => v,
        Err(e) => {
            return Err(StepError::Repo(e));
        },
    };
    match find_unhashed(&cands) {
        Some(i) => {
            if !ctx.allow_heavy {
                return Ok(ctx.hen_khung_nang("chờ khung giờ để backfill hash ứng viên"));
            }
            return backfill(ctx, gov, rec, &cands[i]);
        },
        None => {},
    }
    let trung = find_same_hash(&cands, &h);
    if trung.len() == 0 {
        return Ok(StepOutcome::apply(Transition::new(rec.id, State::Sized, State::Distinct, Patch::new().ready_at(None), now)));
    }
    Ok(tao_nhom(rec, &trung, h, now))
}

/// What was found on opening a candidate.
pub enum ViecCanLam {
    /// It is gone.
    MatTich,
    /// It changed since it was recorded.
    DaDoi(Identity),
    /// It is no longer eligible.
    BoQua(SkipReason),
    /// Its sparse hash.
    CoHash([u8; 32]),
}

/// What `sua_ung_vien` does to the candidate `c`: `(to, patch)`; for a skip
/// the patch's reason is checked apart.
pub open spec fn candidate_change(c: FileRecord, viec: ViecCanLam, now: Ts, delay: i64) -> (State, Patch) {
    match viec {
        ViecCanLam::MatTich => (State::Missing, Patch { prev_state: Some(Some(c.state)), ready_at: Some(None), ..empty_patch() }),
        ViecCanLam::DaDoi(id) => (State::Settling, Patch {
            identity: Some(id),
            sparse_hash: Some(None),
            full_hash: Some(None),
            group_id: Some(None),
            ready_at: Some(Some((now + delay) as Ts)),
            ..empty_patch()
        }),
        ViecCanLam::BoQua(_) => (State::Skipped, Patch { ready_at: Some(None), ..empty_patch() }),
        ViecCanLam::CoHash(h) => (c.state, Patch { sparse_hash: Some(Some(h)), hash_version: Some(HASH_VERSION), magic_ok: Some(true), ..empty_patch() }),
    }
}

/// `o` fixes the candidate `c` in the same transaction as the row, which stays
/// `sized` and runs again at once.
pub open spec fn fixes_candidate(o: StepOutcome, rec_id: i64, c: FileRecord, viec: ViecCanLam, now: Ts, delay: i64) -> bool {
    o matches StepOutcome::Apply(t) && {
        let (to, patch) = candidate_change(c, viec, now, delay);
        &&& t.id == rec_id && t.from == State::Sized && t.to == State::Sized && t.now == now
        &&& t.patch == (Patch { ready_at: Some(Some(now)), heavy_wait_since: Some(None), ..empty_patch() })
        &&& t.group is None && t.event is None && t.journal is None
        &&& t.others@.len() == 1
        &&& t.others@[0].0 == c.id && t.others@[0].1 == c.state && t.others@[0].2 == to
        &&& match viec {
            ViecCanLam::BoQua(why) => t.others@[0].3 == (Patch { skip_reason: t.others@[0].3.skip_reason, ..patch })
                && text_is(t.others@[0].3.skip_reason, skip_name(why)),
            _ => t.others@[0].3 == patch,
        }
    }
}

/// Fixes a candidate in the same transaction as the row (one `apply`: two
/// would leave half a change behind when the second fails).
pub fn sua_ung_vien(rec_id: i64, c: &FileRecord, viec: ViecCanLam, now: Ts, delay: i64) -> (r: StepOutcome)
    requires
        times_fit(now, delay),
    ensures
        fixes_candidate(r, rec_id, *c, viec, now, delay),
{
    let (to, patch) = match viec {
        ViecCanLam::MatTich => (State::Missing, Patch::new().prev_state(Some(c.state)).ready_at(None)),
        ViecCanLam::DaDoi(id) => (
            State::Settling,
            Patch::new().identity(id).sparse_hash(None).full_hash(None).group_id(None).ready_at(Some(now + delay)),
        ),
        ViecCanLam::BoQua(why) => (State::Skipped, patch_bo_qua(why)),
        ViecCanLam::CoHash(h) => (c.state, Patch::new().sparse_hash(Some(h)).hash_version(HASH_VERSION).magic_ok(true)),
    };
    StepOutcome::apply(
        Transition::new(rec_id, State::Sized, State::Sized, Patch::new().ready_at(Some(now)).heavy_wait_since(None), now).with_other(
            c.id,
            c.state,
            to,
            patch,
        ),
    )
}

/// Reads one candidate and records its hash (one per round, so that the work
/// is committed often). A candidate that vanished, changed, became a hardlink
/// or has a bad magic is fixed instead.
pub fn backfill<'a, R: Repository, F: FileSystem, D: Deduper, G: IoGovernor>(ctx: &StepCtx<'a, R, F, D>, gov: &mut G, rec: &FileRecord, c: &FileRecord) -> (r: Result<StepOutcome, StepError>)
    requires
        times_fit(ctx.now, ctx.timing.settle_delay.0),
        rec.state == State::Sized,
    ensures
        r matches Ok(o) ==> exists|viec: ViecCanLam| #[trigger] fixes_candidate(o, rec.id, *c, viec, ctx.now, ctx.timing.settle_delay.0),
{
    let now = ctx.now;
    let delay = ctx.timing.settle_delay.0;
    let f = match ctx.fs.open(&c.loc) {
        Ok(f) => f,
        Err(e) => {
            if e.is_not_found() {
                return Ok(sua_ung_vien(rec.id, c, ViecCanLam::MatTich, now, delay));
            }
            return Err(StepError::Fs(e));
        },
    };
    let id = *f.identity();
    if id.fingerprint() != c.fingerprint() {
        return Ok(sua_ung_vien(rec.id, c, ViecCanLam::DaDoi(id), now, delay));
    }
    if id.nlink > 1 {
        return Ok(sua_ung_vien(rec.id, c, ViecCanLam::BoQua(SkipReason::Hardlink), now, delay));
    }
    if c.magic_ok.is_none() {
        let ext = duoi_file(c.loc.rel_path.as_str());
        let verdict = match magic::kiem_file(ext.as_str(), &f) {
            Ok(v) => v,
            Err(e) => {
                return Err(StepError::Fs(e));
            },
        };
        if !verdict.cho_qua() {
            return Ok(sua_ung_vien(rec.id, c, ViecCanLam::BoQua(SkipReason::BadMagic), now, delay));
        }
    }
    let params = match HashParams::from_config(ctx.hash) {
        Ok(p) => p,
        Err(e) => {
            return Err(StepError::Hash(e));
        },
    };
    let h = match sparse_hash(params, &f, id.size, gov) {
        Ok(h) => h,
        Err(e) => {
            return Err(StepError::Hash(e));
        },
    };
    Ok(sua_ung_vien(rec.id, c, ViecCanLam::CoHash(h), now, delay))
}

/// `a` comes strictly before `b` as an origin: older `mtime_ns`, then older
/// `first_seen_at`, then smaller inode, then smaller id.
pub open spec fn origin_before(a: FileRecord, b: FileRecord) -> bool {
    if a.mtime_ns != b.mtime_ns {
        a.mtime_ns < b.mtime_ns
    } else if a.first_seen_at != b.first_seen_at {
        a.first_seen_at < b.first_seen_at
    } else if a.key.ino != b.key.ino {
        a.key.ino < b.key.ino
    } else {
        a.id < b.id
    }
}

fn origin_before_exec(a: &FileRecord, b: &FileRecord) -> (r: bool)
    ensures
        r == origin_before(*a, *b),
{
    if a.mtime_ns != b.mtime_ns {
        a.mtime_ns < b.mtime_ns
    } else if a.first_seen_at != b.first_seen_at {
        a.first_seen_at < b.first_seen_at
    } else if a.key.ino != b.key.ino {
        a.key.ino < b.key.ino
    } else {
        a.id < b.id
    }
}

/// The oldest of `best` and the rows of `s`; on a full tie the earlier one stays.
pub open spec fn oldest(best: FileRecord, s: Seq<FileRecord>) -> FileRecord
    decreases s.len(),
{
    if s.len() == 0 {
        best
    } else {
        let b = oldest(best, s.drop_last());
        if origin_before(s.last(), b) {
            s.last()
        } else {
            b
        }
    }
}

proof fn lemma_origin_trans(a: FileRecord, b: FileRecord, c: FileRecord)
    requires
        origin_before(a, b),
        origin_before(b, c),
    ensures
        origin_before(a, c),
{
}

/// Nothing in `s` (nor `best`) comes strictly before `oldest(best, s)`, and it
/// is `best` or a row of `s`.
pub proof fn lemma_oldest(best: FileRecord, s: Seq<FileRecord>)
    ensures
        !origin_before(best, oldest(best, s)),
        forall|k: int| 0 <= k < s.len() ==> !origin_before(#[trigger] s[k], oldest(best, s)),
        oldest(best, s) == best || exists|k: int| 0 <= k < s.len() && s[k] == oldest(best, s),
    decreases s.len(),
{
    if s.len() > 0 {
        let t = s.drop_last();
        lemma_oldest(best, t);
        let b = oldest(best, t);
        let m = oldest(best, s);
        if origin_before(s.last(), b) {
            if origin_before(best, m) {
                lemma_origin_trans(best, m, b);
            }
            assert forall|k: int| 0 <= k < s.len() implies !origin_before(#[trigger] s[k], m) by {
                if k < s.len() - 1 {
                    assert(s[k] == t[k]);
                    if origin_before(s[k], m) {
                        lemma_origin_trans(s[k], m, b);
                    }
                }
            }
            assert(s[s.len() - 1] == m);
        } else {
            assert forall|k: int| 0 <= k < s.len() implies !origin_before(#[trigger] s[k], m) by {
                if k < s.len() - 1 {
                    assert(s[k] == t[k]);
                }
            }
            if b != best {
                let k = choose|k: int| 0 <= k < t.len() && t[k] == b;
                assert(s[k] == b);
            }
        }
    }
}

/// `prefer_origin = "oldest"`: the canonical is the oldest of the row and the
/// matching candidates; ties broken by `first_seen_at`, inode, then id, so
/// that two workers always elect the same file.
pub fn chon_canonical(rec: &FileRecord, trung: &Vec<FileRecord>) -> (r: i64)
    ensures
        r == oldest(*rec, trung@).id,
{
    let mut best: &FileRecord = rec;
    let mut i: usize = 0;
    while i < trung.len()
        invariant
            i <= trung@.len(),
            *best == oldest(*rec, trung@.subrange(0, i as int)),
        decreases trung@.len() - i,
    {
        proof {
            let nxt = trung@.subrange(0, i + 1);
            assert(nxt.drop_last() =~= trung@.subrange(0, i as int));
            assert(nxt.last() == trung@[i as int]);
        }
        if origin_before_exec(&trung[i], best) {
            best = &trung[i];
        }
        i = i + 1;
    }
    assert(trung@.subrange(0, trung@.len() as int) =~= trung@);
    best.id
}

/// What `tao_nhom` does to one matching candidate when `goc` is the canonical.
pub open spec fn member_change(c: FileRecord, goc: i64, now: Ts) -> (i64, State, State, Patch) {
    if c.id == goc {
        (c.id, c.state, State::Canonical, Patch { ready_at: Some(None), ..empty_patch() })
    } else {
        (c.id, c.state, State::Hashed, Patch { ready_at: Some(Some(now)), ..empty_patch() })
    }
}

pub open spec fn member_changes(trung: Seq<FileRecord>, goc: i64, now: Ts) -> Seq<(i64, State, State, Patch)> {
    Seq::new(trung.len(), |i: int| member_change(trung[i], goc, now))
}

/// Creating a group: the oldest file is canonical; the others become `hashed`
/// to be verified against it, all in one transaction.
pub open spec fn tao_nhom_ok(o: StepOutcome, rec: FileRecord, trung: Seq<FileRecord>, h: [u8; 32], now: Ts) -> bool {
    let goc = oldest(rec, trung).id;
    o matches StepOutcome::Apply(t) && {
        &&& t.id == rec.id && t.from == State::Sized && t.now == now
        &&& t.group == Some(GroupOp::Create { canonical: goc, sparse_hash: h, hash_version: HASH_VERSION })
        &&& t.event is None && t.journal is None
        &&& t.others@ == member_changes(trung, goc, now)
        &&& if goc == rec.id {
            t.to == State::Canonical && t.patch == (Patch { ready_at: Some(None), ..empty_patch() })
        } else {
            t.to == State::Hashed && t.patch == (Patch { ready_at: Some(Some(now)), ..empty_patch() })
        }
    }
}

/// Matching candidates found: create the group and elect its canonical.
pub fn tao_nhom(rec: &FileRecord, trung: &Vec<FileRecord>, h: [u8; 32], now: Ts) -> (r: StepOutcome)
    ensures
        tao_nhom_ok(r, *rec, trung@, h, now),
{
    let goc = chon_canonical(rec, trung);
    let tao = GroupOp::Create { canonical: goc, sparse_hash: h, hash_version: HASH_VERSION };
    let mut t = if goc == rec.id {
        Transition::new(rec.id, State::Sized, State::Canonical, Patch::new().ready_at(None), now).with_group(tao)
    } else {
        Transition::new(rec.id, State::Sized, State::Hashed, Patch::new().ready_at(Some(now)), now).with_group(tao)
    };
    let ghost t0 = t;
    let mut i: usize = 0;
    while i < trung.len()
        invariant
            i <= trung@.len(),
            goc == oldest(*rec, trung@).id,
            t.id == t0.id && t.from == t0.from && t.to == t0.to && t.patch == t0.patch && t.now == t0.now,
            t.group == t0.group && t.event == t0.event && t.journal == t0.journal,
            t.others@ == member_changes(trung@, goc, now).subrange(0, i as int),
        decreases trung@.len() - i,
    {
        let c = &trung[i];
        let (to, ready) = if c.id == goc {
            (State::Canonical, None)
        } else {
            (State::Hashed, Some(now))
        };
        t = t.with_other(c.id, c.state, to, Patch::new().ready_at(ready));
        assert(t.others@ =~= member_changes(trung@, goc, now).subrange(0, i + 1));
        i = i + 1;
    }
    assert(member_changes(trung@, goc, now).subrange(0, trung@.len() as int) =~= member_changes(trung@, goc, now));
    StepOutcome::apply(t)
}

pub open spec fn deduped_pred() -> spec_fn(FileRecord) -> bool {
    |m: FileRecord| m.state == State::Deduped
}

/// The new canonical of a group that lost its own: the oldest `deduped`
/// member (byte-identical to the old canonical), or none.
pub open spec fn reelected(members: Seq<FileRecord>) -> Option<i64> {
    let d = members.filter(deduped_pred());
    if d.len() == 0 {
        None
    } else {
        Some(oldest(d[0], d.subrange(1, d.len() as int)).id)
    }
}

/// Elects a new canonical for a group that lost its own: the oldest
/// `deduped` member, which was verified equal to the old canonical, so the
/// contents of the group do not change. `None` leaves the pointer empty: the
/// first `hashed` member to be verified takes the role without reading.
pub fn bau_lai_canonical<R: Repository>(repo: &R, group: i64) -> (r: Result<Option<i64>, StepError>)
    ensures
        r matches Ok(o) ==> o == reelected(members_of(repo.files_view(), group)),
{
    let members = match repo.group_members(group) {
        Ok(v) => v,
        Err(e) => {
            return Err(StepError::Repo(e));
        },
    };
    let mut d: Vec<FileRecord> = Vec::new();
    let mut i: usize = 0;
    while i < members.len()
        invariant
            i <= members@.len(),
            d@ == members@.subrange(0, i as int).filter(deduped_pred()),
        decreases members@.len() - i,
    {
        proof {
            let pre = members@.subrange(0, i as int);
            pre.lemma_filter_push(members@[i as int], deduped_pred());
            assert(members@.subrange(0, i + 1) =~= pre.push(members@[i as int]));
        }
        if members[i].state == State::Deduped {
            d.push(members[i].clone());
        }
        i = i + 1;
    }
    assert(members@.subrange(0, members@.len() as int) =~= members@);
    if d.len() == 0 {
        return Ok(None);
    }
    let mut best: &FileRecord = &d[0];
    let mut k: usize = 1;
    while k < d.len()
        invariant
            1 <= k <= d@.len(),
            *best == oldest(d@[0], d@.subrange(1, k as int)),
        decreases d@.len() - k,
    {
        proof {
            let nxt = d@.subrange(1, k + 1);
            assert(nxt.drop_last() =~= d@.subrange(1, k as int));
            assert(nxt.last() == d@[k as int]);
        }
        if origin_before_exec(&d[k], best) {
            best = &d[k];
        }
        k = k + 1;
    }
    Ok(Some(best.id))
}

} // verus!
