//! The handler of normalized filesystem events: coalescing, rename pairing,
//! the queue cap, and the repository calls of each kind of event.
//!
//! The rule of the whole module: no row is marked `missing` by path without
//! positive evidence. A path in a watcher event is an observation up to two
//! seconds old, and another file may have taken the place meanwhile; so each
//! write by path asks `statx` again, and only "not found" counts as evidence.

pub mod dem;
pub mod ghep;
pub mod gom;
pub mod rename;
pub mod writes;

pub use dem::{DemHangDoi, CACHE_DEM_MS};
pub use ghep::GhepRename;
pub use gom::Gom;
pub use rename::danh_dau_da_xoa;

use vstd::prelude::*;

use crate::config::{TimingCfg, WatchCfg};
use crate::events::{FsEvent, RescanReason};
use crate::filter::prefilter::{first_excluded, path_verdict, globs_match, set_patterns};
use crate::filter::{Prefilter, Reject};
use crate::fs::{FileSystem, FsError, IoErrorKind};
use crate::model::{FileLoc, Identity, State, Ts};
use crate::path::components;
use crate::repo::{RepoError, Repository};
use crate::repo::memory::lookup::row_by_path;
use crate::repo::memory::queue::pending_fold;

use self::writes::{cleared_for, creation_writes, modify_writes, pushed_at, queued_at, queued_or_not, removal_writes, rename_writes, same_views};
use crate::repo::effects::{below_missing, prefix_moved};
use crate::repo::memory::watch::at_loc_missing;

verus! {

/// Priority of rows created by the watcher: the smallest, since a file the
/// user just copied is what they are waiting for.
pub const PRIORITY_SU_KIEN: u8 = 0;

/// Earliest retry of a `statx` that failed transiently (one watcher tick).
pub const TRE_THU_LAI_MS: i64 = 1000;

/// What the handler reads. The repository and the queue counter, which the
/// handler changes, are passed next to it.
pub struct HandlerCtx<'a, F: FileSystem> {
    pub fs: &'a F,
    pub loc: &'a Prefilter,
    pub timing: &'a TimingCfg,
    pub watch: &'a WatchCfg,
    pub now: Ts,
}

/// Work the handler cannot do itself and hands back to the platform layer.
#[derive(Debug, PartialEq, Eq)]
pub enum HanhDong {
    /// Walk a directory (`readdir`): a new or moved-in directory, or a
    /// renamed directory the repository knew nothing of.
    WalkThuMuc(FileLoc),
    /// Set `meta.rescan_needed` and start a delta reconcile.
    CanQuetLai(RescanReason),
    /// `statx` failed transiently: replay the whole event (a rename carries two
    /// paths) no earlier than `khong_som_hon`.
    ThuLai { ev: FsEvent, khong_som_hon: Ts },
    /// One event marked `so_row` rows below `loc` missing: the most dangerous
    /// write of the watcher, reported so that it can be logged and alerted on.
    DaDanhDauMissing { loc: FileLoc, so_row: u64 },
}

/// What one `statx` of the handler tells: five answers, not two. "Not found"
/// means forget the file; a transient error means ask again.
#[derive(Debug, PartialEq, Eq)]
pub enum KetQuaStatx {
    /// A regular file.
    File(Identity),
    /// Not a regular file: almost always a directory.
    KhongPhaiFile,
    /// Not found: the file left that place.
    DaDi,
    /// A permanent error that is no evidence of anything (unknown root,
    /// unsupported, a symlink, no permission): neither write nor retry.
    BoQua,
    /// A transient error: retry.
    ThuLai,
}

/// `st_mode` says directory.
pub open spec fn dir_mode(mode: u32) -> bool {
    mode & 0o170000u32 == 0o040000u32
}

pub fn la_thu_muc(mode: u32) -> (r: bool)
    ensures
        r == dir_mode(mode),
{
    mode & 0o170000 == 0o040000
}

/// Linux error numbers of permanent `statx` failures that the platform layer
/// reports only by number: `EPERM`, `ENXIO`, `EACCES`, `ENODEV`,
/// `ENAMETOOLONG`, `ELOOP` (every symlink, since links are not followed) and
/// `EOVERFLOW`. Retrying them would loop forever.
pub open spec fn permanent_errno(n: i32) -> bool {
    n == 1 || n == 6 || n == 13 || n == 19 || n == 36 || n == 40 || n == 75
}

pub open spec fn permanent_io(k: IoErrorKind) -> bool {
    match k {
        IoErrorKind::PermissionDenied => true,
        IoErrorKind::Os(n) => permanent_errno(n),
        _ => false,
    }
}

fn loi_vinh_vien(k: IoErrorKind) -> (r: bool)
    ensures
        r == permanent_io(k),
{
    match k {
        IoErrorKind::PermissionDenied => true,
        IoErrorKind::Os(n) => n == 1 || n == 6 || n == 13 || n == 19 || n == 36 || n == 40 || n == 75,
        _ => false,
    }
}

/// The classification of a `statx` answer.
pub open spec fn classify(r: Result<Identity, FsError>) -> KetQuaStatx {
    match r {
        Ok(id) => if dir_mode(id.mode) {
            KetQuaStatx::KhongPhaiFile
        } else {
            KetQuaStatx::File(id)
        },
        Err(e) => if e is NotFound || e == FsError::Io(IoErrorKind::NotFound) {
            KetQuaStatx::DaDi
        } else {
            match e {
                FsError::NotRegular(_) => KetQuaStatx::KhongPhaiFile,
                FsError::UnknownRoot(_) | FsError::Unsupported(_) | FsError::ReadOnlyRoot(_) => KetQuaStatx::BoQua,
                FsError::Io(k) => if permanent_io(k) {
                    KetQuaStatx::BoQua
                } else {
                    KetQuaStatx::ThuLai
                },
                FsError::NotFound(_) => KetQuaStatx::ThuLai,
            }
        },
    }
}

pub fn phan_nhanh(r: &Result<Identity, FsError>) -> (k: KetQuaStatx)
    ensures
        k == classify(*r),
{
    match r {
        Ok(id) => {
            if la_thu_muc(id.mode) {
                KetQuaStatx::KhongPhaiFile
            } else {
                KetQuaStatx::File(*id)
            }
        },
        Err(e) => {
            if e.is_not_found() {
                return KetQuaStatx::DaDi;
            }
            match e {
                FsError::NotRegular(_) => KetQuaStatx::KhongPhaiFile,
                FsError::UnknownRoot(_) | FsError::Unsupported(_) | FsError::ReadOnlyRoot(_) => KetQuaStatx::BoQua,
                FsError::Io(k) => {
                    if loi_vinh_vien(*k) {
                        KetQuaStatx::BoQua
                    } else {
                        KetQuaStatx::ThuLai
                    }
                },
                FsError::NotFound(_) => KetQuaStatx::ThuLai,
            }
        },
    }
}

/// Only "not found" is evidence that a path is empty: no other answer of
/// `statx` is ever classified so.
pub proof fn lemma_chi_khong_tim_thay_la_bang_chung(r: Result<Identity, FsError>)
    ensures
        classify(r) == KetQuaStatx::DaDi <==> (r matches Err(e) && (e is NotFound || e == FsError::Io(IoErrorKind::NotFound))),
{
}

/// `statx` of `loc`, classified.
pub fn statx_phan_nhanh<F: FileSystem>(fs: &F, loc: &FileLoc) -> (k: KetQuaStatx)
    ensures
        exists|r: Result<Identity, FsError>| k == #[trigger] classify(r),
{
    let r = fs.statx(loc);
    let k = phan_nhanh(&r);
    assert(k == classify(r));
    k
}

/// The path lies in an excluded directory (`#recycle`, `.Trash-*`, `@eaDir`).
/// Only this rule of the pre-filter is asked: the others assume a file, and
/// a directory name has no video extension.
pub open spec fn excluded_path(pf: &Prefilter, p: Seq<char>) -> bool {
    first_excluded(components(p), pf.exact_view(), pf.prefix_view(), 0) >= 0
}

pub fn bi_loai_tru(pf: &Prefilter, p: &str) -> (r: bool)
    ensures
        r == excluded_path(pf, p@),
{
    match pf.check_path(p, u64::MAX) {
        Some(Reject::ThuMucLoaiTru(_)) => true,
        _ => false,
    }
}

/// The report of a range write, or nothing when no row was touched.
pub open spec fn report_missing(loc: FileLoc, so_row: u64) -> Seq<HanhDong> {
    if so_row == 0 {
        Seq::empty()
    } else {
        seq![HanhDong::DaDanhDauMissing { loc, so_row }]
    }
}

/// The path rules that run before `statx` on a creation (excluded directory,
/// temporary name, extension, globs) reject the path.
pub open spec fn rejected_before_statx(pf: &Prefilter, p: Seq<char>) -> bool {
    crate::filter::prefilter::path_verdict(
        pf.exact_view(),
        pf.prefix_view(),
        pf.ext_view(),
        pf.min_size,
        crate::filter::prefilter::globs_match(crate::filter::prefilter::set_patterns(pf.globs), p),
        p,
        u64::MAX,
    ) is Some
}

/// The pure path rules (excluded directory, temporary name, extension, size,
/// globs) reject the path `p` of a file of `size` bytes.
pub open spec fn rejected_by_rules(pf: &Prefilter, p: Seq<char>, size: u64) -> bool {
    path_verdict(pf.exact_view(), pf.prefix_view(), pf.ext_view(), pf.min_size, globs_match(set_patterns(pf.globs), p), p, size) is Some
}

/// The queue is full: a rescan will pick the file up later.
pub open spec fn back_pressure() -> Seq<HanhDong> {
    seq![HanhDong::CanQuetLai(RescanReason::BackPressure)]
}

/// `statx` failed transiently: the whole event comes back a second later.
pub open spec fn retry_of(ev: FsEvent, now: Ts) -> Seq<HanhDong> {
    seq![HanhDong::ThuLai { ev, khong_som_hon: sat_add_i64(now, TRE_THU_LAI_MS) }]
}

/// What a creation or move-in can hand back: nothing, the queue is full, a
/// retry of the event, or (a directory moved in) a walk.
pub open spec fn creation_outcome(pf: &Prefilter, ev: FsEvent, loc: FileLoc, now: Ts, v: Seq<HanhDong>) -> bool {
    ||| v.len() == 0
    ||| v == back_pressure()
    ||| v == retry_of(ev, now)
    ||| (ev is MovedIn && v == walk_if_watched(pf, loc))
}

/// What handling a path found empty can hand back.
pub open spec fn removal_outcome(pf: &Prefilter, loc: FileLoc, goc: FsEvent, now: Ts, v: Seq<HanhDong>) -> bool {
    ||| v.len() == 0
    ||| v == back_pressure()
    ||| v == walk_if_watched(pf, loc)
    ||| v == retry_of(goc, now)
    ||| exists|n: u64| v == #[trigger] report_missing(loc, n)
}

pub fn bao_missing(loc: &FileLoc, so_row: u64) -> (r: Vec<HanhDong>)
    ensures
        r@ == report_missing(*loc, so_row),
{
    let mut v: Vec<HanhDong> = Vec::new();
    if so_row != 0 {
        v.push(HanhDong::DaDanhDauMissing { loc: loc.clone(), so_row });
        assert(v@ =~= report_missing(*loc, so_row));
    }
    v
}

/// `a + b`, saturating at the bounds of `i64`.
pub open spec fn sat_add_i64(a: i64, b: i64) -> i64 {
    if a + b > i64::MAX {
        i64::MAX
    } else if a + b < i64::MIN {
        i64::MIN
    } else {
        (a + b) as i64
    }
}

pub fn sat_add(a: i64, b: i64) -> (r: i64)
    ensures
        r == sat_add_i64(a, b),
{
    if b >= 0 {
        if a <= i64::MAX - b { a + b } else { i64::MAX }
    } else {
        if a >= i64::MIN - b { a + b } else { i64::MIN }
    }
}

/// Replay the whole event after one tick.
pub fn thu_lai(now: Ts, ev: &FsEvent) -> (r: HanhDong)
    ensures
        r == (HanhDong::ThuLai { ev: *ev, khong_som_hon: sat_add_i64(now, TRE_THU_LAI_MS) }),
{
    HanhDong::ThuLai { ev: ev.clone(), khong_som_hon: sat_add(now, TRE_THU_LAI_MS) }
}

/// Walk only a directory we watch: a `mkdir` in `#recycle` is not worth it.
pub open spec fn walk_if_watched(pf: &Prefilter, loc: FileLoc) -> Seq<HanhDong> {
    if excluded_path(pf, loc.rel_path@) {
        Seq::empty()
    } else {
        seq![HanhDong::WalkThuMuc(loc)]
    }
}

pub fn walk_neu_dang_theo_doi(pf: &Prefilter, loc: &FileLoc) -> (r: Vec<HanhDong>)
    ensures
        r@ == walk_if_watched(pf, *loc),
{
    let mut v: Vec<HanhDong> = Vec::new();
    if !bi_loai_tru(pf, loc.rel_path.as_str()) {
        v.push(HanhDong::WalkThuMuc(loc.clone()));
        assert(v@ =~= walk_if_watched(pf, *loc));
    }
    v
}

/// Whether the queue has room for one more row of `uid`, given the cached
/// counts: below `max_pending` in total and below `max_pending_per_uid` for
/// the uid.
pub open spec fn has_room(tong: u64, cua_uid: u64, watch: &WatchCfg) -> bool {
    tong < watch.max_pending && cua_uid < watch.max_pending_per_uid
}

/// The queue cap, checked before an upsert. Past the cap nothing is queued
/// and a reconcile is asked for: slower is better than a queue the workers
/// never catch up with. A failed count is no room either: the caller gets
/// the error and drops the event.
pub fn con_cho_phep<R: Repository>(repo: &R, dem: &mut DemHangDoi, watch: &WatchCfg, now: Ts, uid: u32) -> (r: Result<bool, RepoError>)
    ensures
        (old(dem).trong matches Some(t) && dem::still_valid(t, now)) ==> r == Ok::<bool, RepoError>(has_room(
            old(dem).trong.unwrap().tong,
            dem::count_of(old(dem).trong.unwrap().theo_uid@, uid),
            watch,
        )),
        !(old(dem).trong matches Some(t) && dem::still_valid(t, now)) ==> (r matches Ok(b) ==> b == has_room(
            pending_fold(repo.files_view()).0 as u64,
            dem::count_of(pending_fold(repo.files_view()).1, uid),
            watch,
        )),
{
    let (tong, cua_uid) = match dem.doc(repo, now, uid) {
        Ok(c) => c,
        Err(e) => {
            return Err(e);
        },
    };
    if tong >= watch.max_pending {
        return Ok(false);
    }
    Ok(cua_uid < watch.max_pending_per_uid)
}

/// Settle deadline of a row queued by the watcher.
pub fn han_on_dinh(now: Ts, settle_delay: i64) -> (r: Ts)
    ensures
        r == sat_add_i64(now, settle_delay),
{
    sat_add(now, settle_delay)
}

/// What an event writes to the repository (`ok`: the handler succeeded).
/// Removals by path are exact; where `statx` decides, the writes are those
/// that one of its answers leads to.
pub open spec fn event_writes(pf: &Prefilter, ev: FsEvent, f0: Seq<crate::model::FileRecord>, g0: Seq<crate::model::Group>, roots: Seq<crate::model::Root>,
    ready_at: Ts, now: Ts, ok: bool, f1: Seq<crate::model::FileRecord>, g1: Seq<crate::model::Group>) -> bool {
    match ev {
        FsEvent::Closed(loc) => ok ==> creation_writes(f0, g0, roots, loc, ready_at, now, f1, g1),
        FsEvent::MovedIn(loc) => ok ==> creation_writes(f0, g0, roots, loc, ready_at, now, f1, g1),
        FsEvent::Modified(loc) => ok ==> modify_writes(f0, g0, roots, loc, ready_at, now, f1, g1),
        FsEvent::Renamed { from, to } => ok ==> rename_writes(f0, g0, roots, from, to, ready_at, now, f1, g1),
        FsEvent::RenamedDir { from, to } => ok ==> if excluded_path(pf, to.rel_path@) {
            removal_writes(f0, g0, roots, from, ready_at, now, f1, g1)
        } else {
            prefix_moved(f0, f1, from, to, now) && g1 == g0
        },
        FsEvent::RemovedUnknown(loc) => ok ==> removal_writes(f0, g0, roots, loc, ready_at, now, f1, g1),
        FsEvent::Removed(loc) => if ok {
            f1 == at_loc_missing(f0, loc, now) && g1 == g0
        } else {
            same_views(f0, g0, f1, g1)
        },
        FsEvent::RemovedDir(loc) => ok ==> f1 == below_missing(f0, loc, now) && g1 == g0,
        FsEvent::CreatedDir(_) => same_views(f0, g0, f1, g1),
        FsEvent::NeedsRescan { .. } => same_views(f0, g0, f1, g1),
    }
}

/// One normalized event, by its row of the table: creation or move-in
/// (upsert, or walk a directory), modification (push `ready_at`), renames,
/// removals, a new directory (walk), and a rescan request.
pub fn xu_ly<R: Repository, F: FileSystem>(ctx: &HandlerCtx<'_, F>, repo: &mut R, dem: &mut DemHangDoi, ev: &FsEvent) -> (r: Result<Vec<HanhDong>, RepoError>)
    ensures
        match *ev {
            FsEvent::Closed(loc) => {
                &&& rejected_before_statx(ctx.loc, loc.rel_path@) ==> (r matches Ok(v) && v@.len() == 0)
                &&& r matches Ok(v) ==> creation_outcome(ctx.loc, *ev, loc, ctx.now, v@)
            },
            FsEvent::MovedIn(loc) => {
                &&& excluded_path(ctx.loc, loc.rel_path@) ==> (r matches Ok(v) && v@.len() == 0)
                &&& r matches Ok(v) ==> creation_outcome(ctx.loc, *ev, loc, ctx.now, v@)
            },
            FsEvent::Modified(loc) => r matches Ok(v) ==> v@.len() == 0 || v@ == retry_of(*ev, ctx.now),
            FsEvent::Renamed { from, to } => {
                &&& excluded_path(ctx.loc, to.rel_path@) ==> (r matches Ok(v) ==> removal_outcome(ctx.loc, from, *ev, ctx.now, v@))
                &&& r matches Ok(v) ==> rename::rename_outcome(ctx.loc, from, to, ctx.now, v@)
            },
            FsEvent::RenamedDir { from, to } => {
                &&& from.rel_path@.len() == 0 ==> (r matches Err(RepoError::Constraint(m)) && m@
                    == rename::root_sweep_message("RenamedDir"@, from.root_id))
                &&& (from.rel_path@.len() > 0 && !excluded_path(ctx.loc, to.rel_path@)) ==> (r matches Ok(v) ==> (v@.len() == 0
                    || v@ == seq![HanhDong::WalkThuMuc(to)]))
                &&& excluded_path(ctx.loc, to.rel_path@) ==> (r matches Ok(v) ==> removal_outcome(ctx.loc, from, *ev, ctx.now, v@))
            },
            FsEvent::RemovedUnknown(loc) => {
                &&& loc.rel_path@.len() == 0 ==> (r matches Err(RepoError::Constraint(m)) && m@
                    == rename::root_sweep_message("RemovedUnknown"@, loc.root_id))
                &&& r matches Ok(v) ==> removal_outcome(ctx.loc, loc, *ev, ctx.now, v@)
            },
            FsEvent::Removed(_) => r matches Ok(v) ==> v@.len() == 0,
            FsEvent::RemovedDir(loc) => r matches Ok(v) ==> (exists|n: u64| v@ == #[trigger] report_missing(loc, n)),
            FsEvent::CreatedDir(loc) => r matches Ok(v) && v@ == walk_if_watched(ctx.loc, loc),
            FsEvent::NeedsRescan { reason } => r matches Ok(v) && v@ == seq![HanhDong::CanQuetLai(reason)],
        },
        r is Ok ==> final(repo).roots_view() == old(repo).roots_view(),
        event_writes(ctx.loc, *ev, old(repo).files_view(), old(repo).groups_view(), old(repo).roots_view(),
            sat_add_i64(ctx.now, ctx.timing.settle_delay.0), ctx.now, r is Ok, final(repo).files_view(), final(repo).groups_view()),
        (ev is CreatedDir || ev is NeedsRescan) ==> *final(repo) == *old(repo),
        (ev matches FsEvent::RenamedDir { from, .. } && from.rel_path@.len() == 0) ==> *final(repo) == *old(repo),
        (ev matches FsEvent::RemovedUnknown(loc) && loc.rel_path@.len() == 0) ==> *final(repo) == *old(repo),
{
    match ev {
        FsEvent::Closed(loc) | FsEvent::MovedIn(loc) => them_moi(ctx, repo, dem, ev, loc),
        FsEvent::Modified(loc) => day_ready_at(ctx, repo, loc),
        FsEvent::Renamed { from, to } => rename::doi_ten(ctx, repo, dem, from, to),
        FsEvent::RenamedDir { from, to } => rename::doi_ten_thu_muc(ctx, repo, dem, from, to),
        FsEvent::RemovedUnknown(loc) => danh_dau_da_xoa(ctx, repo, dem, loc),
        FsEvent::Removed(loc) => {
            match repo.mark_missing(loc, ctx.now) {
                Ok(()) => {},
                Err(e) => {
                    return Err(e);
                },
            }
            Ok(Vec::new())
        },
        FsEvent::RemovedDir(loc) => {
            let so_row = match repo.mark_missing_prefix(loc, ctx.now) {
                Ok(n) => n,
                Err(e) => {
                    return Err(e);
                },
            };
            Ok(bao_missing(loc, so_row))
        },
        FsEvent::CreatedDir(loc) => Ok(walk_neu_dang_theo_doi(ctx.loc, loc)),
        FsEvent::NeedsRescan { reason } => {
            let mut v: Vec<HanhDong> = Vec::new();
            v.push(HanhDong::CanQuetLai(*reason));
            Ok(v)
        },
    }
}

/// Creation or move-in: `statx`, then upsert, or walk when a directory moved
/// in. For `Closed` the target is known to be a file, so the four pure rules
/// run before `statx` (which opens the file: a FIFO would block forever); for
/// `MovedIn` the target may be a directory, so only the excluded-directory
/// rule is asked first.
fn them_moi<R: Repository, F: FileSystem>(ctx: &HandlerCtx<'_, F>, repo: &mut R, dem: &mut DemHangDoi, ev: &FsEvent, loc: &FileLoc) -> (r: Result<Vec<HanhDong>, RepoError>)
    requires
        *ev == FsEvent::Closed(*loc) || *ev == FsEvent::MovedIn(*loc),
    ensures
        (ev is MovedIn && excluded_path(ctx.loc, loc.rel_path@)) ==> (r matches Ok(v) && v@.len() == 0),
        (ev is Closed && rejected_before_statx(ctx.loc, loc.rel_path@)) ==> (r matches Ok(v) && v@.len() == 0),
        r matches Ok(v) ==> creation_outcome(ctx.loc, *ev, *loc, ctx.now, v@),
        ((ev is MovedIn && excluded_path(ctx.loc, loc.rel_path@)) || (ev is Closed && rejected_before_statx(ctx.loc, loc.rel_path@)))
            ==> *final(repo) == *old(repo),
        r is Ok ==> creation_writes(old(repo).files_view(), old(repo).groups_view(), old(repo).roots_view(), *loc,
            sat_add_i64(ctx.now, ctx.timing.settle_delay.0), ctx.now, final(repo).files_view(), final(repo).groups_view())
            && final(repo).roots_view() == old(repo).roots_view(),
{
    let cho_phep_walk = match ev {
        FsEvent::MovedIn(_) => true,
        _ => false,
    };
    let bi_loai = if cho_phep_walk {
        bi_loai_tru(ctx.loc, loc.rel_path.as_str())
    } else {
        ctx.loc.check_path(loc.rel_path.as_str(), u64::MAX).is_some()
    };
    if bi_loai {
        return Ok(Vec::new());
    }
    match statx_phan_nhanh(ctx.fs, loc) {
        KetQuaStatx::File(id) => {
            let ghost f0 = repo.files_view();
            let ghost g0 = repo.groups_view();
            let ghost r0 = repo.roots_view();
            let res = upsert_su_kien(ctx, repo, dem, loc, &id);
            proof {
                let ra = sat_add_i64(ctx.now, ctx.timing.settle_delay.0);
                if res is Ok && queued_at(f0, g0, r0, *loc, id, ra, ctx.now, repo.files_view(), repo.groups_view()) {
                    assert(queued_at(f0, g0, r0, *loc, id, ra, ctx.now, repo.files_view(), repo.groups_view()));
                }
            }
            res
        },
        KetQuaStatx::KhongPhaiFile => {
            if cho_phep_walk {
                Ok(walk_neu_dang_theo_doi(ctx.loc, loc))
            } else {
                Ok(Vec::new())
            }
        },
        KetQuaStatx::DaDi | KetQuaStatx::BoQua => Ok(Vec::new()),
        KetQuaStatx::ThuLai => {
            let mut v: Vec<HanhDong> = Vec::new();
            v.push(thu_lai(ctx.now, ev));
            Ok(v)
        },
    }
}

/// A modification: only pushes the `ready_at` of a settling row, and only when
/// the event's path is the row's path (another hard link of the same inode
/// must not move the row).
fn day_ready_at<R: Repository, F: FileSystem>(ctx: &HandlerCtx<'_, F>, repo: &mut R, loc: &FileLoc) -> (r: Result<Vec<HanhDong>, RepoError>)
    ensures
        r matches Ok(v) ==> v@.len() == 0 || v@ == retry_of(FsEvent::Modified(*loc), ctx.now),
        r is Ok ==> modify_writes(old(repo).files_view(), old(repo).groups_view(), old(repo).roots_view(), *loc,
            sat_add_i64(ctx.now, ctx.timing.settle_delay.0), ctx.now, final(repo).files_view(), final(repo).groups_view())
            && final(repo).roots_view() == old(repo).roots_view(),
{
    match statx_phan_nhanh(ctx.fs, loc) {
        KetQuaStatx::File(id) => {
            let row = match repo.find_by_key(&id.key) {
                Ok(Some(row)) => row,
                Ok(None) => {
                    return Ok(Vec::new());
                },
                Err(e) => {
                    return Err(e);
                },
            };
            if row.state != State::Settling || !row.loc.same_as(loc) {
                return Ok(Vec::new());
            }
            let ghost f0 = repo.files_view();
            let ghost g0 = repo.groups_view();
            let ghost r0 = repo.roots_view();
            match repo.upsert_pending(&id, loc, han_on_dinh(ctx.now, ctx.timing.settle_delay.0), PRIORITY_SU_KIEN, ctx.now) {
                Ok(_) => {},
                Err(e) => {
                    return Err(e);
                },
            }
            proof {
                assert(pushed_at(f0, g0, r0, *loc, id, sat_add_i64(ctx.now, ctx.timing.settle_delay.0), ctx.now, repo.files_view(), repo.groups_view()));
            }
            Ok(Vec::new())
        },
        KetQuaStatx::ThuLai => {
            let mut v: Vec<HanhDong> = Vec::new();
            v.push(thu_lai(ctx.now, &FsEvent::Modified(loc.clone())));
            Ok(v)
        },
        _ => Ok(Vec::new()),
    }
}

/// Before writing the row of `id` at `loc`, clears a row of another key that
/// still holds `loc` (a file replaced by a rename gets no delete event): our
/// row, when it exists elsewhere, is moved there by `rename`, which clears the
/// other row in the same transaction; otherwise the rows at `loc` are stale.
fn don_row_la_o<R: Repository>(repo: &mut R, loc: &FileLoc, id: &Identity, now: Ts) -> (r: Result<(), RepoError>)
    ensures
        (row_by_path(old(repo).files_view(), *loc) matches Some(cu) ==> cu.key == id.key) ==> *final(repo) == *old(repo),
        r is Ok ==> cleared_for(old(repo).files_view(), old(repo).groups_view(), *loc, *id, now, final(repo).files_view(), final(repo).groups_view())
            && final(repo).roots_view() == old(repo).roots_view(),
        r is Err ==> same_views(old(repo).files_view(), old(repo).groups_view(), final(repo).files_view(), final(repo).groups_view()),
{
    let cu = match repo.find_by_path(loc) {
        Ok(Some(cu)) => cu,
        Ok(None) => {
            return Ok(());
        },
        Err(e) => {
            return Err(e);
        },
    };
    if cu.key.same(&id.key) {
        return Ok(());
    }
    match repo.find_by_key(&id.key) {
        Ok(Some(_)) => repo.rename(&id.key, loc, now),
        Ok(None) => repo.mark_missing(loc, now),
        Err(e) => Err(e),
    }
}

/// Upserts a file after its `statx`: all six pre-filter rules, then the queue
/// cap; the target path is cleared only once past the cap.
pub fn upsert_su_kien<R: Repository, F: FileSystem>(ctx: &HandlerCtx<'_, F>, repo: &mut R, dem: &mut DemHangDoi, loc: &FileLoc, id: &Identity) -> (r: Result<Vec<HanhDong>, RepoError>)
    ensures
        r matches Ok(v) ==> v@.len() == 0 || v@ == seq![HanhDong::CanQuetLai(RescanReason::BackPressure)],
        rejected_by_rules(ctx.loc, loc.rel_path@, id.size) ==> (r matches Ok(v) && v@.len() == 0 && *final(repo) == *old(repo)
            && *final(dem) == *old(dem)),
        r matches Ok(v) ==> (v@ == back_pressure() ==> same_views(old(repo).files_view(), old(repo).groups_view(), final(repo).files_view(), final(repo).groups_view())),
        r matches Ok(v) ==> (v@.len() == 0 ==> queued_or_not(old(repo).files_view(), old(repo).groups_view(), old(repo).roots_view(), *loc, *id,
            sat_add_i64(ctx.now, ctx.timing.settle_delay.0), ctx.now, final(repo).files_view(), final(repo).groups_view())),
        r is Ok ==> final(repo).roots_view() == old(repo).roots_view(),
{
    if ctx.loc.check(ctx.fs, loc, id.size).is_some() {
        return Ok(Vec::new());
    }
    match con_cho_phep(repo, dem, ctx.watch, ctx.now, id.uid) {
        Ok(true) => {},
        Ok(false) => {
            let mut v: Vec<HanhDong> = Vec::new();
            v.push(HanhDong::CanQuetLai(RescanReason::BackPressure));
            return Ok(v);
        },
        Err(e) => {
            return Err(e);
        },
    }
    match don_row_la_o(repo, loc, id, ctx.now) {
        Ok(()) => {},
        Err(e) => {
            return Err(e);
        },
    }
    match repo.upsert_pending(id, loc, han_on_dinh(ctx.now, ctx.timing.settle_delay.0), PRIORITY_SU_KIEN, ctx.now) {
        Ok(_) => {},
        Err(e) => {
            return Err(e);
        },
    }
    dem.them(id.uid);
    let v: Vec<HanhDong> = Vec::new();
    assert(v@ != back_pressure()) by {
        assert(back_pressure().len() == 1);
    }
    Ok(v)
}

} // verus!
