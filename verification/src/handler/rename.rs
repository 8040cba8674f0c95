//! The branches of a rename, and the removals inferred from the repository.
//!
//! A rename carries two paths, and each wrong reading of it is a different
//! write to the repository: this is where the watcher loses data most easily.

use vstd::prelude::*;

use crate::config::parse::int_chars;
use crate::events::FsEvent;
use crate::fs::FileSystem;
use crate::model::{FileLoc, Identity, State, Ts};
use crate::repo::{RepoError, Repository};

use super::writes::{key_moved, marked_missing_at, new_at, queued_at, queued_or_not, removal_writes, rename_writes, restored_or_not, same_views};
use super::sat_add_i64;
use crate::repo::effects::{prefix_moved, renamed_rows};

use super::{
    bao_missing, bi_loai_tru, excluded_path, statx_phan_nhanh, thu_lai, upsert_su_kien, walk_neu_dang_theo_doi, DemHangDoi,
    HandlerCtx, HanhDong, KetQuaStatx,
};

verus! {

/// What is done at a path found empty of the row that was there, by what
/// `statx` says is there now.
#[derive(Debug, PartialEq, Eq)]
pub enum ViecXoa {
    /// Nothing is there: mark the rows at and below the path missing.
    DanhDau,
    /// A live regular file is there: queue it (clearing a row of another key).
    Upsert(Identity),
    /// A directory is there: walk it again, never sweep it.
    Walk,
    /// Unknown for now: replay the event.
    ThuLai,
    /// A permanent error that proves nothing: do nothing.
    KhongLamGi,
}

/// The decision at a path said to be removed.
pub open spec fn viec_khi_xoa(k: KetQuaStatx) -> ViecXoa {
    match k {
        KetQuaStatx::DaDi => ViecXoa::DanhDau,
        KetQuaStatx::File(id) => ViecXoa::Upsert(id),
        KetQuaStatx::KhongPhaiFile => ViecXoa::Walk,
        KetQuaStatx::ThuLai => ViecXoa::ThuLai,
        KetQuaStatx::BoQua => ViecXoa::KhongLamGi,
    }
}

pub fn viec_xoa(k: KetQuaStatx) -> (r: ViecXoa)
    ensures
        r == viec_khi_xoa(k),
{
    match k {
        KetQuaStatx::DaDi => ViecXoa::DanhDau,
        KetQuaStatx::File(id) => ViecXoa::Upsert(id),
        KetQuaStatx::KhongPhaiFile => ViecXoa::Walk,
        KetQuaStatx::ThuLai => ViecXoa::ThuLai,
        KetQuaStatx::BoQua => ViecXoa::KhongLamGi,
    }
}

/// Rows are marked missing by path only when `statx` found nothing there:
/// never on a transient error, a permanent error, a live file or a directory.
pub proof fn lemma_missing_only_on_evidence(r: Result<Identity, crate::fs::FsError>)
    ensures
        viec_khi_xoa(super::classify(r)) == ViecXoa::DanhDau <==> (r matches Err(e) && (e is NotFound || e
            == crate::fs::FsError::Io(crate::fs::IoErrorKind::NotFound))),
{
}

/// The message refusing a watcher event on the top of a root.
pub open spec fn root_sweep_message(ten: Seq<char>, root_id: i64) -> Seq<char> {
    ten + " trên gốc root "@ + int_chars(root_id as int) + ": một sự kiện watcher không được quét cả root"@
}

/// A watcher event may never sweep a whole root: an empty `rel_path` is the
/// top of the root, below which every row lies (a root moved or remounted
/// would otherwise make the whole library missing in one call).
pub fn kiem_khong_rong(loc: &FileLoc, ten: &str) -> (r: Result<(), RepoError>)
    ensures
        loc.rel_path@.len() == 0 ==> (r matches Err(RepoError::Constraint(m)) && m@ == root_sweep_message(ten@, loc.root_id)),
        loc.rel_path@.len() > 0 ==> r is Ok,
{
    if loc.rel_path.as_str().unicode_len() == 0 {
        let head = crate::text::concat_str(ten, " trên gốc root ");
        let m = crate::repo::memory::message_with_number(head.as_str(), loc.root_id, ": một sự kiện watcher không được quét cả root");
        return Err(RepoError::Constraint(m));
    }
    Ok(())
}

/// The path is empty of the file that was there, whether a file or a
/// directory is unknown (an unpaired `IN_MOVED_FROM`). `statx` is asked
/// again first: the event is old, and a new file may have taken the place.
pub fn danh_dau_da_xoa<R: Repository, F: FileSystem>(ctx: &HandlerCtx<'_, F>, repo: &mut R, dem: &mut DemHangDoi, loc: &FileLoc) -> (r: Result<Vec<HanhDong>, RepoError>)
    ensures
        loc.rel_path@.len() == 0 ==> (r matches Err(RepoError::Constraint(m)) && m@ == root_sweep_message("RemovedUnknown"@, loc.root_id)),
        r matches Ok(v) ==> super::removal_outcome(ctx.loc, *loc, FsEvent::RemovedUnknown(*loc), ctx.now, v@),
        loc.rel_path@.len() == 0 ==> *final(repo) == *old(repo),
        r is Ok ==> removal_writes(old(repo).files_view(), old(repo).groups_view(), old(repo).roots_view(), *loc,
            sat_add_i64(ctx.now, ctx.timing.settle_delay.0), ctx.now, final(repo).files_view(), final(repo).groups_view())
            && final(repo).roots_view() == old(repo).roots_view(),
{
    danh_dau_da_xoa_cua(ctx, repo, dem, loc, &FsEvent::RemovedUnknown(loc.clone()), "RemovedUnknown")
}

/// As `danh_dau_da_xoa`, knowing the original event so that a retry replays it.
fn danh_dau_da_xoa_cua<R: Repository, F: FileSystem>(
    ctx: &HandlerCtx<'_, F>,
    repo: &mut R,
    dem: &mut DemHangDoi,
    loc: &FileLoc,
    goc: &FsEvent,
    ten: &str,
) -> (r: Result<Vec<HanhDong>, RepoError>)
    ensures
        loc.rel_path@.len() == 0 ==> (r matches Err(RepoError::Constraint(m)) && m@ == root_sweep_message(ten@, loc.root_id)),
        r matches Ok(v) ==> super::removal_outcome(ctx.loc, *loc, *goc, ctx.now, v@),
        loc.rel_path@.len() == 0 ==> *final(repo) == *old(repo),
        r is Ok ==> removal_writes(old(repo).files_view(), old(repo).groups_view(), old(repo).roots_view(), *loc,
            sat_add_i64(ctx.now, ctx.timing.settle_delay.0), ctx.now, final(repo).files_view(), final(repo).groups_view())
            && final(repo).roots_view() == old(repo).roots_view(),
{
    match kiem_khong_rong(loc, ten) {
        Ok(()) => {},
        Err(e) => {
            return Err(e);
        },
    }
    match viec_xoa(statx_phan_nhanh(ctx.fs, loc)) {
        ViecXoa::DanhDau => danh_dau_chac_chan(repo, loc, ctx.now),
        ViecXoa::Upsert(id) => {
            let ghost f0 = repo.files_view();
            let ghost g0 = repo.groups_view();
            let ghost r0 = repo.roots_view();
            let res = upsert_su_kien(ctx, repo, dem, loc, &id);
            proof {
                if res is Ok {
                    let ra = sat_add_i64(ctx.now, ctx.timing.settle_delay.0);
                    if queued_at(f0, g0, r0, *loc, id, ra, ctx.now, repo.files_view(), repo.groups_view()) {
                        assert(queued_at(f0, g0, r0, *loc, id, ra, ctx.now, repo.files_view(), repo.groups_view()));
                    }
                }
            }
            res
        },
        ViecXoa::Walk => Ok(walk_neu_dang_theo_doi(ctx.loc, loc)),
        ViecXoa::ThuLai => {
            let mut v: Vec<HanhDong> = Vec::new();
            v.push(thu_lai(ctx.now, goc));
            Ok(v)
        },
        ViecXoa::KhongLamGi => Ok(Vec::new()),
    }
}

/// The write itself, called only on the evidence of "not found": the point
/// first (the common case of one deleted file pays nothing for the range),
/// then the range below it, whose count is reported.
fn danh_dau_chac_chan<R: Repository>(repo: &mut R, loc: &FileLoc, now: Ts) -> (r: Result<Vec<HanhDong>, RepoError>)
    ensures
        r matches Ok(v) ==> (exists|n: u64| v@ == #[trigger] super::report_missing(*loc, n)),
        r is Ok ==> marked_missing_at(old(repo).files_view(), old(repo).groups_view(), *loc, now, final(repo).files_view(), final(repo).groups_view())
            && final(repo).roots_view() == old(repo).roots_view(),
{
    match repo.mark_missing(loc, now) {
        Ok(()) => {},
        Err(e) => {
            return Err(e);
        },
    }
    let duoi = match repo.mark_missing_prefix(loc, now) {
        Ok(n) => n,
        Err(e) => {
            return Err(e);
        },
    };
    Ok(bao_missing(loc, duoi))
}

/// Clears the source path once the destination of a rename is done: only on
/// "not found", never a retry (it would replay the destination part) nor an
/// upsert by `from` (the new file's own event does that).
fn don_nguon<R: Repository, F: FileSystem>(ctx: &HandlerCtx<'_, F>, repo: &mut R, from: &FileLoc) -> (r: Result<Vec<HanhDong>, RepoError>)
    ensures
        from.rel_path@.len() == 0 ==> (r matches Err(RepoError::Constraint(m)) && m@ == root_sweep_message("Renamed"@, from.root_id)),
        r matches Ok(v) ==> v@.len() == 0 || (exists|n: u64| v@ == #[trigger] super::report_missing(*from, n)),
        r is Ok ==> (same_views(old(repo).files_view(), old(repo).groups_view(), final(repo).files_view(), final(repo).groups_view())
            || marked_missing_at(old(repo).files_view(), old(repo).groups_view(), *from, ctx.now, final(repo).files_view(), final(repo).groups_view()))
            && final(repo).roots_view() == old(repo).roots_view(),
{
    match kiem_khong_rong(from, "Renamed") {
        Ok(()) => {},
        Err(e) => {
            return Err(e);
        },
    }
    match statx_phan_nhanh(ctx.fs, from) {
        KetQuaStatx::DaDi => danh_dau_chac_chan(repo, from, ctx.now),
        _ => Ok(Vec::new()),
    }
}

/// What a rename can hand back: what a removal of the source can, nothing,
/// a retry of the rename, a walk of the target, or the source's rows reported
/// missing, possibly followed by a full queue.
pub open spec fn rename_outcome(pf: &crate::filter::Prefilter, from: FileLoc, to: FileLoc, now: Ts, v: Seq<HanhDong>) -> bool {
    ||| super::removal_outcome(pf, from, FsEvent::Renamed { from, to }, now, v)
    ||| super::removal_outcome(pf, from, FsEvent::RenamedDir { from, to }, now, v)
    ||| v == seq![HanhDong::WalkThuMuc(to)]
    ||| exists|n: u64| v == #[trigger] super::report_missing(from, n) + super::back_pressure()
}

/// A rename whose target kind is unknown. The order of the branches matters:
/// a target in an excluded directory (a file dragged to `#recycle`) is a
/// deletion even though `statx` succeeds; a target not found leaves both
/// paths empty; a directory is renamed by prefix; a known inode keeps its
/// progress under the new path (and is restored when it was `missing`); an
/// unknown inode is a new file.
pub fn doi_ten<R: Repository, F: FileSystem>(ctx: &HandlerCtx<'_, F>, repo: &mut R, dem: &mut DemHangDoi, from: &FileLoc, to: &FileLoc) -> (r: Result<Vec<HanhDong>, RepoError>)
    ensures
        excluded_path(ctx.loc, to.rel_path@) ==> (r matches Ok(v) ==> super::removal_outcome(
            ctx.loc,
            *from,
            FsEvent::Renamed { from: *from, to: *to },
            ctx.now,
            v@,
        )),
        r matches Ok(v) ==> rename_outcome(ctx.loc, *from, *to, ctx.now, v@),
        (excluded_path(ctx.loc, to.rel_path@) && from.rel_path@.len() == 0) ==> (r matches Err(RepoError::Constraint(m))
            && m@ == root_sweep_message("RemovedUnknown"@, from.root_id)) && *final(repo) == *old(repo),
        excluded_path(ctx.loc, to.rel_path@) ==> (r is Ok ==> removal_writes(old(repo).files_view(), old(repo).groups_view(), old(repo).roots_view(),
            *from, sat_add_i64(ctx.now, ctx.timing.settle_delay.0), ctx.now, final(repo).files_view(), final(repo).groups_view())),
        r is Ok ==> rename_writes(old(repo).files_view(), old(repo).groups_view(), old(repo).roots_view(), *from, *to,
            sat_add_i64(ctx.now, ctx.timing.settle_delay.0), ctx.now, final(repo).files_view(), final(repo).groups_view()),
        r is Ok ==> final(repo).roots_view() == old(repo).roots_view(),
{
    let ghost f0 = repo.files_view();
    let ghost g0 = repo.groups_view();
    let ghost r0 = repo.roots_view();
    let ghost han = sat_add_i64(ctx.now, ctx.timing.settle_delay.0);
    let goc = FsEvent::Renamed { from: from.clone(), to: to.clone() };
    if bi_loai_tru(ctx.loc, to.rel_path.as_str()) {
        return danh_dau_da_xoa_cua(ctx, repo, dem, from, &goc, "RemovedUnknown");
    }
    match statx_phan_nhanh(ctx.fs, to) {
        KetQuaStatx::DaDi => danh_dau_da_xoa_cua(ctx, repo, dem, from, &goc, "RemovedUnknown"),
        KetQuaStatx::BoQua => Ok(Vec::new()),
        KetQuaStatx::ThuLai => {
            let mut v: Vec<HanhDong> = Vec::new();
            v.push(thu_lai(ctx.now, &goc));
            Ok(v)
        },
        KetQuaStatx::KhongPhaiFile => doi_ten_thu_muc(ctx, repo, dem, from, to),
        KetQuaStatx::File(id) => {
            if ctx.loc.check(ctx.fs, to, id.size).is_some() {
                return danh_dau_da_xoa_cua(ctx, repo, dem, from, &goc, "RemovedUnknown");
            }
            match repo.find_by_key(&id.key) {
                Ok(Some(row)) => {
                    match repo.rename(&id.key, to, ctx.now) {
                        Ok(()) => {},
                        Err(e) => {
                            return Err(e);
                        },
                    }
                    if row.state == State::Missing {
                        match repo.restore_or_reset(&id.key, &id, ctx.now) {
                            Ok(()) => {},
                            Err(e) => {
                                return Err(e);
                            },
                        }
                    }
                    let ghost f2 = repo.files_view();
                    let ghost g2 = repo.groups_view();
                    let res = don_nguon(ctx, repo, from);
                    proof {
                        if res is Ok {
                            assert(restored_or_not(renamed_rows(f0, id.key, *to, ctx.now), g0, r0, row.state, id, ctx.now, f2, g2));
                            assert(key_moved(f0, g0, r0, *from, *to, id, ctx.now, repo.files_view(), repo.groups_view()));
                        }
                    }
                    res
                },
                Ok(None) => {
                    let mut ra = match don_nguon(ctx, repo, from) {
                        Ok(v) => v,
                        Err(e) => {
                            return Err(e);
                        },
                    };
                    let ghost f2 = repo.files_view();
                    let ghost g2 = repo.groups_view();
                    let mut them = match upsert_su_kien(ctx, repo, dem, to, &id) {
                        Ok(v) => v,
                        Err(e) => {
                            return Err(e);
                        },
                    };
                    proof {
                        assert(queued_or_not(f2, g2, r0, *to, id, han, ctx.now, repo.files_view(), repo.groups_view()));
                        assert(new_at(f0, g0, r0, *from, *to, id, han, ctx.now, repo.files_view(), repo.groups_view()));
                    }
                    let ghost a = ra@;
                    let ghost b = them@;
                    ra.append(&mut them);
                    proof {
                        let goc_v = FsEvent::Renamed { from: *from, to: *to };
                        if a.len() == 0 {
                            assert(ra@ =~= b);
                            if b.len() != 0 {
                                assert(super::removal_outcome(ctx.loc, *from, goc_v, ctx.now, ra@));
                            }
                        } else {
                            let n = choose|n: u64| a == #[trigger] super::report_missing(*from, n);
                            if b.len() == 0 {
                                assert(ra@ =~= a);
                                assert(super::removal_outcome(ctx.loc, *from, goc_v, ctx.now, ra@));
                            } else {
                                assert(ra@ =~= super::report_missing(*from, n) + super::back_pressure());
                            }
                        }
                    }
                    Ok(ra)
                },
                Err(e) => Err(e),
            }
        },
    }
}

/// A rename of a known directory: every row below `from` changes prefix. No
/// row moving means the repository knows nothing of the tree (moved in from
/// outside, or recreated before its watch): only a walk can tell.
pub fn doi_ten_thu_muc<R: Repository, F: FileSystem>(ctx: &HandlerCtx<'_, F>, repo: &mut R, dem: &mut DemHangDoi, from: &FileLoc, to: &FileLoc) -> (r: Result<Vec<HanhDong>, RepoError>)
    ensures
        from.rel_path@.len() == 0 ==> (r matches Err(RepoError::Constraint(m)) && m@ == root_sweep_message("RenamedDir"@, from.root_id)),
        from.rel_path@.len() > 0 && !excluded_path(ctx.loc, to.rel_path@) ==> (r matches Ok(v) ==> (v@.len() == 0 || v@ == seq![HanhDong::WalkThuMuc(*to)])),
        excluded_path(ctx.loc, to.rel_path@) ==> (r matches Ok(v) ==> super::removal_outcome(
            ctx.loc,
            *from,
            FsEvent::RenamedDir { from: *from, to: *to },
            ctx.now,
            v@,
        )),
        from.rel_path@.len() == 0 ==> *final(repo) == *old(repo),
        excluded_path(ctx.loc, to.rel_path@) ==> (r is Ok ==> removal_writes(old(repo).files_view(), old(repo).groups_view(), old(repo).roots_view(),
            *from, sat_add_i64(ctx.now, ctx.timing.settle_delay.0), ctx.now, final(repo).files_view(), final(repo).groups_view())),
        !excluded_path(ctx.loc, to.rel_path@) ==> (r is Ok ==> prefix_moved(old(repo).files_view(), final(repo).files_view(), *from, *to, ctx.now)
            && final(repo).groups_view() == old(repo).groups_view()),
        r is Ok ==> final(repo).roots_view() == old(repo).roots_view(),
{
    match kiem_khong_rong(from, "RenamedDir") {
        Ok(()) => {},
        Err(e) => {
            return Err(e);
        },
    }
    if bi_loai_tru(ctx.loc, to.rel_path.as_str()) {
        return danh_dau_da_xoa_cua(ctx, repo, dem, from, &FsEvent::RenamedDir { from: from.clone(), to: to.clone() }, "RemovedUnknown");
    }
    let doi = match repo.rename_prefix(from, to, ctx.now) {
        Ok(n) => n,
        Err(e) => {
            return Err(e);
        },
    };
    let mut v: Vec<HanhDong> = Vec::new();
    if doi == 0 {
        v.push(HanhDong::WalkThuMuc(to.clone()));
        assert(v@ =~= seq![HanhDong::WalkThuMuc(*to)]);
    }
    Ok(v)
}

} // verus!
