use nasdedup_core::model::{DomainId, FileKey, Identity, JournalState, SubId, Ts};
use nasdedup_core::recovery::{decide, ms_to_ns, AbortReason, Recovery, RetryReason};
use nasdedup_core::repo::{EventMethod, JournalRow};

const CLONE_TS: Ts = 1_000_000;
const BOOT_NS: i64 = 2_000_000 * 1_000_000;
const DST_MTIME: i64 = 500_000 * 1_000_000;

fn key(ino: u64) -> FileKey {
    FileKey { sub_id: SubId([1; 16]), ino }
}

fn journal(state: JournalState) -> JournalRow {
    JournalRow {
        id: Some(1),
        method: EventMethod::VerifiedClone,
        group_id: Some(7),
        src_file_id: 10,
        dst_file_id: 11,
        state,
        src: Some(key(10)),
        src_size: Some(1024),
        src_mtime_ns: Some(DST_MTIME),
        src_ctime_ns: Some(DST_MTIME),
        dst: key(11),
        dst_size: 1024,
        dst_mtime_ns: DST_MTIME,
        dst_atime_ns: DST_MTIME,
        dst_ctime_ns: DST_MTIME,
        started_at: CLONE_TS - 1000,
        updated_at: CLONE_TS,
        error: None,
    }
}

fn vua_clone_xong() -> Identity {
    let sau_clone = ms_to_ns(CLONE_TS) + 5_000_000;
    Identity {
        key: key(11),
        domain_id: DomainId([1; 16]),
        size: 1024,
        mtime_ns: sau_clone,
        ctime_ns: sau_clone,
        atime_ns: sau_clone,
        nlink: 1,
        uid: 1000,
        mode: 0o100_644,
        blocks: 2,
        dev: 42,
    }
}

#[test]
fn planned_va_compared_bi_bo_vi_chua_cham_file_dich() {
    for st in [JournalState::Planned, JournalState::Compared] {
        let r = decide(&journal(st), None, BOOT_NS);
        assert_eq!(r, Recovery::Abort(AbortReason::ChuaCloneGiXong), "{st:?}");
        assert_eq!(r.journal_state(), Some(JournalState::Aborted));
        assert!(!r.requeue_dst(), "chưa ghi gì thì không cần verify lại");
    }
}

#[test]
fn journal_da_dong_thi_khong_lam_gi() {
    for st in [JournalState::Done, JournalState::Aborted] {
        let r = decide(&journal(st), Some(&vua_clone_xong()), BOOT_NS);
        assert_eq!(r, Recovery::Closed);
        assert_eq!(r.journal_state(), None);
    }
}

#[test]
fn cloned_khong_mo_duoc_file_thi_giu_journal() {
    let r = decide(&journal(JournalState::Cloned), None, BOOT_NS);
    assert_eq!(r, Recovery::Retry(RetryReason::KhongThayFile));
    assert_eq!(r.journal_state(), None);
}

#[test]
fn cloned_gap_inode_khac_thi_tuyet_doi_khong_dung_toi() {
    let mut id = vua_clone_xong();
    id.key = key(999);
    let r = decide(&journal(JournalState::Cloned), Some(&id), BOOT_NS);
    assert_eq!(r, Recovery::Retry(RetryReason::InodeKhongKhop));
    assert!(!r.requeue_dst());
}

#[test]
fn cloned_ma_mtime_da_dung_thi_coi_nhu_xong() {
    let mut id = vua_clone_xong();
    id.mtime_ns = DST_MTIME;
    let r = decide(&journal(JournalState::Cloned), Some(&id), BOOT_NS);
    assert_eq!(r, Recovery::Done);
    assert_eq!(r.journal_state(), Some(JournalState::Done));
    assert!(!r.requeue_dst(), "mtime đúng nghĩa là thao tác đã hoàn tất");
}

#[test]
fn cloned_dung_chu_ky_thi_khoi_phuc_mtime() {
    let r = decide(&journal(JournalState::Cloned), Some(&vua_clone_xong()), BOOT_NS);
    assert_eq!(r, Recovery::RestoreMtime { atime_ns: DST_MTIME, mtime_ns: DST_MTIME });
    assert_eq!(r.journal_state(), Some(JournalState::Done));
    assert!(r.requeue_dst(), "phải verify lại vì file đã bị chạm");
}

#[test]
fn cloned_nhung_kich_thuoc_doi_thi_bo_journal() {
    let mut id = vua_clone_xong();
    id.size = 2048;
    let r = decide(&journal(JournalState::Cloned), Some(&id), BOOT_NS);
    assert_eq!(r, Recovery::Abort(AbortReason::DichDaBiGhiDe));
    assert!(r.requeue_dst());
}

#[test]
fn cloned_nhung_mtime_khac_ctime_thi_bo_journal() {
    let mut id = vua_clone_xong();
    id.ctime_ns = id.mtime_ns + 1;
    assert_eq!(
        decide(&journal(JournalState::Cloned), Some(&id), BOOT_NS),
        Recovery::Abort(AbortReason::DichDaBiGhiDe)
    );
}

#[test]
fn cloned_voi_mtime_ngoai_cua_so_thoi_gian_thi_bo_journal() {
    let mut som = vua_clone_xong();
    som.mtime_ns = ms_to_ns(CLONE_TS) - 1;
    som.ctime_ns = som.mtime_ns;
    assert_eq!(
        decide(&journal(JournalState::Cloned), Some(&som), BOOT_NS),
        Recovery::Abort(AbortReason::DichDaBiGhiDe)
    );
    let mut muon = vua_clone_xong();
    muon.mtime_ns = BOOT_NS + 1;
    muon.ctime_ns = muon.mtime_ns;
    assert_eq!(
        decide(&journal(JournalState::Cloned), Some(&muon), BOOT_NS),
        Recovery::Abort(AbortReason::DichDaBiGhiDe)
    );
}
