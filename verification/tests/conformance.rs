//! The repository scenarios every `Repository` implementation must pass,
//! run on `MemoryRepository`.

use nasdedup_core::model::{
    Backend, DomainId, FileKey, FileLoc, FileRecord, Identity, JournalState, Root, RootKind, ScanPhase, ScanProgress, State, SubId, Ts, Volume,
};
use nasdedup_core::repo::types::{DedupEvent, EventFilter, EventMethod, EventResult, GroupNote, GroupOp, JournalRow, Patch, ScanRow, Transition};
use nasdedup_core::repo::{MemoryRepository, Repository, Scope};

/// Thời điểm gốc của mọi kịch bản.
const NOW: Ts = 1_000_000;
/// `settle_delay` 15 phút.
const DELAY: Ts = 900_000;
/// Miền dedupe dùng chung.
const DOMAIN: DomainId = DomainId([1; 16]);

/// Identity mẫu: owner 1000, một hardlink, mode 0644.
fn ident(ino: u64, size: u64, mtime_ns: i64, ctime_ns: i64) -> Identity {
    Identity {
        key: FileKey { sub_id: SubId([1; 16]), ino },
        domain_id: DOMAIN,
        size,
        mtime_ns,
        ctime_ns,
        atime_ns: 0,
        nlink: 1,
        uid: 1000,
        mode: 0o100_644,
        blocks: size.div_ceil(512),
        dev: 42,
    }
}

/// `FileLoc` trong root cục bộ (id 1).
fn loc(rel: &str) -> FileLoc {
    FileLoc::new(1, rel)
}

/// `FileLoc` trong root remote (id 2).
fn rloc(rel: &str) -> FileLoc {
    FileLoc::new(2, rel)
}

/// Đăng ký root 1 (cục bộ) và root 2 (remote). Mọi kịch bản gọi hàm này trước.
fn setup(repo: &mut MemoryRepository) {
    let local = Root {
        id: 1,
        path: "/volume1/video".into(),
        domain_id: DOMAIN,
        kind: RootKind::Local,
        label: None,
        windows_unc: None,
        active: true,
        added_at: 0,
    };
    let remote = Root {
        id: 2,
        path: "/mnt/win214".into(),
        domain_id: DomainId([2; 16]),
        kind: RootKind::Remote,
        label: Some("windows-214".to_owned()),
        windows_unc: Some(r"\\192.168.1.214\Video".to_owned()),
        active: true,
        added_at: 0,
    };
    assert_eq!(repo.root_upsert(&local, NOW).expect("root 1"), 1);
    assert_eq!(repo.root_upsert(&remote, NOW).expect("root 2"), 2);
}

/// Upsert một file mới rồi trả row của nó.
fn seed(repo: &mut MemoryRepository, id: &Identity, l: &FileLoc) -> FileRecord {
    repo.upsert_pending(id, l, NOW, 0, NOW).expect("upsert");
    repo.find_by_key(&id.key).expect("find").expect("row vừa tạo")
}

/// Đọc lại row theo id (phải tồn tại).
fn get(repo: &MemoryRepository, key: &FileKey) -> FileRecord {
    repo.find_by_key(key).expect("find").expect("row tồn tại")
}

/// Chuyển state qua đường chính thức (`apply`), kèm patch.
fn move_to_new(repo: &mut MemoryRepository, id: &Identity, l: &FileLoc, to: State, patch: Patch) -> FileRecord {
    let row = seed(repo, id, l);
    move_to(repo, &row, to, patch)
}

fn move_to(repo: &mut MemoryRepository, row: &FileRecord, to: State, patch: Patch) -> FileRecord {
    let ok = repo.apply(&Transition::new(row.id, row.state, to, patch, NOW)).expect("apply");
    assert!(ok, "CAS phải thành công từ {:?} sang {:?}", row.state, to);
    get(repo, &row.key)
}


// ---- queue ----



fn kb_upsert_tao_row_settling(repo: &mut MemoryRepository) {
    let r = repo.upsert_pending(&ident(1, 100, 5, 5), &loc("a.mp4"), NOW + DELAY, 0, NOW).unwrap();
    assert!(!r.dropped_as_self_event);
    let row = get(repo, &ident(1, 100, 5, 5).key);
    assert_eq!(row.state, State::Settling);
    assert_eq!(row.ready_at, Some(NOW + DELAY));
    assert_eq!(row.enq.map(|f| f.size), Some(100));
    assert_eq!((row.first_seen_at, row.last_seen_at, row.updated_at), (NOW, NOW, NOW));
}

fn kb_upsert_gop_nhieu_su_kien_cung_inode(repo: &mut MemoryRepository) {
    // Một upload lớn sinh hàng chục nghìn sự kiện; tất cả gộp vào một row.
    let id = ident(1, 100, 5, 5);
    for i in 0..50 {
        repo.upsert_pending(&id, &loc("a.mp4"), NOW + i + DELAY, 0, NOW + i).unwrap();
    }
    let rows: Vec<_> =
        (1..=60).filter_map(|ino| repo.find_by_key(&ident(ino, 0, 0, 0).key).unwrap()).collect();
    assert_eq!(rows.len(), 1, "phải gộp thành một row");
    assert_eq!(rows[0].ready_at, Some(NOW + 49 + DELAY), "ready_at theo sự kiện cuối");
    assert_eq!(rows[0].first_seen_at, NOW, "first_seen giữ lần đầu");
    assert_eq!(rows[0].last_seen_at, NOW + 49);
}

fn kb_upsert_bo_qua_su_kien_cua_chinh_daemon(repo: &mut MemoryRepository) {
    // Guard chống vòng lặp tự kích hoạt: sau dedup, daemon đóng fd và sinh sự kiện.
    let id = ident(1, 100, 5, 5);
    let row = seed(repo, &id, &loc("a.mp4"));
    let row = move_to(repo, &row, State::Sized, Patch::new().identity(id));
    let row = move_to(
        repo,
        &row,
        State::Distinct,
        Patch::new().ready_at(None).sparse_hash(Some([0xAB; 32])).hash_version(1),
    );

    let r = repo.upsert_pending(&id, &loc("a.mp4"), NOW + DELAY, 0, NOW + 1).unwrap();
    assert!(r.dropped_as_self_event);
    let after = get(repo, &id.key);
    assert_eq!(after.state, State::Distinct);
    assert_eq!(after.ready_at, None, "không được đánh thức");
    assert_eq!(after.sparse_hash, Some([0xAB; 32]), "giữ hash để dùng lại");
    assert_eq!(after.last_seen_at, NOW + 1, "vẫn ghi nhận đã thấy");
    assert!(after.updated_at >= row.updated_at);
}

fn kb_upsert_fingerprint_doi_ve_settling_va_xoa_hash(repo: &mut MemoryRepository) {
    let id = ident(1, 100, 5, 5);
    let row = seed(repo, &id, &loc("a.mp4"));
    let row = move_to(repo, &row, State::Sized, Patch::new().identity(id).attempts(3));
    move_to(
        repo,
        &row,
        State::Distinct,
        Patch::new().ready_at(None).sparse_hash(Some([0xAB; 32])).magic_ok(true),
    );

    let moi = ident(1, 100, 999, 999);
    let r = repo.upsert_pending(&moi, &loc("a.mp4"), NOW + DELAY, 0, NOW + 2).unwrap();
    assert!(!r.dropped_as_self_event);
    let after = get(repo, &id.key);
    assert_eq!(after.state, State::Settling);
    assert_eq!(after.prev_state, Some(State::Distinct));
    assert_eq!(after.ready_at, Some(NOW + DELAY));
    assert_eq!(after.sparse_hash, None);
    assert_eq!(after.magic_ok, None);
    assert_eq!(after.attempts, 0);
    assert_eq!(after.enq.map(|f| f.mtime_ns), Some(999), "snapshot mới");
    // Fingerprint đã lưu chỉ đổi khi xử lý xong, không đổi lúc enqueue.
    assert_eq!(after.mtime_ns, 5);
}

fn kb_upsert_khoi_phuc_row_missing(repo: &mut MemoryRepository) {
    // Người dùng xóa vào thùng rác rồi khôi phục: về đúng trạng thái cũ, không hash lại.
    let id = ident(1, 100, 5, 5);
    let row = seed(repo, &id, &loc("a.mp4"));
    let row = move_to(repo, &row, State::Sized, Patch::new().identity(id));
    move_to(repo, &row, State::Distinct, Patch::new().ready_at(None).sparse_hash(Some([1; 32])));
    repo.mark_missing(&loc("a.mp4"), NOW + 1).unwrap();
    assert_eq!(get(repo, &id.key).state, State::Missing);

    repo.upsert_pending(&id, &loc("a.mp4"), NOW + DELAY, 0, NOW + 2).unwrap();
    let after = get(repo, &id.key);
    assert_eq!(after.state, State::Distinct);
    assert_eq!(after.ready_at, None, "distinct không thuộc hàng đợi");
    assert_eq!(after.sparse_hash, Some([1; 32]));
}

fn kb_upsert_row_missing_noi_dung_khac_thi_xu_ly_lai(repo: &mut MemoryRepository) {
    let id = ident(1, 100, 5, 5);
    let row = seed(repo, &id, &loc("a.mp4"));
    let row = move_to(repo, &row, State::Sized, Patch::new().identity(id));
    move_to(repo, &row, State::Distinct, Patch::new().ready_at(None).sparse_hash(Some([1; 32])));
    repo.mark_missing(&loc("a.mp4"), NOW + 1).unwrap();

    repo.upsert_pending(&ident(1, 200, 77, 77), &loc("a.mp4"), NOW + DELAY, 0, NOW + 2).unwrap();
    let after = get(repo, &id.key);
    assert_eq!(after.state, State::Settling);
    assert_eq!(after.sparse_hash, None);
    assert_eq!(after.ready_at, Some(NOW + DELAY));
}

fn kb_upsert_user_undo_dinh(repo: &mut MemoryRepository) {
    let id = ident(1, 100, 5, 5);
    let row = seed(repo, &id, &loc("a.mp4"));
    move_to(
        repo,
        &row,
        State::Skipped,
        Patch::new().ready_at(None).skip_reason(Some("user_undo".to_owned())),
    );
    repo.upsert_pending(&ident(1, 100, 999, 999), &loc("a.mp4"), NOW + DELAY, 0, NOW + 2).unwrap();
    let after = get(repo, &id.key);
    assert_eq!(after.state, State::Skipped, "quyết định của người dùng không bị đảo");
    assert_eq!(after.skip_reason.as_deref(), Some("user_undo"));
}

fn kb_upsert_remote_bo_qua_ctime(repo: &mut MemoryRepository) {
    // Spec 4.1: CIFS không có ctime POSIX.
    let mut id = ident(1, 100, 5, 5);
    id.domain_id = nasdedup_core::model::DomainId([2; 16]);
    let row = seed(repo, &id, &rloc("phim/a.mp4"));
    let row = move_to(repo, &row, State::Sized, Patch::new().identity(id));
    move_to(repo, &row, State::Distinct, Patch::new().ready_at(None).sparse_hash(Some([1; 32])));

    let mut ctime_khac = id;
    ctime_khac.ctime_ns = 999_999;
    let r = repo.upsert_pending(&ctime_khac, &rloc("phim/a.mp4"), NOW + DELAY, 1, NOW + 1).unwrap();
    assert!(r.dropped_as_self_event, "remote không coi ctime là thay đổi");
    assert_eq!(get(repo, &id.key).state, State::Distinct);

    // Cùng file trên root cục bộ thì ctime đổi là thay đổi thật.
    let lid = ident(9, 100, 5, 5);
    let lrow = seed(repo, &lid, &loc("b.mp4"));
    let lrow = move_to(repo, &lrow, State::Sized, Patch::new().identity(lid));
    move_to(repo, &lrow, State::Distinct, Patch::new().ready_at(None));
    let mut lc = lid;
    lc.ctime_ns = 999_999;
    let r = repo.upsert_pending(&lc, &loc("b.mp4"), NOW + DELAY, 0, NOW + 1).unwrap();
    assert!(!r.dropped_as_self_event);
    assert_eq!(get(repo, &lid.key).state, State::Settling);
}

fn kb_upsert_canonical_doi_fingerprint_thi_group_mat_goc(repo: &mut MemoryRepository) {
    let a = ident(1, 100, 5, 5);
    let b = ident(2, 100, 5, 5);
    let ra = seed(repo, &a, &loc("a.mp4"));
    let rb = seed(repo, &b, &loc("b.mp4"));
    let ra = move_to(repo, &ra, State::Sized, Patch::new().identity(a));
    let rb = move_to(repo, &rb, State::Sized, Patch::new().identity(b));
    // B trùng A: A thành canonical của group mới, B vào hashed.
    let t =
        nasdedup_core::repo::types::Transition::new(rb.id, State::Sized, State::Hashed, Patch::new(), NOW)
            .with_group(GroupOp::Create { canonical: ra.id, sparse_hash: [7; 32], hash_version: 1 })
            .with_other(ra.id, State::Sized, State::Canonical, Patch::new().ready_at(None));
    assert!(repo.apply(&t).unwrap());
    let gid = get(repo, &a.key).group_id.expect("A có group");
    assert_eq!(repo.group_get(gid).unwrap().unwrap().canonical_file_id, Some(ra.id));

    // A bị ghi đè → group mất gốc, để lần verify sau bầu lại.
    repo.upsert_pending(&ident(1, 100, 8, 8), &loc("a.mp4"), NOW + DELAY, 0, NOW + 1).unwrap();
    let a_after = get(repo, &a.key);
    assert_eq!(a_after.state, State::Settling);
    assert_eq!(a_after.group_id, None);
    assert_eq!(repo.group_get(gid).unwrap().unwrap().canonical_file_id, None);
    assert_eq!(get(repo, &b.key).group_id, Some(gid), "B vẫn trong group");
}

fn kb_upsert_root_chua_dang_ky_bi_tu_choi(repo: &mut MemoryRepository) {
    let err = repo.upsert_pending(
        &ident(1, 100, 5, 5),
        &nasdedup_core::model::FileLoc::new(77, "x.mp4"),
        NOW,
        0,
        NOW,
    );
    assert!(matches!(err, Err(nasdedup_core::repo::RepoError::Constraint(_))), "{err:?}");
}

fn kb_next_ready_uu_tien_realtime(repo: &mut MemoryRepository) {
    repo.upsert_pending(&ident(1, 100, 1, 1), &loc("scan.mp4"), NOW - 500, 2, NOW).unwrap();
    repo.upsert_pending(&ident(2, 200, 2, 2), &loc("moi.mp4"), NOW, 0, NOW).unwrap();
    let r = repo.next_ready(NOW, true, 0).unwrap().expect("có row");
    assert_eq!(r.loc.rel_path, "moi.mp4", "upload mới chạy trước backlog scan");
}

fn kb_next_ready_khong_tra_row_chua_den_han(repo: &mut MemoryRepository) {
    repo.upsert_pending(&ident(1, 100, 1, 1), &loc("a.mp4"), NOW + DELAY, 0, NOW).unwrap();
    assert!(repo.next_ready(NOW, true, 0).unwrap().is_none());
    assert!(repo.next_ready(NOW + DELAY, true, 0).unwrap().is_some());
}

fn kb_next_ready_ngoai_khung_gio_chi_settling_sized(repo: &mut MemoryRepository) {
    let id = ident(1, 100, 1, 1);
    let row = seed(repo, &id, &loc("a.mp4"));
    let row = move_to(repo, &row, State::Sized, Patch::new().identity(id));
    assert!(repo.next_ready(NOW, false, 3_600_000).unwrap().is_some(), "sized là bước nhẹ");
    move_to(repo, &row, State::Hashed, Patch::new().ready_at(Some(NOW)));
    assert!(repo.next_ready(NOW, false, 3_600_000).unwrap().is_none(), "hashed là bước nặng");
    assert!(repo.next_ready(NOW, true, 3_600_000).unwrap().is_some());
}

fn kb_next_ready_max_wait(repo: &mut MemoryRepository) {
    let id = ident(1, 100, 1, 1);
    let row = seed(repo, &id, &loc("a.mp4"));
    let row = move_to(repo, &row, State::Sized, Patch::new().identity(id));
    move_to(
        repo,
        &row,
        State::Hashed,
        Patch::new().ready_at(Some(NOW)).heavy_wait_since(Some(NOW - 7 * 3_600_000)),
    );
    assert!(repo.next_ready(NOW, false, 6 * 3_600_000).unwrap().is_some(), "chờ 7 giờ > 6 giờ");
    assert!(repo.next_ready(NOW, false, 8 * 3_600_000).unwrap().is_none());
}

fn kb_next_ready_verified_khong_thuoc_hang_doi(repo: &mut MemoryRepository) {
    let id = ident(1, 100, 1, 1);
    let row = seed(repo, &id, &loc("a.mp4"));
    let row = move_to(repo, &row, State::Sized, Patch::new().identity(id));
    let row = move_to(repo, &row, State::Hashed, Patch::new());
    move_to(repo, &row, State::Verified, Patch::new().ready_at(Some(NOW)));
    assert!(repo.next_ready(NOW, true, 0).unwrap().is_none());
}

fn kb_pending_counts_chi_dem_realtime(repo: &mut MemoryRepository) {
    repo.upsert_pending(&ident(1, 100, 1, 1), &loc("a.mp4"), NOW, 0, NOW).unwrap();
    repo.upsert_pending(&ident(2, 100, 1, 1), &loc("b.mp4"), NOW, 0, NOW).unwrap();
    repo.upsert_pending(&ident(3, 100, 1, 1), &loc("c.mp4"), NOW, 2, NOW).unwrap();
    let mut khac = ident(4, 100, 1, 1);
    khac.uid = 1001;
    repo.upsert_pending(&khac, &loc("d.mp4"), NOW, 0, NOW).unwrap();

    let (total, mut per_uid) = repo.pending_counts().unwrap();
    per_uid.sort();
    assert_eq!(total, 3, "row của initial scan không tính");
    assert_eq!(per_uid, vec![(1000, 2), (1001, 1)]);
}

/// Tiêu chí hoàn thành Phase 1: gieo **mỗi state một row**, tất cả đều có
/// `ready_at` trong quá khứ, rồi khẳng định hàng đợi chỉ nhặt ba state của mình.
///
/// Test này bắt được lỗi mà các kịch bản trước bỏ sót: một state mới thêm vào
/// `State::ALL` mà quên loại khỏi câu truy vấn sẽ lọt vào hàng đợi im lặng.
fn kb_next_ready_gieo_moi_state_mot_row(repo: &mut MemoryRepository) {
    const SAU_GIO: i64 = 6 * 3_600_000;

    for (i, st) in State::ALL.into_iter().enumerate() {
        let ino = 100 + i as u64;
        let row = seed(repo, &ident(ino, 100, 1, 1), &loc(&format!("{}.mp4", st.as_str())));
        // `heavy_wait_since` mới, để row nặng chưa được ưu tiên vượt khung giờ.
        move_to(
            repo,
            &row,
            st,
            Patch::new().ready_at(Some(NOW - 1)).heavy_wait_since(Some(NOW - 1)),
        );
    }

    // Rút cạn hàng đợi: mỗi row lấy ra được đưa sang `distinct` để vòng lặp tiến.
    let mut thay: Vec<State> = Vec::new();
    while let Some(r) = repo.next_ready(NOW, true, SAU_GIO).unwrap() {
        thay.push(r.state);
        move_to(repo, &r, State::Distinct, Patch::new().ready_at(None));
    }
    thay.sort_by_key(|s| s.as_str());
    assert_eq!(
        thay,
        vec![State::Hashed, State::Settling, State::Sized],
        "chỉ ba state là hàng đợi"
    );
}

/// Cùng phép gieo như trên nhưng `allow_heavy = false`: `hashed` phải nằm lại,
/// trừ khi đã chờ quá `max_wait_ms`.
fn kb_next_ready_gieo_moi_state_ngoai_khung_gio(repo: &mut MemoryRepository) {
    const SAU_GIO: i64 = 6 * 3_600_000;

    for (i, st) in State::ALL.into_iter().enumerate() {
        let ino = 100 + i as u64;
        let row = seed(repo, &ident(ino, 100, 1, 1), &loc(&format!("{}.mp4", st.as_str())));
        move_to(
            repo,
            &row,
            st,
            Patch::new().ready_at(Some(NOW - 1)).heavy_wait_since(Some(NOW - 1)),
        );
    }

    let mut thay: Vec<State> = Vec::new();
    while let Some(r) = repo.next_ready(NOW, false, SAU_GIO).unwrap() {
        thay.push(r.state);
        move_to(repo, &r, State::Distinct, Patch::new().ready_at(None));
    }
    thay.sort_by_key(|s| s.as_str());
    assert_eq!(thay, vec![State::Settling, State::Sized], "row nặng phải đợi khung giờ");

    // Row `hashed` chờ 7 giờ > max_wait 6 giờ thì được chạy dù ngoài khung giờ.
    let hashed = get(repo, &ident(100 + hashed_index(), 100, 1, 1).key);
    move_to(repo, &hashed, State::Hashed, Patch::new().heavy_wait_since(Some(NOW - 7 * 3_600_000)));
    let r = repo.next_ready(NOW, false, SAU_GIO).unwrap().expect("đã chờ quá lâu");
    assert_eq!(r.state, State::Hashed);
}

/// Vị trí của `hashed` trong `State::ALL`, để không phải viết số cứng.
fn hashed_index() -> u64 {
    State::ALL
        .into_iter()
        .position(|s| s == State::Hashed)
        .map_or(0, |i| u64::try_from(i).unwrap_or(0))
}

/// `user_undo` giữ được `skip_reason` và `state`, nhưng **không** giữ `ready_at`:
/// sự kiện mới vẫn phải đẩy `ready_at` như mọi row khác.
///
/// Bản SQL từng thêm một nhánh `CASE` riêng cho `user_undo` ở cột `ready_at` và
/// lệch với `rules::decide_upsert` ở đúng chỗ này.
fn kb_upsert_user_undo_van_cap_nhat_ready_at(repo: &mut MemoryRepository) {
    let id = ident(1, 100, 5, 5);
    let row = seed(repo, &id, &loc("a.mp4"));
    move_to(
        repo,
        &row,
        State::Skipped,
        Patch::new().ready_at(None).skip_reason(Some("user_undo".to_owned())),
    );

    // Nội dung đổi thật, nhưng người dùng đã tách file này ra.
    repo.upsert_pending(&ident(1, 100, 999, 999), &loc("a.mp4"), NOW + DELAY, 0, NOW + 2).unwrap();

    let a = get(repo, &id.key);
    assert_eq!(a.state, State::Skipped, "quyết định của người dùng phải dính");
    assert_eq!(a.skip_reason.as_deref(), Some("user_undo"));
    assert_eq!(a.ready_at, Some(NOW + DELAY), "ready_at vẫn theo sự kiện mới");
}

/// `missing` với `prev_state` không khôi phục được (chính là `missing`/`gone`) phải
/// về `settling` **kèm** `ready_at`, nếu không row kẹt vĩnh viễn trong hàng đợi.
///
/// Bản SQL từng xét `prev_state` thay vì state đã khôi phục, nên rơi vào đúng bẫy đó.
fn kb_upsert_missing_prev_khong_khoi_phuc_duoc(repo: &mut MemoryRepository) {
    for prev in [State::Missing, State::Gone] {
        let ino = if prev == State::Missing { 1 } else { 2 };
        let id = ident(ino, 100, 5, 5);
        let name = format!("{}.mp4", prev.as_str());
        let row = seed(repo, &id, &loc(&name));
        move_to(repo, &row, State::Missing, Patch::new().prev_state(Some(prev)).ready_at(None));

        repo.upsert_pending(&id, &loc(&name), NOW + DELAY, 0, NOW + 2).unwrap();

        let a = get(repo, &id.key);
        assert_eq!(a.state, State::Settling, "prev = {prev:?} không khôi phục được");
        assert_eq!(a.ready_at, Some(NOW + DELAY), "settling mà thiếu ready_at là kẹt vĩnh viễn");
    }
    assert!(repo.next_ready(NOW + DELAY, true, 0).unwrap().is_some());
}

/// Nhóm chỉ mất gốc khi **chính lần upsert này** đẩy row ra khỏi nhóm.
///
/// Một row đã rời nhóm từ trước mà vẫn được nhóm trỏ tới (canonical mồ côi) thì
/// một sự kiện fingerprint-không-đổi không được đụng vào nhóm.
fn kb_upsert_canonical_mo_coi_khong_bi_dung(repo: &mut MemoryRepository) {
    let a = ident(1, 100, 5, 5);
    let b = ident(2, 100, 5, 5);
    let ra = move_to_new(repo, &a, &loc("a.mp4"), State::Sized, Patch::new().identity(a));
    let rb = move_to_new(repo, &b, &loc("b.mp4"), State::Sized, Patch::new().identity(b));
    let t = Transition::new(rb.id, State::Sized, State::Hashed, Patch::new(), NOW)
        .with_group(GroupOp::Create { canonical: ra.id, sparse_hash: [7; 32], hash_version: 1 });
    assert!(repo.apply(&t).unwrap());
    let gid = get(repo, &a.key).group_id.expect("A vào nhóm");

    // A rời nhóm nhưng nhóm vẫn trỏ tới nó.
    let ra = get(repo, &a.key);
    move_to(repo, &ra, State::Skipped, Patch::new().group_id(None).ready_at(None));
    assert_eq!(repo.group_get(gid).unwrap().unwrap().canonical_file_id, Some(ra.id));

    // Sự kiện của chính daemon trên A: không được coi là "A vừa rời nhóm".
    repo.upsert_pending(&a, &loc("a.mp4"), NOW + DELAY, 0, NOW + 5).unwrap();
    assert_eq!(
        repo.group_get(gid).unwrap().unwrap().canonical_file_id,
        Some(ra.id),
        "fingerprint không đổi thì nhóm không được mất gốc"
    );
}

/// `scan_insert` đặt thẳng state, và **không đụng** row đã có (spec 5.10 pha A).
fn kb_scan_insert_dat_thang_state_va_bo_qua_row_da_co(repo: &mut MemoryRepository) {

    let a = ident(1, 100, 5, 5);
    let b = ident(2, 200, 6, 6);
    let rows = vec![
        // File đã đủ già: vào thẳng `sized`, chưa xếp hàng.
        ScanRow { id: a, loc: loc("a.mp4"), state: State::Sized, ready_at: None, priority: 2 },
        // File còn mới: `settling` với hẹn.
        ScanRow {
            id: b,
            loc: loc("b.mp4"),
            state: State::Settling,
            ready_at: Some(NOW + DELAY),
            priority: 2,
        },
    ];
    assert_eq!(repo.scan_insert(&rows, NOW).unwrap(), 2);

    let ra = get(repo, &a.key);
    assert_eq!(ra.state, State::Sized, "không phải đi qua bước ổn định");
    assert_eq!(ra.ready_at, None, "chờ pha B đánh thức");
    assert_eq!(ra.priority, 2);
    assert_eq!(ra.enq, Some(a.fingerprint()), "snapshot lúc xếp hàng vẫn phải có");

    let rb = get(repo, &b.key);
    assert_eq!(rb.state, State::Settling);
    assert_eq!(rb.ready_at, Some(NOW + DELAY));

    // Quét lại: row đã có thì không đụng gì, kể cả khi lô mới nói state khác.
    let row_a_truoc = get(repo, &a.key);
    let lai = vec![ScanRow {
        id: a,
        loc: loc("a.mp4"),
        state: State::Settling,
        ready_at: Some(NOW + 99),
        priority: 0,
    }];
    assert_eq!(repo.scan_insert(&lai, NOW + 10).unwrap(), 0, "không chèn thêm");
    let sau = get(repo, &a.key);
    assert_eq!(sau.state, row_a_truoc.state, "quét lại không được đặt lại tiến độ");
    assert_eq!(sau.ready_at, row_a_truoc.ready_at);
    assert_eq!(sau.priority, row_a_truoc.priority);
}

/// `scan_insert` với root chưa đăng ký bị từ chối, giống `upsert_pending`.
fn kb_scan_insert_root_chua_dang_ky_bi_tu_choi(repo: &mut MemoryRepository) {
    let rows = vec![ScanRow {
        id: ident(1, 100, 5, 5),
        loc: nasdedup_core::model::FileLoc::new(77, "x.mp4"),
        state: State::Sized,
        ready_at: None,
        priority: 2,
    }];
    let e = repo.scan_insert(&rows, NOW);
    assert!(matches!(e, Err(nasdedup_core::repo::RepoError::Constraint(_))), "{e:?}");
}

/// Pha B: chỉ đánh thức row có bạn cùng kích thước; phần còn lại thành `distinct`
/// mà **không đọc một byte nào** (spec 5.10).
fn kb_scan_phase_b_chi_danh_thuc_row_co_ban_cung_kich_thuoc(repo: &mut MemoryRepository) {

    let sized = |id: Identity, rel: &str| ScanRow {
        id,
        loc: loc(rel),
        state: State::Sized,
        ready_at: None,
        priority: 2,
    };
    // Hai file cùng 100 byte, một file 999 byte đứng riêng.
    let a = ident(1, 100, 5, 5);
    let b = ident(2, 100, 6, 6);
    let c = ident(3, 999, 7, 7);
    repo.scan_insert(&vec![sized(a, "a.mp4"), sized(b, "b.mp4"), sized(c, "c.mp4")], NOW).unwrap();

    let (danh_thuc, rieng) = repo.scan_phase_b(1, NOW + 1).unwrap();
    assert_eq!(danh_thuc, 2, "hai file cùng kích thước phải vào hàng đợi");
    assert_eq!(rieng, 1, "file kích thước duy nhất khỏi phải đọc");

    assert_eq!(get(repo, &a.key).ready_at, Some(NOW + 1));
    assert_eq!(get(repo, &b.key).ready_at, Some(NOW + 1));
    let rc = get(repo, &c.key);
    assert_eq!(rc.state, State::Distinct);
    assert_eq!(rc.ready_at, None, "distinct thì không còn việc gì");
    assert_eq!(rc.sparse_hash, None, "và chưa bao giờ bị đọc để hash");
}

/// Pha B không đụng row đã ở trong hàng đợi, và chỉ làm việc trên root được chỉ định.
fn kb_scan_phase_b_khong_dung_row_dang_cho_va_root_khac(repo: &mut MemoryRepository) {

    // Row đang chờ xử lý (có `ready_at`) không được đụng tới.
    let dang_cho = ident(1, 100, 5, 5);
    repo.scan_insert(&vec![ScanRow {
            id: dang_cho,
            loc: loc("dang-cho.mp4"),
            state: State::Sized,
            ready_at: Some(NOW),
            priority: 2,
        }],
        NOW,
    )
    .unwrap();

    // Row ở root khác (remote) cùng kích thước, chưa xếp hàng.
    let root_khac = ident(2, 100, 6, 6);
    repo.scan_insert(&vec![ScanRow {
            id: root_khac,
            loc: rloc("tren-remote.mp4"),
            state: State::Sized,
            ready_at: None,
            priority: 2,
        }],
        NOW,
    )
    .unwrap();

    let (danh_thuc, rieng) = repo.scan_phase_b(1, NOW + 1).unwrap();
    assert_eq!((danh_thuc, rieng), (0, 0), "root 1 không còn row nào chưa xếp hàng");
    assert_eq!(get(repo, &dang_cho.key).ready_at, Some(NOW), "row đang chờ giữ nguyên hẹn");
    assert_eq!(get(repo, &root_khac.key).state, State::Sized, "root 2 chưa tới lượt");

    // Chạy pha B cho root 2: file của nó có bạn cùng kích thước ở root 1.
    let (danh_thuc, rieng) = repo.scan_phase_b(2, NOW + 2).unwrap();
    assert_eq!(danh_thuc, 1, "bản trùng có thể nằm ở root khác cùng filesystem");
    assert_eq!(rieng, 0);
}

// ---- apply ----



fn kb_apply_cas_thanh_cong_ghi_patch(repo: &mut MemoryRepository) {
    let id = ident(1, 100, 5, 5);
    let row = seed(repo, &id, &loc("a.mp4"));
    let patch = Patch::new()
        .identity(id)
        .magic_ok(true)
        .sparse_hash(Some([3; 32]))
        .hash_version(1)
        .attempts(2)
        .last_error(Some("thử".to_owned()))
        .ready_at(Some(NOW + 5));
    let ok = repo
        .apply(&Transition::new(row.id, State::Settling, State::Sized, patch, NOW + 9))
        .unwrap();
    assert!(ok);
    let after = get(repo, &id.key);
    assert_eq!(after.state, State::Sized);
    assert_eq!(after.magic_ok, Some(true));
    assert_eq!(after.sparse_hash, Some([3; 32]));
    assert_eq!(after.hash_version, Some(1));
    assert_eq!(after.attempts, 2);
    assert_eq!(after.last_error.as_deref(), Some("thử"));
    assert_eq!(after.ready_at, Some(NOW + 5));
    assert_eq!(after.updated_at, NOW + 9);
}

fn kb_apply_cas_that_bai_van_ghi_event_state_raced(repo: &mut MemoryRepository) {
    let id = ident(1, 100, 5, 5);
    let row = seed(repo, &id, &loc("a.mp4"));
    let ev = DedupEvent::new(NOW, EventMethod::Fideduperange, EventResult::Same);
    // from sai (row đang settling): CAS phải thất bại, patch không được ghi.
    let t = Transition::new(row.id, State::Hashed, State::Deduped, Patch::new().attempts(9), NOW)
        .with_event(ev);
    assert!(!repo.apply(&t).unwrap());
    let after = get(repo, &id.key);
    assert_eq!(after.state, State::Settling);
    assert_eq!(after.attempts, 0, "patch bị bỏ khi CAS thất bại");

    let evs = repo.events(&EventFilter::default()).unwrap();
    assert_eq!(evs.len(), 1, "event vẫn ghi vì extent đã share là thật");
    assert!(evs[0].note.as_deref().unwrap_or("").contains("state_raced"));
}

fn kb_apply_doi_state_xoa_heavy_wait_since(repo: &mut MemoryRepository) {
    let id = ident(1, 100, 5, 5);
    let row = seed(repo, &id, &loc("a.mp4"));
    // Defer cùng state: đặt heavy_wait_since.
    let row = move_to(repo, &row, State::Settling, Patch::new().heavy_wait_since(Some(NOW)));
    assert_eq!(row.heavy_wait_since, Some(NOW));
    // Defer lần nữa không patch: giữ.
    let row = move_to(repo, &row, State::Settling, Patch::new().ready_at(Some(NOW + 1)));
    assert_eq!(row.heavy_wait_since, Some(NOW), "cùng state thì giữ");
    // Đổi state: về NULL.
    let row = move_to(repo, &row, State::Sized, Patch::new().identity(id));
    assert_eq!(row.heavy_wait_since, None, "đổi state thì đặt lại");
    // Đổi state nhưng patch đặt tường minh: theo patch.
    let row = move_to(repo, &row, State::Hashed, Patch::new().heavy_wait_since(Some(7)));
    assert_eq!(row.heavy_wait_since, Some(7));
}

fn kb_apply_group_create_join_verified(repo: &mut MemoryRepository) {
    let a = ident(1, 100, 5, 5);
    let b = ident(2, 100, 5, 5);
    let c = ident(3, 100, 5, 5);
    let ra = move_to_new(repo, &a, &loc("a.mp4"), State::Sized, Patch::new().identity(a));
    let rb = move_to_new(repo, &b, &loc("b.mp4"), State::Sized, Patch::new().identity(b));
    let rc = move_to_new(repo, &c, &loc("c.mp4"), State::Sized, Patch::new().identity(c));

    let t = Transition::new(rb.id, State::Sized, State::Hashed, Patch::new(), NOW)
        .with_group(GroupOp::Create { canonical: ra.id, sparse_hash: [7; 32], hash_version: 1 })
        .with_other(ra.id, State::Sized, State::Canonical, Patch::new().ready_at(None));
    assert!(repo.apply(&t).unwrap());
    let gid = get(repo, &b.key).group_id.expect("B vào group");
    assert_eq!(get(repo, &a.key).group_id, Some(gid), "canonical cũng vào group");
    assert_eq!(get(repo, &a.key).state, State::Canonical);
    let g = repo.group_get(gid).unwrap().unwrap();
    assert_eq!(
        (g.canonical_file_id, g.size, g.sparse_hash, g.verified_at),
        (Some(ra.id), 100, [7; 32], None)
    );
    assert_eq!(repo.groups_by_key(&g.domain_id, 100, &[7; 32]).unwrap().len(), 1);

    // C gia nhập group có sẵn.
    let t = Transition::new(rc.id, State::Sized, State::Hashed, Patch::new(), NOW)
        .with_group(GroupOp::Join(gid));
    assert!(repo.apply(&t).unwrap());
    let mut members: Vec<_> = repo.group_members(gid).unwrap().into_iter().map(|r| r.id).collect();
    members.sort();
    assert_eq!(members, vec![ra.id, rb.id, rc.id]);

    // Verified: đặt verified_at lần đầu, không ghi đè lần sau; full_hash chỉ điền khi trống.
    let t = Transition::new(
        rb.id,
        State::Hashed,
        State::Deduped,
        Patch::new().ready_at(None),
        NOW + 10,
    )
    .with_group(GroupOp::Verified { group: gid, full_hash: None });
    assert!(repo.apply(&t).unwrap());
    let g = repo.group_get(gid).unwrap().unwrap();
    assert_eq!((g.verified_at, g.full_hash), (Some(NOW + 10), None));
    let t = Transition::new(
        rc.id,
        State::Hashed,
        State::Deduped,
        Patch::new().ready_at(None),
        NOW + 20,
    )
    .with_group(GroupOp::Verified { group: gid, full_hash: Some([9; 32]) });
    assert!(repo.apply(&t).unwrap());
    let g = repo.group_get(gid).unwrap().unwrap();
    assert_eq!((g.verified_at, g.full_hash), (Some(NOW + 10), Some([9; 32])));
}

fn kb_apply_set_canonical_va_leave(repo: &mut MemoryRepository) {
    let a = ident(1, 100, 5, 5);
    let b = ident(2, 100, 5, 5);
    let ra = move_to_new(repo, &a, &loc("a.mp4"), State::Sized, Patch::new().identity(a));
    let rb = move_to_new(repo, &b, &loc("b.mp4"), State::Sized, Patch::new().identity(b));
    let t = Transition::new(rb.id, State::Sized, State::Hashed, Patch::new(), NOW)
        .with_group(GroupOp::Create { canonical: ra.id, sparse_hash: [7; 32], hash_version: 1 })
        .with_other(ra.id, State::Sized, State::Canonical, Patch::new().ready_at(None));
    assert!(repo.apply(&t).unwrap());
    let gid = get(repo, &b.key).group_id.unwrap();
    let rb = move_to(repo, &get(repo, &b.key), State::Deduped, Patch::new().ready_at(None));

    // Bầu lại: B thành canonical.
    let t = Transition::new(rb.id, State::Deduped, State::Canonical, Patch::new(), NOW)
        .with_group(GroupOp::SetCanonical { group: gid, file: rb.id });
    assert!(repo.apply(&t).unwrap());
    assert_eq!(repo.group_get(gid).unwrap().unwrap().canonical_file_id, Some(rb.id));

    // B rời group (undo): group mất gốc, B không còn group_id.
    let t = Transition::new(
        rb.id,
        State::Canonical,
        State::Skipped,
        Patch::new().skip_reason(Some("user_undo".into())),
        NOW,
    )
    .with_group(GroupOp::Leave(gid));
    assert!(repo.apply(&t).unwrap());
    assert_eq!(get(repo, &b.key).group_id, None);
    assert_eq!(repo.group_get(gid).unwrap().unwrap().canonical_file_id, None);
    assert_eq!(get(repo, &a.key).group_id, Some(gid), "A vẫn ở lại");

    // Group không tồn tại → lỗi ràng buộc, không đổi row.
    let err = repo.apply(
        &Transition::new(ra.id, State::Canonical, State::Hashed, Patch::new(), NOW)
            .with_group(GroupOp::Join(9_999)),
    );
    assert!(matches!(err, Err(nasdedup_core::repo::RepoError::Constraint(_))), "{err:?}");
    assert_eq!(get(repo, &a.key).state, State::Canonical);
}

fn kb_apply_others_best_effort(repo: &mut MemoryRepository) {
    // Backfill cho ứng viên: ứng viên đã đổi state thì bỏ qua riêng nó, row chính vẫn đi tiếp.
    let a = ident(1, 100, 5, 5);
    let b = ident(2, 100, 5, 5);
    let ra = move_to_new(repo, &a, &loc("a.mp4"), State::Sized, Patch::new().identity(a));
    let rb = move_to_new(repo, &b, &loc("b.mp4"), State::Sized, Patch::new().identity(b));
    let t = Transition::new(rb.id, State::Sized, State::Distinct, Patch::new().ready_at(None), NOW)
        .with_other(ra.id, State::Hashed, State::Sized, Patch::new().sparse_hash(Some([1; 32]))); // from sai
    assert!(repo.apply(&t).unwrap(), "row chính vẫn thành công");
    assert_eq!(get(repo, &b.key).state, State::Distinct);
    assert_eq!(get(repo, &a.key).sparse_hash, None, "other với from sai bị bỏ qua");
}

fn kb_apply_journal_dong_cung_transaction(repo: &mut MemoryRepository) {
    let a = ident(1, 100, 5, 5);
    let ra = move_to_new(repo, &a, &loc("a.mp4"), State::Sized, Patch::new().identity(a));
    let ra = move_to(repo, &ra, State::Hashed, Patch::new());
    let jid = repo
        .journal_begin(&JournalRow {
            id: None,
            method: EventMethod::VerifiedClone,
            group_id: None,
            src_file_id: 99,
            dst_file_id: ra.id,
            state: JournalState::Cloned,
            src: None,
            src_size: None,
            src_mtime_ns: None,
            src_ctime_ns: None,
            dst: a.key,
            dst_size: 100,
            dst_mtime_ns: 5,
            dst_atime_ns: 0,
            dst_ctime_ns: 5,
            started_at: NOW,
            updated_at: NOW,
            error: None,
        })
        .unwrap();
    assert_eq!(repo.journal_open().unwrap().len(), 1);

    let t =
        Transition::new(ra.id, State::Hashed, State::Deduped, Patch::new().ready_at(None), NOW + 3)
            .with_journal(jid, JournalState::Done);
    assert!(repo.apply(&t).unwrap());
    assert!(repo.journal_open().unwrap().is_empty(), "journal đóng cùng transaction");

    // Journal không tồn tại → lỗi và row không đổi.
    let err = repo.apply(
        &Transition::new(ra.id, State::Deduped, State::Settling, Patch::new(), NOW)
            .with_journal(4_242, JournalState::Done),
    );
    assert!(matches!(err, Err(nasdedup_core::repo::RepoError::Constraint(_))), "{err:?}");
    assert_eq!(get(repo, &a.key).state, State::Deduped);
}

// ---- watch ----



fn kb_rename_doi_path_va_danh_dau_row_bi_de(repo: &mut MemoryRepository) {
    // rsync/Nextcloud ghi temp rồi rename đè lên b.mp4: inode cũ của b.mp4 biến mất
    // mà không có event Remove (bản chốt mục 4).
    let cu = ident(1, 100, 5, 5);
    let tmp = ident(2, 100, 6, 6);
    seed(repo, &cu, &loc("b.mp4"));
    seed(repo, &tmp, &loc(".b.mp4.XyZ123"));

    repo.rename(&tmp.key, &loc("b.mp4"), NOW + 1).unwrap();
    assert_eq!(get(repo, &tmp.key).loc, loc("b.mp4"));
    let old = get(repo, &cu.key);
    assert_eq!(old.state, State::Missing, "row cũ cùng path phải thành missing");
    assert_eq!(old.prev_state, Some(State::Settling));
    // Hai row cùng path: find_by_path phải trả row còn sống, không phải row missing.
    assert_eq!(repo.find_by_path(&loc("b.mp4")).unwrap().map(|r| r.key), Some(tmp.key));

    // Rename khóa không tồn tại → lỗi.
    assert!(repo.rename(&ident(9, 0, 0, 0).key, &loc("z.mp4"), NOW).is_err());
}

fn kb_rename_prefix_thu_muc(repo: &mut MemoryRepository) {
    seed(repo, &ident(1, 100, 1, 1), &loc("phim/a.mp4"));
    seed(repo, &ident(2, 100, 1, 1), &loc("phim/sub/b.mp4"));
    seed(repo, &ident(3, 100, 1, 1), &loc("phim2/c.mp4")); // tiền tố giống chuỗi nhưng khác thư mục
    seed(repo, &ident(4, 100, 1, 1), &loc("khac/d.mp4"));

    let n = repo.rename_prefix(&loc("phim"), &loc("video"), NOW + 1).unwrap();
    assert_eq!(n, 2, "phim2/ không được tính là con của phim/");
    assert_eq!(get(repo, &ident(1, 0, 0, 0).key).loc, loc("video/a.mp4"));
    assert_eq!(get(repo, &ident(2, 0, 0, 0).key).loc, loc("video/sub/b.mp4"));
    assert_eq!(get(repo, &ident(3, 0, 0, 0).key).loc, loc("phim2/c.mp4"));
}

fn kb_mark_missing_va_prefix(repo: &mut MemoryRepository) {
    let a = ident(1, 100, 1, 1);
    let row = seed(repo, &a, &loc("phim/a.mp4"));
    let row = move_to(repo, &row, State::Sized, Patch::new().identity(a));
    move_to(repo, &row, State::Distinct, Patch::new().ready_at(None).heavy_wait_since(Some(1)));
    seed(repo, &ident(2, 100, 1, 1), &loc("phim/b.mp4"));
    seed(repo, &ident(3, 100, 1, 1), &loc("khac/c.mp4"));

    repo.mark_missing(&loc("phim/a.mp4"), NOW + 1).unwrap();
    let m = get(repo, &a.key);
    assert_eq!(
        (m.state, m.prev_state, m.ready_at, m.heavy_wait_since),
        (State::Missing, Some(State::Distinct), None, None)
    );
    // Đánh dấu lần hai không ghi đè prev_state.
    repo.mark_missing(&loc("phim/a.mp4"), NOW + 2).unwrap();
    assert_eq!(get(repo, &a.key).prev_state, Some(State::Distinct));
    // Path không có row: không lỗi.
    repo.mark_missing(&loc("khong/co.mp4"), NOW).unwrap();

    let n = repo.mark_missing_prefix(&loc("phim"), NOW + 3).unwrap();
    assert_eq!(n, 1, "a.mp4 đã missing rồi, chỉ b.mp4 mới đổi");
    assert_eq!(get(repo, &ident(2, 0, 0, 0).key).state, State::Missing);
    assert_eq!(get(repo, &ident(3, 0, 0, 0).key).state, State::Settling);
}

fn kb_restore_or_reset_theo_fingerprint(repo: &mut MemoryRepository) {
    let a = ident(1, 100, 5, 5);
    let row = seed(repo, &a, &loc("a.mp4"));
    let row = move_to(repo, &row, State::Sized, Patch::new().identity(a));
    move_to(repo, &row, State::Distinct, Patch::new().ready_at(None).sparse_hash(Some([1; 32])));
    repo.mark_missing(&loc("a.mp4"), NOW + 1).unwrap();

    // Khớp → về prev_state, giữ hash, không đánh thức vì distinct không thuộc hàng đợi.
    repo.restore_or_reset(&a.key, &a, NOW + 2).unwrap();
    let r = get(repo, &a.key);
    assert_eq!((r.state, r.sparse_hash, r.ready_at), (State::Distinct, Some([1; 32]), None));

    // Lệch → settling, mất hash, được đánh thức.
    repo.mark_missing(&loc("a.mp4"), NOW + 3).unwrap();
    repo.restore_or_reset(&a.key, &ident(1, 100, 8, 8), NOW + 4).unwrap();
    let r = get(repo, &a.key);
    assert_eq!((r.state, r.sparse_hash), (State::Settling, None));
    assert_eq!(r.ready_at, Some(NOW + 4));

    // Row không missing thì không đụng.
    repo.restore_or_reset(&a.key, &ident(1, 100, 9, 9), NOW + 5).unwrap();
    assert_eq!(get(repo, &a.key).enq.map(|f| f.mtime_ns), Some(8));
    // Khóa không tồn tại: không lỗi.
    repo.restore_or_reset(&ident(77, 0, 0, 0).key, &ident(77, 1, 1, 1), NOW).unwrap();
}

/// `rename_prefix` khi `old_dir` trỏ thẳng vào một file, và khi đổi sang root khác.
///
/// Bản trong bộ nhớ từng dùng `PathBuf::join`: trên Windows nó chèn `\` và còn
/// thêm một dấu phân cách thừa khi phần đuôi rỗng, nên kết quả lệch bản SQLite
/// **chỉ khi chạy trên Windows**.
fn kb_rename_prefix_mot_file_va_doi_root(repo: &mut MemoryRepository) {
    let a = ident(1, 100, 5, 5);
    seed(repo, &a, &loc("phim/a.mp4"));
    repo.rename_prefix(&loc("phim/a.mp4"), &loc("phim/b.mp4"), NOW + 1).unwrap();
    assert_eq!(
        get(repo, &a.key).loc.rel_path,
        "phim/b.mp4",
        "không được thêm dấu phân cách ở cuối"
    );

    let b = ident(2, 100, 5, 5);
    seed(repo, &b, &loc("cu/x.mp4"));
    repo.rename_prefix(&loc("cu"), &rloc("moi"), NOW + 2).unwrap();
    let r = get(repo, &b.key);
    assert_eq!(r.loc.root_id, 2);
    assert_eq!(r.loc.rel_path, "moi/x.mp4", "luôn dùng dấu /");
}

/// Sự kiện xóa nói rằng đường dẫn đó không còn file: **mọi** row đang nhận đường
/// dẫn ấy đều lỗi thời, kể cả row còn sót lại sau một lần đổi tên đè.
fn kb_mark_missing_danh_dau_moi_row_cung_path(repo: &mut MemoryRepository) {
    let a = ident(1, 100, 5, 5);
    let b = ident(2, 200, 7, 7);
    seed(repo, &a, &loc("a.mp4"));
    seed(repo, &b, &loc("a.mp4"));

    repo.mark_missing(&loc("a.mp4"), NOW + 1).unwrap();
    assert_eq!(get(repo, &a.key).state, State::Missing);
    assert_eq!(get(repo, &b.key).state, State::Missing, "không được bỏ sót row thứ hai");
}

/// `rename` là **một** transaction: khóa không tồn tại thì không được để lại row
/// nào bị đánh `missing` (spec 3.3, dòng 270).
fn kb_rename_that_bai_khong_de_lai_dau_vet(repo: &mut MemoryRepository) {
    let cu = ident(1, 100, 5, 5);
    seed(repo, &cu, &loc("b.mp4"));

    let err = repo.rename(&ident(42, 0, 0, 0).key, &loc("b.mp4"), NOW + 1);
    assert!(err.is_err(), "khóa không tồn tại phải báo lỗi");

    let r = get(repo, &cu.key);
    assert_eq!(r.state, State::Settling, "row đang chiếm chỗ phải nguyên vẹn");
    assert_eq!(r.prev_state, None);
    assert_eq!(r.ready_at, Some(NOW));
}

/// `rel_path` rỗng nghĩa là **cả root**, và dấu `/` thừa ở cuối không được đổi kết quả.
///
/// Vị từ khoảng của bản SQL không tự làm được hai điều đó: `'' || '/' .. '' || '0'`
/// không khớp gì, còn `"test/"` sinh cận dưới `test//` nằm sau mọi tên file thật.
fn kb_tien_to_thu_muc_rong_va_dau_gach_thua(repo: &mut MemoryRepository) {
    let a = ident(1, 100, 1, 1);
    let b = ident(2, 100, 1, 1);
    seed(repo, &a, &loc("phim/a.mp4"));
    seed(repo, &b, &loc("b.mp4"));

    assert_eq!(repo.mark_missing_prefix(&loc("phim/"), NOW + 1).unwrap(), 1, "dấu / thừa");
    assert_eq!(get(repo, &a.key).state, State::Missing);

    assert_eq!(repo.mark_missing_prefix(&FileLoc::new(1, ""), NOW + 2).unwrap(), 1, "cả root");
    assert_eq!(get(repo, &b.key).state, State::Missing);
}

/// `rename_prefix` dời cả root, và dời một thư mục lên thẳng gốc root.
///
/// Bản SQL cắt chuỗi theo độ dài nên hai trường hợp biên này dễ sinh ra `rel_path`
/// bắt đầu bằng `/` — một đường dẫn tuyệt đối nằm trong cột chứa đường dẫn tương đối,
/// và từ đó không truy vấn nào tìm thấy nó nữa.
fn kb_rename_prefix_ca_root_va_len_goc(repo: &mut MemoryRepository) {
    let a = ident(1, 100, 1, 1);
    seed(repo, &a, &loc("phim/a.mp4"));
    repo.rename_prefix(&loc("phim"), &FileLoc::new(1, ""), NOW + 1).unwrap();
    assert_eq!(get(repo, &a.key).loc.rel_path, "a.mp4", "không được có / đầu");

    let b = ident(2, 100, 1, 1);
    seed(repo, &b, &loc("x/b.mp4"));
    assert_eq!(repo.rename_prefix(&FileLoc::new(1, ""), &rloc("kho"), NOW + 2).unwrap(), 2);
    assert_eq!(get(repo, &b.key).loc.rel_path, "kho/x/b.mp4");
    assert_eq!(get(repo, &a.key).loc.rel_path, "kho/a.mp4");
}

/// Row `missing` quay lại với nội dung **khác** thì rời nhóm — và nếu nó đang là
/// canonical thì nhóm phải mất gốc.
///
/// Bản SQLite đi qua `upsert_in_tx` nên được bước này miễn phí; bản bộ nhớ gọi
/// thẳng `decide_upsert`/`apply_upsert` nên phải tự làm. Bỏ sót thì nhóm trỏ vào
/// một file không còn thuộc nhóm và **kẹt vĩnh viễn**: spec 5.4 chỉ bầu lại
/// canonical khi con trỏ NULL hoặc file canonical `missing` (BUG-011 mục 6).
fn kb_restore_or_reset_canonical_doi_noi_dung_thi_group_mat_goc(repo: &mut MemoryRepository) {
    let (a, b, gid) = nhom_hai_file(repo);

    repo.mark_missing(&loc("a.mp4"), NOW + 1).unwrap();
    repo.restore_or_reset(&a.key, &ident(1, 100, 9, 9), NOW + 2).unwrap();

    let sau = get(repo, &a.key);
    assert_eq!(sau.state, State::Settling, "nội dung khác thì xử lý lại từ đầu");
    assert_eq!(sau.group_id, None, "rời nhóm");
    assert_eq!(
        repo.group_get(gid).unwrap().unwrap().canonical_file_id,
        None,
        "nhóm phải mất gốc để lần verify sau bầu lại"
    );
    assert_eq!(get(repo, &b.key).group_id, Some(gid), "B vẫn trong nhóm");
}

/// A (canonical) và B cùng một nhóm; trả `(A, B, group_id)`.
fn nhom_hai_file(
    repo: &mut MemoryRepository,
) -> (nasdedup_core::model::Identity, nasdedup_core::model::Identity, i64) {
    let a = ident(1, 100, 5, 5);
    let b = ident(2, 100, 5, 5);
    let ra = move_to_new(repo, &a, &loc("a.mp4"), State::Sized, Patch::new().identity(a));
    let rb = move_to_new(repo, &b, &loc("b.mp4"), State::Sized, Patch::new().identity(b));
    let t = Transition::new(rb.id, State::Sized, State::Hashed, Patch::new(), NOW)
        .with_group(GroupOp::Create { canonical: ra.id, sparse_hash: [7; 32], hash_version: 1 });
    assert!(repo.apply(&t).unwrap());
    let gid = get(repo, &a.key).group_id.expect("A vào nhóm");
    assert_eq!(repo.group_get(gid).unwrap().unwrap().canonical_file_id, Some(ra.id));
    (a, b, gid)
}

// ---- misc ----



fn kb_candidates_loc_va_sap_xep(repo: &mut MemoryRepository) {
    let me = ident(1, 100, 50, 50);
    let me_row =
        move_to_new(repo, &me, &loc("me.mp4"), State::Sized, Patch::new().identity(me));

    // Ứng viên hợp lệ: cùng size, sized/distinct, nlink 1, đã ổn định.
    let old_hashed = ident(2, 100, 10, 10);
    let r = move_to_new(repo, &old_hashed, &loc("a.mp4"), State::Sized,
        Patch::new().identity(old_hashed),
    );
    move_to(repo, &r, State::Distinct, Patch::new().ready_at(None).sparse_hash(Some([1; 32])));
    let newer = ident(3, 100, 20, 20);
    move_to_new(repo, &newer, &loc("b.mp4"), State::Sized, Patch::new().identity(newer));
    let oldest_no_hash = ident(4, 100, 5, 5);
    move_to_new(repo, &oldest_no_hash, &loc("c.mp4"), State::Sized,
        Patch::new().identity(oldest_no_hash),
    );

    // Bị loại: khác size, còn settling, hardlink, chưa ổn định, khác owner.
    seed(repo, &ident(5, 999, 1, 1), &loc("size.mp4"));
    seed(repo, &ident(6, 100, 1, 1), &loc("settling.mp4"));
    let mut hard = ident(7, 100, 1, 1);
    hard.nlink = 2;
    move_to_new(repo, &hard, &loc("hard.mp4"), State::Sized, Patch::new().identity(hard));
    let fresh = ident(8, 100, NOW, NOW);
    move_to_new(repo, &fresh, &loc("fresh.mp4"), State::Sized,
        Patch::new().identity(fresh),
    );
    let mut other_uid = ident(9, 100, 1, 1);
    other_uid.uid = 1001;
    move_to_new(repo, &other_uid, &loc("khac.mp4"), State::Sized,
        Patch::new().identity(other_uid),
    );

    let c = repo.candidates(&me_row, Scope::Owner, 1000, 50).unwrap();
    let inos: Vec<u64> = c.iter().map(|r| r.key.ino).collect();
    // Có hash trước, rồi mtime tăng dần.
    assert_eq!(inos, vec![2, 4, 3]);
    assert!(!inos.contains(&1), "không trả chính mình");

    let c = repo.candidates(&me_row, Scope::SameDomain, 1000, 50).unwrap();
    assert!(c.iter().any(|r| r.key.ino == 9), "same_domain không lọc owner");
    assert_eq!(repo.candidates(&me_row, Scope::Owner, 1000, 2).unwrap().len(), 2, "limit");
}

fn kb_groups_by_key_theo_id(repo: &mut MemoryRepository) {
    let a = ident(1, 100, 5, 5);
    let b = ident(2, 100, 5, 5);
    let ra = move_to_new(repo, &a, &loc("a.mp4"), State::Sized, Patch::new().identity(a));
    let rb = move_to_new(repo, &b, &loc("b.mp4"), State::Sized, Patch::new().identity(b));
    for (row, canon) in [(&rb, &ra), (&ra, &rb)] {
        let t = Transition::new(row.id, row.state, State::Hashed, Patch::new(), NOW).with_group(
            GroupOp::Create { canonical: canon.id, sparse_hash: [7; 32], hash_version: 1 },
        );
        // Lần hai: row đã Hashed nên from là Hashed.
        let t = if row.state == State::Hashed { t } else { Transition { from: State::Sized, ..t } };
        let _ = repo.apply(&Transition { from: get(repo, &row.key).state, ..t }).unwrap();
    }
    let gs = repo.groups_by_key(&DOMAIN, 100, &[7; 32]).unwrap();
    assert!(gs.len() >= 2, "nhiều group cùng khóa được phép (false positive)");
    assert!(gs.windows(2).all(|w| w[0].id < w[1].id), "ORDER BY id");
    assert!(repo.groups_by_key(&DOMAIN, 101, &[7; 32]).unwrap().is_empty());
}

fn kb_journal_vong_doi(repo: &mut MemoryRepository) {
    let a = ident(1, 100, 5, 5);
    let row = seed(repo, &a, &loc("a.mp4"));
    let j = JournalRow {
        id: None,
        method: EventMethod::VerifiedClone,
        group_id: None,
        src_file_id: 5,
        dst_file_id: row.id,
        state: JournalState::Planned,
        src: Some(ident(5, 100, 1, 1).key),
        src_size: Some(100),
        src_mtime_ns: Some(1),
        src_ctime_ns: Some(1),
        dst: a.key,
        dst_size: 100,
        dst_mtime_ns: 5,
        dst_atime_ns: 3,
        dst_ctime_ns: 5,
        started_at: NOW,
        updated_at: NOW,
        error: None,
    };
    let id = repo.journal_begin(&j).unwrap();
    let open = repo.journal_open().unwrap();
    assert_eq!(open.len(), 1);
    assert_eq!(open[0].id, Some(id));
    assert_eq!(open[0].dst_atime_ns, 3);

    repo.journal_update(id, JournalState::Compared, false, NOW + 1).unwrap();
    repo.journal_update(id, JournalState::Cloned, true, NOW + 2).unwrap();
    assert_eq!(repo.journal_open().unwrap()[0].state, JournalState::Cloned);
    repo.journal_update(id, JournalState::Aborted, false, NOW + 3).unwrap();
    assert!(repo.journal_open().unwrap().is_empty());
    assert!(repo.journal_update(4_242, JournalState::Done, false, NOW).is_err());
}

fn kb_roots_volumes_upsert(repo: &mut MemoryRepository) {
    let roots = repo.root_list().unwrap();
    assert_eq!(roots.len(), 2);
    let remote = roots.iter().find(|r| r.id == 2).unwrap();
    assert_eq!(remote.windows_unc.as_deref(), Some(r"\\192.168.1.214\Video"));
    assert_eq!(remote.label.as_deref(), Some("windows-214"));

    // Upsert lại theo path: giữ id, đổi nhãn.
    let mut again = remote.clone();
    again.label = Some("moi".to_owned());
    assert_eq!(repo.root_upsert(&again, NOW + 1).unwrap(), 2);
    assert_eq!(
        repo.root_list().unwrap().iter().find(|r| r.id == 2).unwrap().label.as_deref(),
        Some("moi")
    );

    let v = Volume {
        id: 0,
        domain_id: DOMAIN,
        fstype: "btrfs".to_owned(),
        mount: "/volume1".into(),
        backend: Backend::Unprobed,
        dest_needs_write: false,
        supports_lease: None,
        fs_version: None,
        kernel: Some("5.10".to_owned()),
        probed_at: None,
        probe_error: None,
    };
    let vid = repo.volume_upsert(&v).unwrap();
    let mut v2 = v.clone();
    v2.backend = Backend::KernelDedupe;
    v2.probed_at = Some(NOW);
    assert_eq!(repo.volume_upsert(&v2).unwrap(), vid, "cùng domain_id thì cập nhật");
    let list = repo.volume_list().unwrap();
    assert_eq!(list.len(), 1);
    assert_eq!(list[0].backend, Backend::KernelDedupe);

    let sp = ScanProgress {
        root_id: 1,
        phase: ScanPhase::A,
        last_completed_dir: Some("phim/2024".into()),
        started_at: Some(NOW),
        finished_at: None,
        last_reconcile_done: None,
        last_presence_scan: None,
    };
    repo.scan_progress_set(&sp).unwrap();
    assert_eq!(repo.scan_progress_get(1).unwrap(), Some(sp));
    assert_eq!(repo.scan_progress_get(2).unwrap(), None);
}

fn kb_park_unpark_domain(repo: &mut MemoryRepository) {
    let a = ident(1, 100, 5, 5);
    let b = ident(2, 100, 5, 5);
    let ra = move_to_new(repo, &a, &loc("a.mp4"), State::Sized, Patch::new().identity(a));
    move_to(repo, &ra, State::Hashed, Patch::new().ready_at(Some(NOW)));
    move_to_new(repo, &b, &loc("b.mp4"), State::Sized, Patch::new().identity(b)); // không phải hashed

    assert_eq!(repo.park_domain(&DOMAIN, "EOPNOTSUPP", NOW + 1).unwrap(), 1);
    let pa = get(repo, &a.key);
    assert_eq!((pa.ready_at, pa.last_error.as_deref()), (None, Some("EOPNOTSUPP")));
    assert!(
        repo.next_ready(NOW + 5, true, 0).unwrap().is_some_and(|r| r.key == b.key),
        "chỉ b còn trong hàng đợi"
    );

    assert_eq!(repo.unpark_domain(&DOMAIN, NOW + 9).unwrap(), 1);
    assert_eq!(get(repo, &a.key).ready_at, Some(NOW + 9));
    assert_eq!(repo.park_domain(&nasdedup_core::model::DomainId([9; 16]), "x", NOW).unwrap(), 0);
}

fn kb_requeue_verified_theo_prefix(repo: &mut MemoryRepository) {
    for (ino, rel) in
        [(1, "test/a.mp4"), (2, "test/sub/b.mp4"), (3, "khac/c.mp4"), (4, "test2/d.mp4")]
    {
        let id = ident(ino, 100, 5, 5);
        let r = move_to_new(repo, &id, &loc(rel), State::Sized, Patch::new().identity(id));
        let r = move_to(repo, &r, State::Hashed, Patch::new());
        move_to(repo, &r, State::Verified, Patch::new().ready_at(None));
    }
    let n = repo.requeue_verified(&vec![loc("test")], NOW + 1).unwrap();
    assert_eq!(n, 2, "test2/ không phải con của test/");
    let r1 = get(repo, &ident(1, 0, 0, 0).key);
    assert_eq!((r1.state, r1.ready_at), (State::Hashed, Some(NOW + 1)));
    assert_eq!(get(repo, &ident(3, 0, 0, 0).key).state, State::Verified);
    // Prefix rỗng = cả root.
    assert_eq!(repo.requeue_verified(&vec![loc("")], NOW + 2).unwrap(), 2);
    // Root remote không có row verified nào.
    assert_eq!(repo.requeue_verified(&vec![rloc("")], NOW + 3).unwrap(), 0);
}

fn kb_events_loc_va_gioi_han(repo: &mut MemoryRepository) {
    for (ts, uid) in [(NOW, 1000), (NOW + 1, 1001), (NOW + 2, 1000), (NOW + 3, 1000)] {
        let mut ev = DedupEvent::new(ts, EventMethod::DryRun, EventResult::Same);
        ev.dst_uid = Some(uid);
        ev.bytes_shared = 10;
        repo.record_event(&ev).unwrap();
    }
    let all = repo.events(&EventFilter::default()).unwrap();
    assert_eq!(all.len(), 4);
    assert!(all.windows(2).all(|w| w[0].ts >= w[1].ts), "mới nhất trước");

    let f = EventFilter { uid: Some(1000), since: Some(NOW + 1), limit: Some(1) };
    let got = repo.events(&f).unwrap();
    assert_eq!(got.len(), 1);
    assert_eq!(got[0].ts, NOW + 3);
}

fn kb_purge_xoa_gone_va_event_cu(repo: &mut MemoryRepository) {
    let a = ident(1, 100, 5, 5);
    seed(repo, &a, &loc("a.mp4"));
    repo.mark_missing(&loc("a.mp4"), NOW - 500 * 86_400_000).unwrap();
    repo.presence_begin().unwrap();
    repo.presence_finish(1, NOW - 400 * 86_400_000).unwrap();
    repo.presence_expire(1, NOW - 430 * 86_400_000, NOW - 400 * 86_400_000).unwrap();
    assert_eq!(get(repo, &a.key).state, State::Gone);
    repo.record_event(&DedupEvent::new(
        NOW - 400 * 86_400_000,
        EventMethod::DryRun,
        EventResult::Same,
    ))
    .unwrap();
    repo.record_event(&DedupEvent::new(NOW, EventMethod::DryRun, EventResult::Same)).unwrap();

    let n = repo.purge(NOW, 365 * 86_400_000).unwrap();
    assert_eq!(n, 2, "một row gone và một event cũ");
    assert!(repo.find_by_key(&a.key).unwrap().is_none());
    assert_eq!(repo.events(&EventFilter::default()).unwrap().len(), 1);
    repo.checkpoint().unwrap();
}

fn kb_meta_va_group_note(repo: &mut MemoryRepository) {
    assert_eq!(repo.meta_get("k").unwrap(), None);
    repo.meta_set("k", "v1").unwrap();
    repo.meta_set("k", "v2").unwrap();
    assert_eq!(repo.meta_get("k").unwrap().as_deref(), Some("v2"));

    // Ghi chú cho nhóm chéo máy là metadata phía NAS (bản chốt mục 17).
    let a = ident(1, 100, 5, 5);
    let b = ident(2, 100, 5, 5);
    let ra = move_to_new(repo, &a, &loc("a.mp4"), State::Sized, Patch::new().identity(a));
    let rb = move_to_new(repo, &b, &loc("b.mp4"), State::Sized, Patch::new().identity(b));
    let t = Transition::new(rb.id, State::Sized, State::Hashed, Patch::new(), NOW)
        .with_group(GroupOp::Create { canonical: ra.id, sparse_hash: [7; 32], hash_version: 1 });
    assert!(repo.apply(&t).unwrap());
    let gid = get(repo, &b.key).group_id.unwrap();

    let note = GroupNote {
        group_id: gid,
        handled_at: NOW,
        note: "đã xóa bản trên Windows".to_owned(),
        by_device_id: Some("dev-1".to_owned()),
    };
    repo.group_note_set(&note).unwrap();
    assert_eq!(repo.group_note_get(gid).unwrap(), Some(note));
    assert_eq!(repo.group_note_get(9_999).unwrap(), None);
    let bad =
        GroupNote { group_id: 9_999, handled_at: NOW, note: String::new(), by_device_id: None };
    assert!(matches!(repo.group_note_set(&bad), Err(nasdedup_core::repo::RepoError::Constraint(_))));
}

/// `events` phải cùng thứ tự khi nhiều sự kiện chung một millisecond, nếu không
/// `audit --limit` trả về hàng khác nhau tùy bản cài đặt.
fn kb_events_cung_moc_thoi_gian_moi_nhat_truoc(repo: &mut MemoryRepository) {
    for note in ["a", "b", "c"] {
        let mut e = DedupEvent::new(NOW, EventMethod::DryRun, EventResult::Same);
        e.note = Some(note.to_owned());
        repo.record_event(&e).unwrap();
    }
    let all = repo.events(&EventFilter::default()).unwrap();
    let notes: Vec<_> = all.iter().filter_map(|e| e.note.clone()).collect();
    assert_eq!(notes, vec!["c", "b", "a"], "ghi sau đứng trước");

    let mot = repo.events(&EventFilter { uid: None, since: None, limit: Some(1) }).unwrap();
    assert_eq!(mot[0].note.as_deref(), Some("c"));
}

/// `purge` xóa hẳn row `gone` thì nhóm không được giữ con trỏ tới id đã biến mất:
/// spec 5.4 chỉ bầu lại canonical khi con trỏ NULL hoặc file canonical `missing`.
fn kb_purge_go_canonical_tro_vao_file_da_xoa(repo: &mut MemoryRepository) {
    let a = ident(1, 100, 5, 5);
    let b = ident(2, 100, 5, 5);
    let ra = move_to_new(repo, &a, &loc("a.mp4"), State::Sized, Patch::new().identity(a));
    let rb = move_to_new(repo, &b, &loc("b.mp4"), State::Sized, Patch::new().identity(b));
    let t = Transition::new(rb.id, State::Sized, State::Hashed, Patch::new(), NOW)
        .with_group(GroupOp::Create { canonical: ra.id, sparse_hash: [7; 32], hash_version: 1 });
    assert!(repo.apply(&t).unwrap());
    let gid = get(repo, &b.key).group_id.expect("B vào nhóm");

    let ra = get(repo, &a.key);
    move_to(repo, &ra, State::Gone, Patch::new().ready_at(None));
    repo.purge(NOW + 10, 1).unwrap();

    assert!(repo.find_by_key(&a.key).unwrap().is_none(), "row gone đã bị xóa");
    assert_eq!(
        repo.group_get(gid).unwrap().unwrap().canonical_file_id,
        None,
        "nhóm phải mất gốc để bầu lại, không trỏ vào id không còn tồn tại"
    );
}

/// `root_upsert` với id tường minh đã bị một path khác chiếm: cấp id mới, không lỗi.
fn kb_root_upsert_id_da_bi_chiem_thi_cap_id_moi(repo: &mut MemoryRepository) {
    let mut r = Root {
        id: 1,
        path: "/khac".into(),
        domain_id: DOMAIN,
        kind: RootKind::Local,
        label: None,
        windows_unc: None,
        active: true,
        added_at: NOW,
    };
    let id = repo.root_upsert(&r, NOW).unwrap();
    assert_ne!(id, 1, "id 1 đã thuộc về root khác");

    // Gọi lại cùng path thì trả đúng id cũ, không tạo thêm root.
    r.id = 0;
    assert_eq!(repo.root_upsert(&r, NOW + 1).unwrap(), id);
}

/// `requeue_verified` với tiền tố có dấu `/` ở cuối phải khớp như không có.
fn kb_requeue_verified_dau_gach_thua(repo: &mut MemoryRepository) {
    let a = ident(1, 100, 1, 1);
    let row =
        move_to_new(repo, &a, &loc("test/a.mp4"), State::Sized, Patch::new().identity(a));
    let row = move_to(repo, &row, State::Hashed, Patch::new());
    move_to(repo, &row, State::Verified, Patch::new().ready_at(None));

    assert_eq!(repo.requeue_verified(&vec![FileLoc::new(1, "test/")], NOW + 1).unwrap(), 1);
    assert_eq!(get(repo, &a.key).state, State::Hashed);
}

/// `Patch.group_id` trỏ vào nhóm không tồn tại phải bị từ chối ở cả hai bản: bản
/// SQLite có khóa ngoại, bản bộ nhớ phải tự kiểm để không ghi con trỏ treo.
fn kb_patch_group_id_khong_ton_tai_bi_tu_choi(repo: &mut MemoryRepository) {
    let a = ident(1, 100, 5, 5);
    let row = seed(repo, &a, &loc("a.mp4"));
    let t =
        Transition::new(row.id, row.state, State::Sized, Patch::new().group_id(Some(987_654)), NOW);
    assert!(matches!(repo.apply(&t), Err(nasdedup_core::repo::RepoError::Constraint(_))));
    assert_eq!(get(repo, &a.key).state, State::Settling, "không được ghi nửa chừng");
}

// ---- roots ----






#[test]
fn upsert_tao_row_settling() {
    let mut repo = MemoryRepository::new();
    setup(&mut repo);
    kb_upsert_tao_row_settling(&mut repo);
}

#[test]
fn upsert_gop_nhieu_su_kien_cung_inode() {
    let mut repo = MemoryRepository::new();
    setup(&mut repo);
    kb_upsert_gop_nhieu_su_kien_cung_inode(&mut repo);
}

#[test]
fn upsert_bo_qua_su_kien_cua_chinh_daemon() {
    let mut repo = MemoryRepository::new();
    setup(&mut repo);
    kb_upsert_bo_qua_su_kien_cua_chinh_daemon(&mut repo);
}

#[test]
fn upsert_fingerprint_doi_ve_settling_va_xoa_hash() {
    let mut repo = MemoryRepository::new();
    setup(&mut repo);
    kb_upsert_fingerprint_doi_ve_settling_va_xoa_hash(&mut repo);
}

#[test]
fn upsert_khoi_phuc_row_missing() {
    let mut repo = MemoryRepository::new();
    setup(&mut repo);
    kb_upsert_khoi_phuc_row_missing(&mut repo);
}

#[test]
fn upsert_row_missing_noi_dung_khac_thi_xu_ly_lai() {
    let mut repo = MemoryRepository::new();
    setup(&mut repo);
    kb_upsert_row_missing_noi_dung_khac_thi_xu_ly_lai(&mut repo);
}

#[test]
fn upsert_user_undo_dinh() {
    let mut repo = MemoryRepository::new();
    setup(&mut repo);
    kb_upsert_user_undo_dinh(&mut repo);
}

#[test]
fn upsert_remote_bo_qua_ctime() {
    let mut repo = MemoryRepository::new();
    setup(&mut repo);
    kb_upsert_remote_bo_qua_ctime(&mut repo);
}

#[test]
fn upsert_canonical_doi_fingerprint_thi_group_mat_goc() {
    let mut repo = MemoryRepository::new();
    setup(&mut repo);
    kb_upsert_canonical_doi_fingerprint_thi_group_mat_goc(&mut repo);
}

#[test]
fn upsert_canonical_mo_coi_khong_bi_dung() {
    let mut repo = MemoryRepository::new();
    setup(&mut repo);
    kb_upsert_canonical_mo_coi_khong_bi_dung(&mut repo);
}

#[test]
fn upsert_user_undo_van_cap_nhat_ready_at() {
    let mut repo = MemoryRepository::new();
    setup(&mut repo);
    kb_upsert_user_undo_van_cap_nhat_ready_at(&mut repo);
}

#[test]
fn upsert_missing_prev_khong_khoi_phuc_duoc() {
    let mut repo = MemoryRepository::new();
    setup(&mut repo);
    kb_upsert_missing_prev_khong_khoi_phuc_duoc(&mut repo);
}

#[test]
fn upsert_root_chua_dang_ky_bi_tu_choi() {
    let mut repo = MemoryRepository::new();
    setup(&mut repo);
    kb_upsert_root_chua_dang_ky_bi_tu_choi(&mut repo);
}

#[test]
fn scan_insert_dat_thang_state_va_bo_qua_row_da_co() {
    let mut repo = MemoryRepository::new();
    setup(&mut repo);
    kb_scan_insert_dat_thang_state_va_bo_qua_row_da_co(&mut repo);
}

#[test]
fn scan_insert_root_chua_dang_ky_bi_tu_choi() {
    let mut repo = MemoryRepository::new();
    setup(&mut repo);
    kb_scan_insert_root_chua_dang_ky_bi_tu_choi(&mut repo);
}


#[test]
fn scan_phase_b_chi_danh_thuc_row_co_ban_cung_kich_thuoc() {
    let mut repo = MemoryRepository::new();
    setup(&mut repo);
    kb_scan_phase_b_chi_danh_thuc_row_co_ban_cung_kich_thuoc(&mut repo);
}

#[test]
fn scan_phase_b_khong_dung_row_dang_cho_va_root_khac() {
    let mut repo = MemoryRepository::new();
    setup(&mut repo);
    kb_scan_phase_b_khong_dung_row_dang_cho_va_root_khac(&mut repo);
}

#[test]
fn next_ready_uu_tien_realtime() {
    let mut repo = MemoryRepository::new();
    setup(&mut repo);
    kb_next_ready_uu_tien_realtime(&mut repo);
}

#[test]
fn next_ready_khong_tra_row_chua_den_han() {
    let mut repo = MemoryRepository::new();
    setup(&mut repo);
    kb_next_ready_khong_tra_row_chua_den_han(&mut repo);
}

#[test]
fn next_ready_ngoai_khung_gio_chi_settling_sized() {
    let mut repo = MemoryRepository::new();
    setup(&mut repo);
    kb_next_ready_ngoai_khung_gio_chi_settling_sized(&mut repo);
}

#[test]
fn next_ready_max_wait() {
    let mut repo = MemoryRepository::new();
    setup(&mut repo);
    kb_next_ready_max_wait(&mut repo);
}

#[test]
fn next_ready_verified_khong_thuoc_hang_doi() {
    let mut repo = MemoryRepository::new();
    setup(&mut repo);
    kb_next_ready_verified_khong_thuoc_hang_doi(&mut repo);
}

#[test]
fn next_ready_gieo_moi_state_mot_row() {
    let mut repo = MemoryRepository::new();
    setup(&mut repo);
    kb_next_ready_gieo_moi_state_mot_row(&mut repo);
}

#[test]
fn next_ready_gieo_moi_state_ngoai_khung_gio() {
    let mut repo = MemoryRepository::new();
    setup(&mut repo);
    kb_next_ready_gieo_moi_state_ngoai_khung_gio(&mut repo);
}

#[test]
fn pending_counts_chi_dem_realtime() {
    let mut repo = MemoryRepository::new();
    setup(&mut repo);
    kb_pending_counts_chi_dem_realtime(&mut repo);
}

#[test]
fn apply_cas_thanh_cong_ghi_patch() {
    let mut repo = MemoryRepository::new();
    setup(&mut repo);
    kb_apply_cas_thanh_cong_ghi_patch(&mut repo);
}

#[test]
fn apply_cas_that_bai_van_ghi_event_state_raced() {
    let mut repo = MemoryRepository::new();
    setup(&mut repo);
    kb_apply_cas_that_bai_van_ghi_event_state_raced(&mut repo);
}

#[test]
fn apply_doi_state_xoa_heavy_wait_since() {
    let mut repo = MemoryRepository::new();
    setup(&mut repo);
    kb_apply_doi_state_xoa_heavy_wait_since(&mut repo);
}

#[test]
fn apply_group_create_join_verified() {
    let mut repo = MemoryRepository::new();
    setup(&mut repo);
    kb_apply_group_create_join_verified(&mut repo);
}

#[test]
fn apply_set_canonical_va_leave() {
    let mut repo = MemoryRepository::new();
    setup(&mut repo);
    kb_apply_set_canonical_va_leave(&mut repo);
}

#[test]
fn apply_others_best_effort() {
    let mut repo = MemoryRepository::new();
    setup(&mut repo);
    kb_apply_others_best_effort(&mut repo);
}

#[test]
fn apply_journal_dong_cung_transaction() {
    let mut repo = MemoryRepository::new();
    setup(&mut repo);
    kb_apply_journal_dong_cung_transaction(&mut repo);
}

#[test]
fn rename_doi_path_va_danh_dau_row_bi_de() {
    let mut repo = MemoryRepository::new();
    setup(&mut repo);
    kb_rename_doi_path_va_danh_dau_row_bi_de(&mut repo);
}

#[test]
fn rename_prefix_thu_muc() {
    let mut repo = MemoryRepository::new();
    setup(&mut repo);
    kb_rename_prefix_thu_muc(&mut repo);
}

#[test]
fn mark_missing_va_prefix() {
    let mut repo = MemoryRepository::new();
    setup(&mut repo);
    kb_mark_missing_va_prefix(&mut repo);
}

#[test]
fn mark_missing_danh_dau_moi_row_cung_path() {
    let mut repo = MemoryRepository::new();
    setup(&mut repo);
    kb_mark_missing_danh_dau_moi_row_cung_path(&mut repo);
}

#[test]
fn rename_prefix_mot_file_va_doi_root() {
    let mut repo = MemoryRepository::new();
    setup(&mut repo);
    kb_rename_prefix_mot_file_va_doi_root(&mut repo);
}

#[test]
fn rename_prefix_ca_root_va_len_goc() {
    let mut repo = MemoryRepository::new();
    setup(&mut repo);
    kb_rename_prefix_ca_root_va_len_goc(&mut repo);
}

#[test]
fn rename_that_bai_khong_de_lai_dau_vet() {
    let mut repo = MemoryRepository::new();
    setup(&mut repo);
    kb_rename_that_bai_khong_de_lai_dau_vet(&mut repo);
}

#[test]
fn tien_to_thu_muc_rong_va_dau_gach_thua() {
    let mut repo = MemoryRepository::new();
    setup(&mut repo);
    kb_tien_to_thu_muc_rong_va_dau_gach_thua(&mut repo);
}


#[test]
fn restore_or_reset_theo_fingerprint() {
    let mut repo = MemoryRepository::new();
    setup(&mut repo);
    kb_restore_or_reset_theo_fingerprint(&mut repo);
}



#[test]
fn restore_or_reset_canonical_doi_noi_dung_thi_group_mat_goc() {
    let mut repo = MemoryRepository::new();
    setup(&mut repo);
    kb_restore_or_reset_canonical_doi_noi_dung_thi_group_mat_goc(&mut repo);
}





#[test]
fn candidates_loc_va_sap_xep() {
    let mut repo = MemoryRepository::new();
    setup(&mut repo);
    kb_candidates_loc_va_sap_xep(&mut repo);
}



#[test]
fn groups_by_key_theo_id() {
    let mut repo = MemoryRepository::new();
    setup(&mut repo);
    kb_groups_by_key_theo_id(&mut repo);
}

#[test]
fn journal_vong_doi() {
    let mut repo = MemoryRepository::new();
    setup(&mut repo);
    kb_journal_vong_doi(&mut repo);
}

#[test]
fn roots_volumes_upsert() {
    let mut repo = MemoryRepository::new();
    setup(&mut repo);
    kb_roots_volumes_upsert(&mut repo);
}


#[test]
fn park_unpark_domain() {
    let mut repo = MemoryRepository::new();
    setup(&mut repo);
    kb_park_unpark_domain(&mut repo);
}

#[test]
fn requeue_verified_theo_prefix() {
    let mut repo = MemoryRepository::new();
    setup(&mut repo);
    kb_requeue_verified_theo_prefix(&mut repo);
}

#[test]
fn events_loc_va_gioi_han() {
    let mut repo = MemoryRepository::new();
    setup(&mut repo);
    kb_events_loc_va_gioi_han(&mut repo);
}

#[test]
fn purge_xoa_gone_va_event_cu() {
    let mut repo = MemoryRepository::new();
    setup(&mut repo);
    kb_purge_xoa_gone_va_event_cu(&mut repo);
}

#[test]
fn purge_go_canonical_tro_vao_file_da_xoa() {
    let mut repo = MemoryRepository::new();
    setup(&mut repo);
    kb_purge_go_canonical_tro_vao_file_da_xoa(&mut repo);
}

#[test]
fn events_cung_moc_thoi_gian_moi_nhat_truoc() {
    let mut repo = MemoryRepository::new();
    setup(&mut repo);
    kb_events_cung_moc_thoi_gian_moi_nhat_truoc(&mut repo);
}

#[test]
fn root_upsert_id_da_bi_chiem_thi_cap_id_moi() {
    let mut repo = MemoryRepository::new();
    setup(&mut repo);
    kb_root_upsert_id_da_bi_chiem_thi_cap_id_moi(&mut repo);
}

#[test]
fn requeue_verified_dau_gach_thua() {
    let mut repo = MemoryRepository::new();
    setup(&mut repo);
    kb_requeue_verified_dau_gach_thua(&mut repo);
}

#[test]
fn patch_group_id_khong_ton_tai_bi_tu_choi() {
    let mut repo = MemoryRepository::new();
    setup(&mut repo);
    kb_patch_group_id_khong_ton_tai_bi_tu_choi(&mut repo);
}

#[test]
fn meta_va_group_note() {
    let mut repo = MemoryRepository::new();
    setup(&mut repo);
    kb_meta_va_group_note(&mut repo);
}

fn kb_presence_finish_khong_tu_dan_toi_gone(repo: &mut MemoryRepository) {
    let a = ident(1, 100, 5, 5);
    seed(repo, &a, &loc("a.mp4"));
    repo.mark_missing(&loc("a.mp4"), NOW - 400 * 86_400_000).unwrap();

    let scan_id = NOW + 10;
    repo.presence_begin().unwrap();
    let to_missing = repo.presence_finish(1, scan_id).unwrap();
    assert_eq!(to_missing, 0);
    assert_eq!(get(repo, &a.key).state, State::Missing, "row missing quá hạn vẫn phải là `missing` sau finish");

    let n = repo.presence_expire(1, scan_id - 30 * 86_400_000, scan_id).unwrap();
    assert_eq!(n, 1);
    let ra = get(repo, &a.key);
    assert_eq!((ra.state, ra.updated_at), (State::Gone, scan_id));
    assert_eq!(repo.presence_expire(2, scan_id, scan_id).unwrap(), 0);
}

fn kb_presence_seen_lo_hong_khong_de_lai_ghi_do(repo: &mut MemoryRepository) {
    let kp = ident(3, 300, 7, 7);
    let song = ident(1, 100, 5, 5);
    let mat = ident(2, 200, 6, 6);
    seed(repo, &kp, &loc("kp.mp4"));
    seed(repo, &song, &loc("song.mp4"));
    seed(repo, &mat, &loc("mat.mp4"));
    repo.mark_missing(&loc("kp.mp4"), NOW + 1).unwrap();
    repo.mark_missing(&loc("mat.mp4"), NOW + 1).unwrap();

    let scan_id = NOW + 10;
    repo.presence_begin().unwrap();
    let err = repo.presence_seen(
        &vec![
            (kp.key, kp.fingerprint(), loc("kp.mp4")),
            (song.key, song.fingerprint(), loc("song.mp4")),
            (mat.key, mat.fingerprint(), FileLoc::new(999, "mat.mp4")),
        ],
        scan_id,
    );
    assert!(err.is_err(), "root chưa đăng ký phải làm cả lô hỏng");

    let rkp = get(repo, &kp.key);
    assert_eq!(rkp.state, State::Missing, "row đã khôi phục trước lỗi phải quay lại `missing`");
    assert_eq!(rkp.updated_at, NOW + 1, "mốc thời gian cũ, không phải scan_id");

    let to_missing = repo.presence_finish(1, scan_id).unwrap();
    assert_eq!(to_missing, 1, "lô hỏng thì `seen` cũng phải rỗng");
    assert_eq!(get(repo, &song.key).state, State::Missing);
}

#[test]
fn presence_finish_khong_tu_dan_toi_gone() {
    let mut repo = MemoryRepository::new();
    setup(&mut repo);
    kb_presence_finish_khong_tu_dan_toi_gone(&mut repo);
}

#[test]
fn presence_seen_lo_hong_khong_de_lai_ghi_do() {
    let mut repo = MemoryRepository::new();
    setup(&mut repo);
    kb_presence_seen_lo_hong_khong_de_lai_ghi_do(&mut repo);
}

#[test]
fn upsert_user_undo_doi_fingerprint_khong_phai_su_kien_cua_daemon() {
    let mut repo = MemoryRepository::new();
    setup(&mut repo);
    let id = ident(1, 100, 5, 5);
    let row = seed(&mut repo, &id, &loc("a.mp4"));
    move_to(
        &mut repo,
        &row,
        State::Skipped,
        Patch::new().ready_at(None).skip_reason(Some("user_undo".to_owned())),
    );
    let r = repo.upsert_pending(&ident(1, 200, 999, 999), &loc("a.mp4"), NOW + DELAY, 0, NOW + 2).unwrap();
    assert!(!r.dropped_as_self_event, "fingerprint đổi thì không phải sự kiện của daemon");
    assert_eq!(get(&repo, &id.key).state, State::Skipped);
}
