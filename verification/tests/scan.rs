use std::cmp::Ordering;

use nasdedup_core::model::{DomainId, FileKey, Identity, ScanPhase, ScanProgress, State, SubId, Ts};
use nasdedup_core::scan::{
    ctime_sau_nguong, khoi_dau, nen_bo_qua, nguong_reconcile, so_duong_dan, tien_do_moi, ConTro,
    PRIORITY_SCAN,
};

#[test]
fn so_theo_thanh_phan_chu_khong_theo_chuoi() {
    assert!("a-b" < "a/c", "tiền đề: thứ tự chuỗi đúng là ngược");
    assert_eq!(so_duong_dan("a", "a-b"), Ordering::Less);
    assert_eq!(so_duong_dan("a/c", "a-b"), Ordering::Less, "a/c vẫn trước a-b");
    assert_eq!(so_duong_dan("a-b", "a/c"), Ordering::Greater);
}

#[test]
fn so_duong_dan_la_thu_tu_toan_phan() {
    assert_eq!(so_duong_dan("phim/a", "phim/a"), Ordering::Equal);
    assert_eq!(so_duong_dan("phim", "phim/a"), Ordering::Less, "cha trước con");
    assert_eq!(so_duong_dan("phim/b", "phim/a"), Ordering::Greater);
}

#[test]
fn bo_qua_thu_muc_da_quet_xong() {
    let cursor = "phim/2024/03";
    assert!(nen_bo_qua("anh", cursor), "hoàn toàn phía trước");
    assert!(nen_bo_qua("phim/2023", cursor));
    assert!(nen_bo_qua("phim/2024/02", cursor));
}

#[test]
fn khong_bo_qua_to_tien_cua_con_tro() {
    let cursor = "phim/2024/03";
    assert!(!nen_bo_qua("phim", cursor));
    assert!(!nen_bo_qua("phim/2024", cursor));
    assert!(!nen_bo_qua("phim/2024/03", cursor), "chính nó thì phải vào lại");
}

#[test]
fn khong_bo_qua_thu_muc_phia_sau_con_tro() {
    let cursor = "phim/2024/03";
    assert!(!nen_bo_qua("phim/2024/04", cursor));
    assert!(!nen_bo_qua("phim/2025", cursor));
    assert!(!nen_bo_qua("video", cursor));
}

#[test]
fn con_tro_ten_gan_giong_khong_lam_bo_sot() {
    let cursor = "a/z";
    assert!(!nen_bo_qua("a-b", cursor), "a-b chưa được quét, không được bỏ");
    assert!(nen_bo_qua("a/x", cursor), "a/x đã quét rồi");
    assert!(!nen_bo_qua("a", cursor), "a là tổ tiên của con trỏ");
}

fn id(mtime_ms: i64) -> Identity {
    Identity {
        key: FileKey { sub_id: SubId::default(), ino: 1 },
        domain_id: DomainId::default(),
        size: 1024,
        mtime_ns: mtime_ms * 1_000_000,
        ctime_ns: mtime_ms * 1_000_000,
        atime_ns: 0,
        nlink: 1,
        uid: 1000,
        mode: 0o100_644,
        blocks: 2,
        dev: 1,
    }
}

const NOW: Ts = 10_000_000;
const DELAY: i64 = 900_000;

#[test]
fn file_cu_vao_thang_sized_khong_xep_hang() {
    let k = khoi_dau(&id(NOW - DELAY - 1), NOW, DELAY);
    assert_eq!(k.state, State::Sized);
    assert_eq!(k.ready_at, None, "chờ pha B đánh thức nếu có bạn cùng kích thước");
    assert_eq!(k.priority, PRIORITY_SCAN);
}

#[test]
fn file_dung_bang_nguong_van_duoc_coi_la_cu() {
    let k = khoi_dau(&id(NOW - DELAY), NOW, DELAY);
    assert_eq!(k.state, State::Sized);
}

#[test]
fn file_moi_cho_du_tuoi_roi_moi_chay() {
    let mtime = NOW - 60_000;
    let k = khoi_dau(&id(mtime), NOW, DELAY);
    assert_eq!(k.state, State::Settling);
    assert_eq!(k.ready_at, Some(mtime + DELAY), "hẹn đúng lúc đủ tuổi, không phải now + delay");
}

#[test]
fn uu_tien_cua_scan_thap_hon_su_kien_realtime() {
    assert_eq!(PRIORITY_SCAN, 2);
}

#[test]
fn nguong_reconcile_lui_mot_gio_va_khong_am() {
    assert_eq!(nguong_reconcile(None), 0);
    assert_eq!(nguong_reconcile(Some(10_000_000)), 10_000_000 - 3_600_000);
    assert_eq!(nguong_reconcile(Some(1_000)), 0);
}

#[test]
fn ctime_sau_nguong_so_ctime_khong_so_mtime() {
    let mut id = id(0);
    id.mtime_ns = 1_000 * 1_000_000;
    id.ctime_ns = 9_000 * 1_000_000;
    assert!(ctime_sau_nguong(&id, 5_000), "ctime mới hơn ngưỡng");
    assert!(!ctime_sau_nguong(&id, 9_001), "ctime cũ hơn ngưỡng thì bỏ qua");
    assert!(ctime_sau_nguong(&id, 9_000), "đúng bằng ngưỡng vẫn xét");
}

#[test]
fn con_tro_khong_day_truoc_khi_lo_commit() {
    let mut ct = ConTro::new();
    ct.xong_thu_muc("phim/2024");
    assert_eq!(ct.an_toan(), None, "ghi nhận thôi thì chưa được phép ghi cursor");
    assert_eq!(ct.sau_khi_commit(), Some("phim/2024".to_owned()), "commit rồi mới cho phép");
    assert_eq!(ct.an_toan(), Some("phim/2024".to_owned()));
}

#[test]
fn con_tro_giu_gia_tri_cu_khi_chua_xong_them_thu_muc_nao() {
    let mut ct = ConTro::new();
    ct.xong_thu_muc("a");
    assert_eq!(ct.sau_khi_commit(), Some("a".to_owned()));
    assert_eq!(ct.sau_khi_commit(), Some("a".to_owned()));
}

#[test]
fn con_tro_khong_nhan_thu_muc_goc() {
    let mut ct = ConTro::new();
    ct.xong_thu_muc("");
    assert_eq!(ct.sau_khi_commit(), None);
}

#[test]
fn tien_do_moi_giu_nguyen_dong_cu() {
    let cu = ScanProgress {
        root_id: 1,
        phase: ScanPhase::B,
        last_completed_dir: Some("phim/2024".to_owned()),
        started_at: Some(5),
        finished_at: None,
        last_reconcile_done: Some(77),
        last_presence_scan: Some(88),
    };
    let moi = tien_do_moi(Some(cu.clone()), 1);
    assert_eq!(moi, cu, "không được đánh rơi trường nào");
    let trong = tien_do_moi(None, 9);
    assert_eq!(trong.root_id, 9);
    assert_eq!(trong.phase, ScanPhase::A);
    assert_eq!(trong.last_reconcile_done, None);
}
