use nasdedup_core::events::{FsEvent, RescanReason};
use nasdedup_core::handler::gom::TRAN_MOI_DUONG_DAN;
use nasdedup_core::handler::Gom;
use nasdedup_core::model::FileLoc;

const NOW: i64 = 10_000_000;

fn l(rel: &str) -> FileLoc {
    FileLoc::new(1, rel)
}

#[test]
fn nam_muoi_nghin_modified_cung_duong_dan_con_mot_entry() {
    // Một upload 50 GB sinh ~50 000 `IN_MODIFY`. Nếu mỗi cái thành một lần ghi
    // DB thì event thread không bao giờ đuổi kịp.
    let mut g = Gom::moi(1_000, 1_000);
    for i in 0..50_000_i64 {
        g.nhan(FsEvent::Modified(l("phim/a.mp4")), NOW + i % 900);
    }
    assert_eq!(g.so_muc(), 1);
    assert_eq!(g.so_bo_qua(), 49_999);

    let ra = g.den_han(NOW + 1_000);
    assert_eq!(ra, vec![FsEvent::Modified(l("phim/a.mp4"))]);
    assert_eq!(g.so_muc(), 0);
}

#[test]
fn cham_tran_thi_doi_flush_ngay() {
    let mut g = Gom::moi(1_000, 1_000);
    let mut day = false;
    for i in 0..1_000_u64 {
        day = g.nhan(FsEvent::Closed(l(&format!("phim/{i}.mp4"))), NOW);
        if i < 999 {
            assert!(!day, "chưa đủ 1 000 entry mà đã đòi flush ở entry {i}");
        }
    }
    assert!(day, "entry thứ 1 000 phải đòi flush ngay");
}

#[test]
fn giu_lai_toi_khi_du_mot_giay() {
    let mut g = Gom::moi(1_000, 1_000);
    g.nhan(FsEvent::Closed(l("phim/a.mp4")), NOW);
    assert!(g.den_han(NOW + 999).is_empty(), "chưa tới chu kỳ");
    assert_eq!(g.den_han(NOW + 1_000).len(), 1);
}

#[test]
fn han_tinh_tu_lan_dau_chu_khong_phai_lan_cuoi() {
    // File đang được ghi liên tục: nếu hạn tính từ sự kiện cuối thì nó bị đẩy
    // mãi và `ready_at` không bao giờ được cập nhật.
    let mut g = Gom::moi(1_000, 1_000);
    for t in 0..20_i64 {
        g.nhan(FsEvent::Modified(l("phim/a.mp4")), NOW + t * 100);
    }
    assert_eq!(g.den_han(NOW + 1_000).len(), 1);
}

#[test]
fn modified_khong_duoc_nuot_su_kien_manh_hon() {
    let mut g = Gom::moi(1_000, 1_000);
    g.nhan(FsEvent::Closed(l("phim/a.mp4")), NOW);
    g.nhan(FsEvent::Modified(l("phim/a.mp4")), NOW + 1);
    assert_eq!(g.den_han(NOW + 1_000), vec![FsEvent::Closed(l("phim/a.mp4"))]);

    let mut g = Gom::moi(1_000, 1_000);
    g.nhan(FsEvent::Modified(l("phim/a.mp4")), NOW);
    g.nhan(FsEvent::Closed(l("phim/a.mp4")), NOW + 1);
    assert_eq!(g.den_han(NOW + 1_000), vec![FsEvent::Closed(l("phim/a.mp4"))]);
}

#[test]
fn hai_su_kien_manh_khac_loai_deu_duoc_giu_theo_thu_tu() {
    // `touch a.mp4 && rm a.mp4`: hai lệnh ghi khác nhau lên DB, không cái nào
    // thay được cái kia. Bản đầu để `Removed` đè `Closed`.
    let mut g = Gom::moi(1_000, 1_000);
    g.nhan(FsEvent::Closed(l("phim/a.mp4")), NOW);
    g.nhan(FsEvent::Removed(l("phim/a.mp4")), NOW + 1);
    assert_eq!(
        g.den_han(NOW + 1_000),
        vec![FsEvent::Closed(l("phim/a.mp4")), FsEvent::Removed(l("phim/a.mp4"))]
    );
    assert_eq!(g.so_bo_qua(), 0, "không có gì bị gộp mất");
}

#[test]
fn removed_khong_duoc_nuot_renamed_cung_dich() {
    // `mv a.mp4 b.mp4 && rm b.mp4` trong cùng một giây. Khóa gom là **đích**,
    // nên hai sự kiện này vào cùng một ô. Nuốt `Renamed` là mất hẳn lệnh ghi
    // cho row đang nằm ở `a.mp4`: `mark_missing(b.mp4)` đụng 0 row và một row
    // SỐNG ở lại trỏ vào `a.mp4`, một đường dẫn đã trống.
    let mut g = Gom::moi(1_000, 1_000);
    let doi = FsEvent::Renamed { from: l("phim/a.mp4"), to: l("phim/b.mp4") };
    g.nhan(doi.clone(), NOW);
    g.nhan(FsEvent::Removed(l("phim/b.mp4")), NOW + 1);
    assert_eq!(g.den_han(NOW + 1_000), vec![doi, FsEvent::Removed(l("phim/b.mp4"))]);
}

#[test]
fn created_dir_khong_duoc_nuot_removed_dir() {
    // `rm -r d && mkdir d`: `RemovedDir` là lệnh ghi lên cả một dải. Nuốt nó
    // để lại mọi row dưới `d` còn sống trong khi file đã biến mất.
    let mut g = Gom::moi(1_000, 1_000);
    g.nhan(FsEvent::RemovedDir(l("phim/d")), NOW);
    g.nhan(FsEvent::CreatedDir(l("phim/d")), NOW + 1);
    assert_eq!(
        g.den_han(NOW + 1_000),
        vec![FsEvent::RemovedDir(l("phim/d")), FsEvent::CreatedDir(l("phim/d"))]
    );
}

#[test]
fn hai_renamed_cung_dich_khong_nuot_nhau() {
    // Hai `from` khác nhau: gộp lại là mất hẳn một trong hai đường dẫn nguồn.
    let mut g = Gom::moi(1_000, 1_000);
    let a = FsEvent::Renamed { from: l("phim/x"), to: l("phim/z") };
    let b = FsEvent::Renamed { from: l("phim/y"), to: l("phim/z") };
    g.nhan(a.clone(), NOW);
    g.nhan(b.clone(), NOW + 1);
    assert_eq!(g.den_han(NOW + 1_000), vec![a, b]);
}

#[test]
fn khong_phinh_vo_han_tren_mot_duong_dan() {
    let mut g = Gom::moi(1_000, 1_000);
    for i in 0..1_000_i64 {
        let e = if i % 2 == 0 {
            FsEvent::Closed(l("phim/a.mp4"))
        } else {
            FsEvent::Removed(l("phim/a.mp4"))
        };
        g.nhan(e, NOW + i);
    }
    assert_eq!(g.so_muc(), 1);
    assert_eq!(g.den_han(NOW + 10_000).len(), TRAN_MOI_DUONG_DAN);
}

#[test]
fn su_kien_khan_khong_bao_gio_phai_cho() {
    // `NeedsRescan` chính là tín hiệu "đang mất sự kiện"; giữ nó lại một giây
    // là kéo dài đúng khoảng thời gian ta đang mù.
    let mut g = Gom::moi(1_000, 1_000);
    let ev = FsEvent::NeedsRescan { reason: RescanReason::QueueOverflow };
    assert!(g.nhan(ev.clone(), NOW), "phải đòi flush ngay");
    assert_eq!(g.den_han(NOW), vec![ev]);
}

#[test]
fn xa_het_giu_thu_tu_chen_va_khong_nuot_su_kien_khan() {
    // SIGTERM giữa lúc `khan` còn giữ một `NeedsRescan` (inotify vừa tràn hàng
    // đợi): một `xa_het` không xả `khan` làm tín hiệu "ta vừa bị mù, phải quét
    // lại" biến mất im lặng — `meta.rescan_needed` không bao giờ được đặt, và
    // sau khi khởi động lại daemon tin rằng cây file vẫn nguyên. Đúng lớp lỗi
    // "không lỗi, không log".
    let mut g = Gom::moi(1_000, 1_000);
    let khan = FsEvent::NeedsRescan { reason: RescanReason::QueueOverflow };
    g.nhan(FsEvent::Closed(l("c.mp4")), NOW);
    g.nhan(khan.clone(), NOW);
    g.nhan(FsEvent::Closed(l("a.mp4")), NOW);
    g.nhan(FsEvent::Closed(l("b.mp4")), NOW);
    let ra = g.xa_het();
    assert_eq!(
        ra,
        vec![
            khan,
            FsEvent::Closed(l("c.mp4")),
            FsEvent::Closed(l("a.mp4")),
            FsEvent::Closed(l("b.mp4")),
        ]
    );
    assert_eq!(g.so_muc(), 0);
    assert!(g.xa_het().is_empty());
}
