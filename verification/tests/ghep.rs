use nasdedup_core::events::FsEvent;
use nasdedup_core::handler::GhepRename;
use nasdedup_core::model::FileLoc;

const NOW: i64 = 10_000_000;
const CUA_SO: i64 = 2_000;

fn l(rel: &str) -> FileLoc {
    FileLoc::new(1, rel)
}

fn doi_ten(from: &str, to: &str) -> FsEvent {
    FsEvent::Renamed { from: l(from), to: l(to) }
}

#[test]
fn to_khop_from_thanh_renamed() {
    let mut g = GhepRename::moi(CUA_SO);
    g.nhan_from(1, l("phim/.a.mp4.aBc123"), NOW);
    assert_eq!(
        g.nhan_to(Some(1), l("phim/a.mp4"), NOW + 10),
        doi_ten("phim/.a.mp4.aBc123", "phim/a.mp4")
    );
    assert_eq!(g.so_cho(), 0);
    assert!(g.het_han(NOW + 100_000).is_empty(), "đã ghép thì không được xóa nữa");
}

#[test]
fn to_khong_khop_thanh_moved_in() {
    let mut g = GhepRename::moi(CUA_SO);
    assert_eq!(g.nhan_to(Some(9), l("phim/a.mp4"), NOW), FsEvent::MovedIn(l("phim/a.mp4")));
    assert_eq!(g.nhan_to(None, l("phim/b.mp4"), NOW), FsEvent::MovedIn(l("phim/b.mp4")));
}

#[test]
fn hai_cap_rename_xen_ke_khong_lan_nhau() {
    // Đây là lý do ta tự ghép: `notify` chỉ nhớ **một** `rename_event`, nên
    // `From` của cặp thứ nhất bị cặp thứ hai ghi đè và `Both` cho nó không bao
    // giờ được phát — dù kernel đã gửi đủ cả bốn nửa.
    let mut g = GhepRename::moi(CUA_SO);
    g.nhan_from(1, l("phim/.a.tmp"), NOW);
    g.nhan_from(2, l("phim/.b.tmp"), NOW + 1);

    assert_eq!(
        g.nhan_to(Some(2), l("phim/b.mp4"), NOW + 2),
        doi_ten("phim/.b.tmp", "phim/b.mp4")
    );
    assert_eq!(
        g.nhan_to(Some(1), l("phim/a.mp4"), NOW + 3),
        doi_ten("phim/.a.tmp", "phim/a.mp4")
    );
    assert_eq!(g.so_cho(), 0);
    assert!(g.het_han(NOW + 100_000).is_empty());
}

#[test]
fn from_qua_han_thanh_removed_unknown_theo_thu_tu_nhan() {
    let mut g = GhepRename::moi(CUA_SO);
    g.nhan_from(1, l("phim/x"), NOW);
    g.nhan_from(2, l("phim/y"), NOW + 1);
    assert!(g.het_han(NOW + CUA_SO).is_empty(), "đúng bằng cửa sổ thì vẫn còn hạn");

    let ra = g.het_han(NOW + CUA_SO + 2);
    assert_eq!(
        ra,
        vec![FsEvent::RemovedUnknown(l("phim/x")), FsEvent::RemovedUnknown(l("phim/y"))]
    );
    assert_eq!(g.so_cho(), 0);
}

#[test]
fn to_toi_sau_cua_so_thi_khong_ghep_nham() {
    // Ghép một `To` muộn với `From` đã hết hạn sẽ sinh `Renamed` cho đúng việc
    // mà `RemovedUnknown` vừa xử lý — hai lệnh ghi mâu thuẫn cho một sự việc.
    let mut g = GhepRename::moi(CUA_SO);
    g.nhan_from(1, l("phim/.a.tmp"), NOW);
    assert_eq!(
        g.nhan_to(Some(1), l("phim/a.mp4"), NOW + CUA_SO + 1),
        FsEvent::MovedIn(l("phim/a.mp4"))
    );
}

#[test]
fn both_toi_sau_khi_from_da_het_han_van_duoc_phat() {
    // DB lúc này có một row `missing` sai; chỉ `Renamed` mới đưa nó về đúng chỗ
    // (`rename` + `restore_or_reset`). Nuốt `Both` ở đây là bắt file chờ tới
    // lượt reconcile hoặc presence scan.
    let mut g = GhepRename::moi(CUA_SO);
    g.nhan_from(1, l("phim/.a.tmp"), NOW);
    assert_eq!(g.het_han(NOW + CUA_SO + 1), vec![FsEvent::RemovedUnknown(l("phim/.a.tmp"))]);

    let e = g.nhan_both(Some(1), l("phim/.a.tmp"), l("phim/a.mp4"));
    assert_eq!(e, Some(doi_ten("phim/.a.tmp", "phim/a.mp4")));
}

#[test]
fn both_bi_bo_neu_ta_da_tu_ghep_cap_do() {
    // `notify` luôn phát `Both` **thêm** ngay sau `To`; xử lý cả hai là một lần
    // `rename` thừa trên DB.
    let mut g = GhepRename::moi(CUA_SO);
    g.nhan_from(1, l("phim/.a.tmp"), NOW);
    g.nhan_to(Some(1), l("phim/a.mp4"), NOW + 1);
    assert_eq!(g.nhan_both(Some(1), l("phim/.a.tmp"), l("phim/a.mp4")), None);
}

#[test]
fn both_don_lam_sach_nua_from_con_treo() {
    let mut g = GhepRename::moi(CUA_SO);
    g.nhan_from(1, l("phim/.a.tmp"), NOW);
    let e = g.nhan_both(Some(1), l("phim/.a.tmp"), l("phim/a.mp4"));
    assert_eq!(e, Some(doi_ten("phim/.a.tmp", "phim/a.mp4")));
    assert_eq!(g.so_cho(), 0);
    assert!(g.het_han(NOW + 100_000).is_empty(), "không được phát thêm RemovedUnknown");
}

#[test]
fn both_khong_tracker_van_duoc_phat() {
    let mut g = GhepRename::moi(CUA_SO);
    assert_eq!(
        g.nhan_both(None, l("phim/.a.tmp"), l("phim/a.mp4")),
        Some(doi_ten("phim/.a.tmp", "phim/a.mp4"))
    );
}

#[test]
fn from_khong_tracker_di_thang_thanh_removed_unknown() {
    // `MOVE_SELF`: chính thư mục đang watch bị chuyển đi. Không có cookie nào
    // để chờ, nên đưa vào bảng chờ chỉ làm nó trễ thêm 2 giây vô ích.
    let mut g = GhepRename::moi(CUA_SO);
    assert_eq!(
        g.nhan_from_khong_tracker(l("phim/sau")),
        FsEvent::RemovedUnknown(l("phim/sau"))
    );
    assert_eq!(g.so_cho(), 0, "không được vào bảng chờ");
}

#[test]
fn xa_het_bien_moi_from_con_treo_thanh_removed_unknown() {
    let mut g = GhepRename::moi(CUA_SO);
    g.nhan_from(1, l("phim/x"), NOW);
    g.nhan_from(2, l("phim/y"), NOW);
    assert_eq!(
        g.xa_het(),
        vec![FsEvent::RemovedUnknown(l("phim/x")), FsEvent::RemovedUnknown(l("phim/y"))]
    );
    assert_eq!(g.so_cho(), 0);
    assert!(g.xa_het().is_empty());
}
