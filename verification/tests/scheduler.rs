use nasdedup_core::config::{Config, TimingCfg};
use nasdedup_core::model::Ts;
use nasdedup_core::scheduler::{den_han, ngu_bao_lau, LanCuoi, Viec, CHU_KY_CHECKPOINT_MS};

const NOW: Ts = 1_000_000_000;
const MAU_MS: i64 = 5_000;

fn timing() -> TimingCfg {
    Config::default().timing
}

fn vua_chay() -> LanCuoi {
    LanCuoi {
        lay_mau: Some(NOW),
        checkpoint: Some(NOW),
        don_dep: Some(NOW),
        reconcile: Some(NOW),
        presence: Some(NOW),
        quet_remote: Some(NOW),
    }
}

#[test]
fn lan_dau_khoi_dong_thi_moi_viec_deu_toi_han() {
    let v = den_han(&timing(), &LanCuoi::default(), NOW, true, MAU_MS);
    assert!(v.contains(&Viec::LayMauTai));
    assert!(v.contains(&Viec::Checkpoint));
    assert!(v.contains(&Viec::DonDep));
    assert!(v.contains(&Viec::Reconcile));
    assert!(v.contains(&Viec::Presence));
    assert!(v.contains(&Viec::QuetRemote));
}

#[test]
fn vua_chay_xong_thi_khong_lam_lai() {
    let v = den_han(&timing(), &vua_chay(), NOW, true, MAU_MS);
    assert!(v.is_empty(), "{v:?}");
}

#[test]
fn viec_can_khung_nang_bi_giu_lai_khi_ngoai_khung() {
    let v = den_han(&timing(), &LanCuoi::default(), NOW, false, MAU_MS);
    assert!(!v.contains(&Viec::Presence), "presence phải chờ khung giờ");
    assert!(v.contains(&Viec::Reconcile), "reconcile chỉ đụng phần mới đổi");
    assert!(v.contains(&Viec::LayMauTai), "lấy mẫu tải luôn phải chạy");
}

#[test]
fn viec_bi_giu_lai_khong_bi_mat() {
    let lc = LanCuoi::default();
    assert!(!den_han(&timing(), &lc, NOW, false, MAU_MS).contains(&Viec::Presence));
    assert!(den_han(&timing(), &lc, NOW, true, MAU_MS).contains(&Viec::Presence));
}

#[test]
fn toi_han_dung_theo_chu_ky_cua_cau_hinh() {
    let t = timing();
    let mut lc = vua_chay();
    lc.reconcile = Some(NOW - t.reconcile_interval.0 + 1);
    assert!(!den_han(&t, &lc, NOW, true, MAU_MS).contains(&Viec::Reconcile), "còn 1 ms nữa");
    lc.reconcile = Some(NOW - t.reconcile_interval.0);
    assert!(den_han(&t, &lc, NOW, true, MAU_MS).contains(&Viec::Reconcile), "đúng chu kỳ");
}

#[test]
fn checkpoint_moi_gio_va_don_dep_moi_ngay() {
    let t = timing();
    let mut lc = vua_chay();
    lc.checkpoint = Some(NOW - CHU_KY_CHECKPOINT_MS);
    lc.don_dep = Some(NOW - CHU_KY_CHECKPOINT_MS);
    let v = den_han(&t, &lc, NOW, true, MAU_MS);
    assert!(v.contains(&Viec::Checkpoint));
    assert!(!v.contains(&Viec::DonDep), "dọn dẹp mỗi ngày, một giờ chưa tới lượt");
}

#[test]
fn ket_qua_on_dinh_giua_hai_lan_goi() {
    let t = timing();
    let a = den_han(&t, &LanCuoi::default(), NOW, true, MAU_MS);
    let b = den_han(&t, &LanCuoi::default(), NOW, true, MAU_MS);
    assert_eq!(a, b, "cùng đầu vào phải cho cùng đầu ra, kể cả thứ tự");
}

#[test]
fn ngu_toi_viec_gan_nhat_nhung_khong_qua_mot_phut() {
    let t = timing();
    let lc = vua_chay();
    assert_eq!(ngu_bao_lau(&t, &lc, NOW, MAU_MS), MAU_MS);
    let xa = LanCuoi {
        lay_mau: Some(NOW),
        checkpoint: Some(NOW),
        don_dep: Some(NOW),
        reconcile: Some(NOW),
        presence: Some(NOW),
        quet_remote: Some(NOW),
    };
    assert_eq!(ngu_bao_lau(&t, &xa, NOW, 10 * 60_000), 60_000);
}

#[test]
fn viec_da_qua_han_thi_khong_ngu() {
    let t = timing();
    let lc = LanCuoi { lay_mau: Some(NOW - 999_999), ..vua_chay() };
    assert_eq!(ngu_bao_lau(&t, &lc, NOW, MAU_MS), 0, "làm ngay, đừng ngủ");
}

#[test]
fn chua_bao_gio_chay_thi_khong_ngu() {
    let t = timing();
    assert_eq!(ngu_bao_lau(&t, &LanCuoi::default(), NOW, MAU_MS), 0);
}
