use nasdedup_core::config::{ByteSize, Config};
use nasdedup_core::filter::{Prefilter, Reject};
use nasdedup_core::fs::MemoryFs;
use nasdedup_core::model::FileLoc;

fn cfg_mau() -> Config {
    let mut c = Config::default();
    c.watch.roots = vec!["/volume1/video".to_string()];
    c
}

fn loc(rel: &str) -> FileLoc {
    FileLoc::new(1, rel)
}

const LON: u64 = 100 * 1024 * 1024;

#[test]
fn nhan_file_video_binh_thuong() {
    let f = Prefilter::from_config(&cfg_mau()).unwrap();
    assert_eq!(f.check_path("phim/a.mp4", LON), None);
    assert_eq!(f.check_path("phim/A.MKV", LON), None, "hoa thường không quan trọng");
}

#[test]
fn loai_thu_muc_cua_preset_nas() {
    let f = Prefilter::from_config(&cfg_mau()).unwrap();
    let r = f.check_path("phim/@eaDir/a.mp4", LON);
    assert_eq!(r, Some(Reject::ThuMucLoaiTru("@eaDir".to_owned())));
}

#[test]
fn thung_rac_cua_moi_uid_deu_bi_loai() {
    let f = Prefilter::from_config(&cfg_mau()).unwrap();
    for d in [".Trash-1000", ".Trash-0", ".Trash-1001"] {
        let r = f.check_path(&format!("{d}/files/a.mp4"), LON);
        assert_eq!(r, Some(Reject::ThuMucLoaiTru(d.to_owned())), "{d}");
    }
    assert_eq!(f.check_path("Trash-cua-toi/a.mp4", LON), None);
}

#[test]
fn loai_file_tam_truoc_khi_xet_duoi() {
    let f = Prefilter::from_config(&cfg_mau()).unwrap();
    assert_eq!(f.check_path("phim/a.mp4.part", LON), Some(Reject::FileTam));
}

#[test]
fn loai_duoi_khong_phai_video() {
    let f = Prefilter::from_config(&cfg_mau()).unwrap();
    assert_eq!(f.check_path("a.txt", LON), Some(Reject::KhongPhaiVideo));
    assert_eq!(f.check_path("a", LON), Some(Reject::KhongPhaiVideo), "không có đuôi");
}

#[test]
fn loai_file_nho_hon_min_size() {
    let mut c = cfg_mau();
    c.watch.min_size = ByteSize(64 * 1024 * 1024);
    let f = Prefilter::from_config(&c).unwrap();
    let nho = 10 * 1024 * 1024;
    assert_eq!(f.check_path("a.mp4", nho), Some(Reject::QuaNho { size: nho, min: 64 * 1024 * 1024 }));
    assert_eq!(f.check_path("a.mp4", 64 * 1024 * 1024), None);
}

#[test]
fn loai_theo_exclude_globs() {
    let mut c = cfg_mau();
    c.watch.exclude_globs = vec!["**/nhap/**".to_string(), "*.sample.mp4".to_string()];
    let f = Prefilter::from_config(&c).unwrap();
    assert_eq!(f.check_path("phim/nhap/a.mp4", LON), Some(Reject::KhopGlob));
    assert_eq!(f.check_path("a.sample.mp4", LON), Some(Reject::KhopGlob));
    assert_eq!(f.check_path("phim/a.mp4", LON), None);
}

#[test]
fn glob_sai_bao_loi_ro_rang() {
    let mut c = cfg_mau();
    c.watch.exclude_globs = vec!["[khong-dong".to_string()];
    let e = match Prefilter::from_config(&c) {
        Err(e) => e,
        Ok(_) => panic!("glob sai phải bị từ chối"),
    };
    let m = e.message();
    assert!(m.contains("khong-dong"), "{m}");
    assert!(m.starts_with("exclude_globs: mẫu \"[khong-dong\" không hợp lệ: "), "{m}");
}

#[test]
fn marker_optout_o_thu_muc_cha_bat_ky_cap_nao() {
    let f = Prefilter::from_config(&cfg_mau()).unwrap();
    let mut fs = MemoryFs::new();
    fs.add_optout(1, "rieng");
    assert_eq!(f.check(&fs, &loc("rieng/sau/a.mp4"), LON), Some(Reject::NguoiDungTatDedup));
    assert_eq!(f.check(&fs, &loc("chung/a.mp4"), LON), None);
}

#[test]
fn quy_tac_re_chay_truoc_quy_tac_cham_dia() {
    let f = Prefilter::from_config(&cfg_mau()).unwrap();
    let mut fs = MemoryFs::new();
    fs.add_optout(1, "rieng");
    let r = f.check(&fs, &loc("rieng/a.mp4"), 1024);
    assert!(matches!(r, Some(Reject::QuaNho { .. })), "{r:?}");
}

#[test]
fn nhan_nhan_cua_ly_do() {
    assert_eq!(Reject::KhopGlob.as_str(), "khớp exclude_globs");
    assert_eq!(Reject::NguoiDungTatDedup.as_str(), "thư mục có marker tắt dedup");
}
