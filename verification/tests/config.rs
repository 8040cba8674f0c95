use nasdedup_core::config::presets::NasFlavor;
use nasdedup_core::config::{
    posix_absolute, ByteSize, Config, ConfigError, GeneralCfg, HashCfg, IoCfg, Mode, RemoteRootCfg,
    TimeWindow, WatchCfg,
};
use nasdedup_core::path::starts_with_path;

fn cfg_hop_le() -> Config {
    Config {
        watch: WatchCfg { roots: vec!["/volume1/video".to_owned()], ..Default::default() },
        ..Default::default()
    }
}

#[test]
fn validate_bat_root_long_nhau() {
    let c = Config {
        watch: WatchCfg {
            roots: vec!["/volume1".to_owned(), "/volume1/video".to_owned()],
            ..Default::default()
        },
        ..Default::default()
    };
    assert!(matches!(c.validate(), Err(ConfigError::NestedRoots { .. })));
}

#[test]
fn validate_bat_allow_path_ngoai_root() {
    let c = Config {
        general: GeneralCfg {
            mode: Mode::Dedup,
            allow_paths: vec!["/volume2/khac".to_owned()],
            ..Default::default()
        },
        ..cfg_hop_le()
    };
    assert!(matches!(c.validate(), Err(ConfigError::AllowPathOutsideRoots(_))));
}

#[test]
fn validate_bat_dedup_ma_khong_co_allow_paths() {
    let c = Config { general: GeneralCfg { mode: Mode::Dedup, ..Default::default() }, ..cfg_hop_le() };
    assert_eq!(c.validate(), Err(ConfigError::DedupWithoutAllowPaths));
}

#[test]
fn validate_bat_burst_qua_nho() {
    let c = Config { io: IoCfg { read_burst: ByteSize(1024), ..Default::default() }, ..cfg_hop_le() };
    assert!(matches!(c.validate(), Err(ConfigError::BurstTooSmall { .. })));
}

fn remote(path: &str) -> RemoteRootCfg {
    RemoteRootCfg { path: path.to_owned(), label: None, windows_unc: None }
}

#[test]
fn khong_bao_gio_cho_phep_ghi_len_root_remote() {
    let c = Config {
        general: GeneralCfg {
            mode: Mode::Dedup,
            allow_paths: vec!["/mnt/win214/phim".to_owned()],
            ..Default::default()
        },
        watch: WatchCfg {
            roots: vec!["/volume1/video".to_owned()],
            remote_roots: vec![remote("/mnt/win214")],
            ..Default::default()
        },
        ..Default::default()
    };
    assert!(matches!(c.validate(), Err(ConfigError::AllowPathOnRemoteRoot(_))));
    let mut c2 = c;
    c2.general.allow_paths = vec!["/volume1/video".to_owned()];
    c2.validate().unwrap();
    assert!(!c2.is_allowed("/mnt/win214/phim/a.mp4"));
    assert!(c2.is_allowed("/volume1/video/a.mp4"));
}

#[test]
fn dedup_ma_chi_co_root_remote_bi_tu_choi() {
    let c = Config {
        general: GeneralCfg {
            mode: Mode::Dedup,
            allow_paths: vec!["/mnt/win214".to_owned()],
            ..Default::default()
        },
        watch: WatchCfg { roots: Vec::new(), remote_roots: vec![remote("/mnt/win214")], ..Default::default() },
        ..Default::default()
    };
    assert!(matches!(c.validate(), Err(ConfigError::AllowPathOnRemoteRoot(_))));
}

#[test]
fn root_remote_khong_duoc_long_trong_root_cuc_bo() {
    let c = Config {
        watch: WatchCfg {
            roots: vec!["/volume1".to_owned()],
            remote_roots: vec![remote("/volume1/win")],
            ..Default::default()
        },
        ..Default::default()
    };
    assert!(matches!(c.validate(), Err(ConfigError::NestedRoots { .. })));
}

#[test]
fn chi_co_root_remote_van_hop_le_o_che_do_report() {
    let c = Config {
        watch: WatchCfg { roots: Vec::new(), remote_roots: vec![remote("/mnt/win214")], ..Default::default() },
        ..Default::default()
    };
    c.validate().unwrap();
}

#[test]
fn path_posix_duoc_chap_nhan_ca_tren_windows() {
    assert!(posix_absolute("/volume1/video"));
    assert!(!posix_absolute("volume1/video"));
    assert!(!posix_absolute("./video"));
    assert!(starts_with_path("/volume1/video/test", "/volume1/video"));
    assert!(!starts_with_path("/volume1/videos", "/volume1/video"));
}

#[test]
fn validate_bat_root_tuong_doi_va_rong() {
    let c = Config::default();
    assert_eq!(c.validate(), Err(ConfigError::NoRoots));
    let c = Config {
        watch: WatchCfg { roots: vec!["tuong/doi".to_owned()], ..Default::default() },
        ..Default::default()
    };
    assert!(matches!(c.validate(), Err(ConfigError::RootNotAbsolute(_))));
}

#[test]
fn validate_bat_chunks_ngoai_khoang() {
    for chunks in [0, 1, 65, 1000] {
        let c = Config { hash: HashCfg { chunks, ..Default::default() }, ..cfg_hop_le() };
        assert_eq!(c.validate(), Err(ConfigError::BadChunks(chunks)));
    }
}

#[test]
fn validate_chap_nhan_cau_hinh_mac_dinh_co_root() {
    cfg_hop_le().validate().unwrap();
}

#[test]
fn is_allowed_chi_dung_o_mode_dedup() {
    let mut c = cfg_hop_le();
    c.general.allow_paths = vec!["/volume1/video/test".to_owned()];
    assert!(!c.is_allowed("/volume1/video/test/a.mp4"));
    c.general.mode = Mode::Dedup;
    assert!(c.is_allowed("/volume1/video/test/a.mp4"));
    assert!(!c.is_allowed("/volume1/video/khac/a.mp4"));
}

#[test]
fn exclude_dirs_gop_preset_va_cau_hinh_khong_trung_lap() {
    let c = Config {
        general: GeneralCfg { nas_flavor: NasFlavor::Synology, ..Default::default() },
        watch: WatchCfg {
            roots: vec!["/volume1".to_owned()],
            exclude_dirs: vec!["@eaDir".to_owned(), "rieng_cua_toi".to_owned()],
            ..Default::default()
        },
        ..Default::default()
    };
    let dirs = c.effective_exclude_dirs();
    assert!(dirs.contains(&"@eaDir".to_owned()));
    assert!(dirs.contains(&"rieng_cua_toi".to_owned()));
    assert_eq!(dirs.iter().filter(|d| *d == "@eaDir").count(), 1, "không lặp preset");
}

#[test]
fn time_window_bao_gom_ca_khung_qua_nua_dem() {
    let w = TimeWindow { start_min: 60, end_min: 360 };
    assert!(!w.contains(59));
    assert!(w.contains(60));
    assert!(w.contains(359));
    assert!(!w.contains(360));
    let qua_dem = TimeWindow { start_min: 22 * 60, end_min: 6 * 60 };
    assert!(qua_dem.contains(23 * 60));
    assert!(qua_dem.contains(2 * 60));
    assert!(!qua_dem.contains(12 * 60));
}

#[test]
fn is_remote_path_nhan_dung_may_khac() {
    let c = Config {
        watch: WatchCfg {
            roots: vec!["/volume1/video".to_owned()],
            remote_roots: vec![remote("/mnt/win214")],
            ..Default::default()
        },
        ..Default::default()
    };
    assert!(c.is_remote_path("/mnt/win214/phim/a.mp4"));
    assert!(!c.is_remote_path("/volume1/video/a.mp4"));
}
