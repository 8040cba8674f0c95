use nasdedup_core::config::presets::{NasFlavor, COMMON};

#[test]
fn moi_flavor_deu_co_phan_chung() {
    for f in NasFlavor::ALL {
        let dirs = f.exclude_dirs();
        for c in COMMON {
            assert!(dirs.contains(&c), "{f:?} thiếu {c}");
        }
    }
}

#[test]
fn synology_co_eadir_va_recycle() {
    let dirs = NasFlavor::Synology.exclude_dirs();
    assert!(dirs.contains(&"@eaDir"), "@eaDir sinh thumbnail sau mỗi video upload");
    assert!(dirs.contains(&"#recycle"));
}

#[test]
fn qnap_co_thu_muc_rieng() {
    let dirs = NasFlavor::Qnap.exclude_dirs();
    assert!(dirs.contains(&"@Recycle"));
    assert!(dirs.contains(&".@__thumb"));
}

#[test]
fn khong_trung_lap_khi_flavor_lap_lai_muc_chung() {
    let dirs = NasFlavor::Truenas.exclude_dirs();
    assert_eq!(dirs.iter().filter(|d| **d == ".zfs").count(), 1);
    assert_eq!(dirs.iter().filter(|d| **d == ".recycle").count(), 1);
}

#[test]
fn generic_chi_co_phan_chung() {
    assert_eq!(NasFlavor::Generic.exclude_dirs(), COMMON.to_vec());
}

#[test]
fn mac_dinh_da_gom_du_danh_sach_cua_spec_5_1() {
    let dirs = NasFlavor::Generic.exclude_dirs();
    for d in [
        "@eaDir",
        ".@__thumb",
        "#recycle",
        "@Recycle",
        "#snapshot",
        "@Recently-Snapshot",
        ".snapshots",
        ".zfs",
        ".Trash-*",
        "@tmp",
        ".recycle",
        ".nasdedup",
    ] {
        assert!(dirs.contains(&d), "mặc định thiếu {d} (spec 5.1)");
    }
}
