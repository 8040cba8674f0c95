use nasdedup_core::model::{DomainId, FileLoc, Root, RootKind};
use nasdedup_core::repo::{MemoryRepository, RepoError, Repository};

#[test]
fn meta_doc_lai_gia_tri_vua_ghi() {
    let mut r = MemoryRepository::new();
    assert_eq!(r.meta_get("rescan_needed").unwrap(), None);
    r.meta_set("rescan_needed", "1").unwrap();
    assert_eq!(r.meta_get("rescan_needed").unwrap(), Some("1".to_string()));
    r.meta_set("rescan_needed", "0").unwrap();
    assert_eq!(r.meta_get("rescan_needed").unwrap(), Some("0".to_string()));
    r.meta_set("khac", "x").unwrap();
    assert_eq!(r.meta_get("rescan_needed").unwrap(), Some("0".to_string()));
}

#[test]
fn root_la_bi_tu_choi_khi_upsert() {
    let mut r = MemoryRepository::new();
    let id = nasdedup_core::fs::MemFile::new(1, vec![]).identity;
    let e = r.upsert_pending(&id, &FileLoc::new(5, "a.mp4"), 0, 0, 0).unwrap_err();
    assert!(matches!(e, RepoError::Constraint(_)), "{e:?}");
    assert!(r.all_files().is_empty());
}

#[test]
fn dang_ky_root_roi_liet_ke() {
    let mut r = MemoryRepository::new();
    let root = Root {
        id: 3,
        path: "/volume1/video".into(),
        domain_id: DomainId([2; 16]),
        kind: RootKind::Local,
        label: None,
        windows_unc: None,
        active: true,
        added_at: 7,
    };
    assert_eq!(r.root_upsert(&root, 7).unwrap(), 3);
    let ds = r.root_list().unwrap();
    assert_eq!(ds.len(), 1);
    assert_eq!(ds[0].path, "/volume1/video");
    assert!(r.checkpoint().is_ok());
}

#[test]
fn sua_row_tai_cho_theo_khoa() {
    let mut r = MemoryRepository::new();
    let root = Root {
        id: 1,
        path: "/r".into(),
        domain_id: DomainId::default(),
        kind: RootKind::Local,
        label: None,
        windows_unc: None,
        active: true,
        added_at: 0,
    };
    r.root_upsert(&root, 0).unwrap();
    let id = nasdedup_core::fs::MemFile::new(9, vec![]).identity;
    r.upsert_pending(&id, &FileLoc::new(1, "a.mp4"), 5, 0, 0).unwrap();
    match r.store.file_by_key_mut(&id.key) {
        Some(f) => f.priority = 3,
        None => panic!("row phải tồn tại"),
    }
    assert_eq!(r.all_files()[0].priority, 3);
    let khac = nasdedup_core::fs::MemFile::new(10, vec![]).identity;
    assert!(r.store.file_by_key_mut(&khac.key).is_none());
}
