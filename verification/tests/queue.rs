use std::time::Instant;

use nasdedup_core::model::{DomainId, FileKey, FileLoc, Identity, Root, RootKind, State, SubId};
use nasdedup_core::repo::{MemoryRepository, Repository, ScanRow};

fn kho(n: u64) -> (MemoryRepository, Vec<ScanRow>) {
    let mut r = MemoryRepository::new();
    r.root_upsert(
        &Root {
            id: 1,
            path: "/r".into(),
            domain_id: DomainId::default(),
            kind: RootKind::Local,
            label: None,
            windows_unc: None,
            active: true,
            added_at: 0,
        },
        0,
    )
    .expect("đăng ký root");
    let rows = (0..n)
        .map(|i| ScanRow {
            id: Identity {
                key: FileKey { sub_id: SubId::default(), ino: i + 1 },
                domain_id: DomainId::default(),
                size: 1024,
                mtime_ns: 0,
                ctime_ns: 0,
                atime_ns: 0,
                nlink: 1,
                uid: 0,
                mode: 0o100_644,
                blocks: 1,
                dev: 1,
            },
            loc: FileLoc::new(1, &format!("d/{i}.mp4")),
            state: State::Sized,
            ready_at: None,
            priority: 2,
        })
        .collect();
    (r, rows)
}

#[test]
fn scan_insert_tuyen_tinh_chu_khong_phai_bac_hai() {
    let do_lan = |n: u64| {
        let (mut r, rows) = kho(n);
        let t = Instant::now();
        r.scan_insert(&rows, 0).expect("chèn");
        t.elapsed()
    };
    let _ = do_lan(2_000);
    let nho = do_lan(4_000);
    let lon = do_lan(8_000);
    let ty_le = lon.as_secs_f64() / nho.as_secs_f64().max(1e-6);
    assert!(
        ty_le < 3.0,
        "gấp đôi số row tốn gấp {ty_le:.1} lần thời gian ({nho:?} → {lon:?}): \
         `scan_insert` đã quay lại quét tuyến tính `files` cho từng row"
    );
}

#[test]
fn scan_insert_bo_qua_khoa_da_co_va_dem_dung() {
    let (mut r, rows) = kho(5);
    assert_eq!(r.scan_insert(&rows, 0).unwrap(), 5);
    assert_eq!(r.scan_insert(&rows, 0).unwrap(), 0, "khóa đã có thì không chèn lại");
    assert_eq!(r.all_files().len(), 5);
}
