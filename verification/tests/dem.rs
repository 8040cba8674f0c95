use nasdedup_core::handler::DemHangDoi;
use nasdedup_core::repo::MemoryRepository;

const NOW: i64 = 10_000_000;

#[test]
fn dem_lai_khi_cache_qua_han_va_khi_dong_ho_lui() {
    let repo = MemoryRepository::new();
    let mut d = DemHangDoi::moi();
    assert_eq!(d.doc(&repo, NOW, 1).unwrap(), (0, 0));
    d.them(1);
    assert_eq!(d.doc(&repo, NOW + 999, 1).unwrap(), (1, 1));
    assert_eq!(d.doc(&repo, NOW + 1_000, 1).unwrap(), (0, 0));
    d.them(1);
    assert_eq!(d.doc(&repo, NOW + 1_000, 1).unwrap(), (1, 1));
    assert_eq!(d.doc(&repo, NOW, 1).unwrap(), (0, 0));
}

#[test]
fn them_tach_rieng_tung_uid() {
    let repo = MemoryRepository::new();
    let mut d = DemHangDoi::moi();
    d.doc(&repo, NOW, 1).unwrap();
    d.them(1000);
    d.them(1000);
    d.them(2000);
    assert_eq!(d.doc(&repo, NOW, 1000).unwrap(), (3, 2));
    assert_eq!(d.doc(&repo, NOW, 2000).unwrap(), (3, 1));
    assert_eq!(d.doc(&repo, NOW, 3000).unwrap(), (3, 0));
}
