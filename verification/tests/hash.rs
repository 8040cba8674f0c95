use nasdedup_core::fs::{MemFile, MemOpened};
use nasdedup_core::hash::{cac_doan, sparse_hash, Doan, HashError, HashParams};
use nasdedup_core::throttle::{CountingGovernor, Unlimited};

fn mac_dinh() -> HashParams {
    HashParams::new(16, 1024 * 1024).expect("tham số mặc định")
}

fn noi_dung(n: usize) -> Vec<u8> {
    (0..n).map(|i| (i % 251) as u8).collect()
}

fn mo(data: Vec<u8>) -> MemOpened {
    let id = MemFile::new(1, Vec::new()).identity;
    MemOpened { data, identity: id, has_hole: false, live: id }
}

fn hash(data: &[u8]) -> [u8; 32] {
    let size = data.len() as u64;
    let f = mo(data.to_vec());
    sparse_hash(mac_dinh(), &f, size, &mut Unlimited).expect("hash")
}

#[test]
fn file_nho_hon_tong_mau_thi_doc_ca_file() {
    let d = cac_doan(mac_dinh(), 1000);
    assert_eq!(d, vec![Doan { offset: 0, len: 1000 }], "một chunk = cả file");
    let vua = 16 * 1024 * 1024;
    assert_eq!(cac_doan(mac_dinh(), vua), vec![Doan { offset: 0, len: vua }]);
}

#[test]
fn file_lon_lay_du_n_doan_dau_va_cuoi_dung_cho() {
    let size = 10_u64 * 1024 * 1024 * 1024;
    let d = cac_doan(mac_dinh(), size);
    assert_eq!(d.len(), 16);
    assert_eq!(d[0].offset, 0, "chunk đầu chứa moov/ftyp");
    assert_eq!(d[15].offset, size - mac_dinh().chunk_len(), "chunk cuối phải chạm đúng đuôi file");
    assert!(d.windows(2).all(|w| w[0].offset < w[1].offset), "offset phải tăng dần");
    assert!(d.iter().all(|x| x.offset + x.len <= size), "không đọc quá cuối file");
}

#[test]
fn offset_trung_gian_can_4_kib() {
    let d = cac_doan(mac_dinh(), 7 * 1024 * 1024 * 1024 + 12_345);
    for x in &d[..d.len() - 1] {
        assert_eq!(x.offset % 4096, 0, "offset {} chưa căn 4 KiB", x.offset);
    }
}

#[test]
fn doi_mot_byte_trong_cua_so_thi_doi_digest() {
    let mut a = noi_dung(40 * 1024 * 1024);
    let h1 = hash(&a);
    a[0] ^= 0xFF;
    assert_ne!(hash(&a), h1, "byte đầu luôn nằm trong mẫu");
    let mut b = noi_dung(40 * 1024 * 1024);
    let cuoi = b.len() - 1;
    b[cuoi] ^= 0xFF;
    assert_ne!(hash(&b), h1, "byte cuối luôn nằm trong mẫu");
}

#[test]
fn doi_byte_ngoai_cua_so_thi_digest_khong_doi() {
    let size = 200 * 1024 * 1024;
    let mut a = noi_dung(size);
    let doans = cac_doan(mac_dinh(), size as u64);
    let ngoai = (0..size as u64)
        .find(|off| !doans.iter().any(|d| *off >= d.offset && *off < d.offset + d.len))
        .expect("phải có khoảng trống giữa các chunk");
    let h1 = hash(&a);
    a[ngoai as usize] ^= 0xFF;
    assert_eq!(hash(&a), h1, "hash không thấy byte ở offset {ngoai} — đúng như thiết kế");
}

#[test]
fn size_khac_nhau_cho_digest_khac_nhau() {
    let a = noi_dung(30 * 1024 * 1024);
    let b = noi_dung(30 * 1024 * 1024 + 1);
    assert_ne!(hash(&a), hash(&b));
}

#[test]
fn tham_so_khac_nhau_cho_digest_khac_nhau() {
    let data = noi_dung(40 * 1024 * 1024);
    let size = data.len() as u64;
    let f = mo(data);
    let a = sparse_hash(mac_dinh(), &f, size, &mut Unlimited).unwrap();
    let khac = HashParams::new(8, 1024 * 1024).unwrap();
    let b = sparse_hash(khac, &f, size, &mut Unlimited).unwrap();
    assert_ne!(a, b, "đổi tham số phải làm hash cũ vô nghĩa");
}

#[test]
fn hoi_governor_truoc_moi_lan_doc() {
    let data = noi_dung(40 * 1024 * 1024);
    let size = data.len() as u64;
    let f = mo(data);
    let mut gov = CountingGovernor::new();
    sparse_hash(mac_dinh(), &f, size, &mut gov).unwrap();
    assert_eq!(gov.total(), 16 * 1024 * 1024, "mọi byte đọc đều đi qua governor");
}

#[test]
fn governor_bao_tam_dung_thi_dung_ngay() {
    let data = noi_dung(40 * 1024 * 1024);
    let size = data.len() as u64;
    let f = mo(data);
    let mut gov = CountingGovernor::paused();
    assert!(matches!(sparse_hash(mac_dinh(), &f, size, &mut gov), Err(HashError::Stopped)));
    assert_eq!(gov.total(), 1024 * 1024, "dừng ngay sau chunk đầu tiên xin phép");
}

#[test]
fn tham_so_khong_hop_le_bi_tu_choi() {
    assert!(HashParams::new(0, 1024).is_err());
    assert!(HashParams::new(1, 1024).is_err());
    assert!(HashParams::new(16, 0).is_err());
    assert!(HashParams::new(2, 1024).is_ok());
}

#[test]
fn doan_hop_le_tren_vai_bo_tham_so() {
    for (chunks, chunk_len, size) in [(2u32, 1u64, 1u64), (64, 4096, 1 << 30), (3, 1000, 123_457), (16, 1 << 19, (1 << 40) - 1)] {
        let p = HashParams::new(chunks, chunk_len).unwrap();
        let d = cac_doan(p, size);
        assert!(!d.is_empty());
        assert_eq!(d[0].offset, 0);
        let last = d[d.len() - 1];
        assert_eq!(last.offset + last.len, size, "phủ byte cuối");
        assert!(d.windows(2).all(|w| w[0].offset + w[0].len <= w[1].offset));
    }
}
