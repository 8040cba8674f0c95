use nasdedup_core::config::parse::{parse_bytes, parse_window, ParseError};
use nasdedup_core::config::ConfigError;
use nasdedup_core::fs::synthetic_key;
use nasdedup_core::model::SubId;

#[test]
fn loi_parse_co_thong_bao_ro_rang() {
    assert_eq!(ParseError::Empty.message(), "giá trị rỗng");
    assert_eq!(parse_bytes("abc").unwrap_err().message(), "thiếu chữ số ở \"abc\"");
    assert_eq!(
        ParseError::BadUnit { unit: "xb".to_string() }.message(),
        "đơn vị không hợp lệ \"xb\" (dùng B/KiB/MiB/GiB/TiB hoặc ms/s/m/h/d)"
    );
    assert_eq!(
        parse_window("25:00").unwrap_err().message(),
        "khung giờ phải có dạng \"HH:MM-HH:MM\", nhận \"25:00\""
    );
}

#[test]
fn loi_cau_hinh_co_thong_bao_ro_rang() {
    assert_eq!(ConfigError::NoRoots.message(), "[watch] roots không được rỗng");
    assert_eq!(
        ConfigError::NestedRoots { parent: "/a".to_string(), child: "/a/b".to_string() }.message(),
        "root /a/b nằm trong root /a: các root không được lồng nhau"
    );
    assert_eq!(ConfigError::BadChunks(1).message(), "[hash] chunks phải trong khoảng 2..=64, nhận 1");
    assert_eq!(
        ConfigError::BurstTooSmall { burst: 1024 }.message(),
        "[io] read_burst (1024 B) phải ≥ 16 MiB để VerifiedClone không giữ lease quá lâu"
    );
    assert_eq!(
        ConfigError::BadValue { field: "min_size", source: ParseError::Empty }.message(),
        "min_size: giá trị rỗng"
    );
    assert_eq!(
        ConfigError::BadWindow("x".to_string()).message(),
        "khung giờ không hợp lệ \"x\": cần dạng \"HH:MM-HH:MM\""
    );
}

#[test]
fn khoa_gia_cua_std_fs_theo_duong_dan() {
    let a = synthetic_key("/volume1/video/a.mp4");
    assert_eq!(a, synthetic_key("/volume1/video/a.mp4"));
    assert_eq!(a.sub_id, SubId([0; 16]));
    assert_ne!(a.ino, synthetic_key("/volume1/video/b.mp4").ino);
    let h = blake3::hash(b"/volume1/video/a.mp4");
    let mut b = [0u8; 8];
    b.copy_from_slice(&h.as_bytes()[..8]);
    assert_eq!(a.ino, u64::from_le_bytes(b));
}
