use nasdedup_core::repo::{EventMethod, EventResult, Patch};

#[test]
fn enum_roundtrip_qua_chuoi() {
    for m in EventMethod::ALL {
        assert_eq!(EventMethod::from_str(m.as_str()).unwrap(), m);
    }
    for r in EventResult::ALL {
        assert_eq!(EventResult::from_str(r.as_str()).unwrap(), r);
    }
    assert!(EventMethod::from_str("bia").is_err());
}

#[test]
fn patch_rong_nhan_biet_duoc() {
    assert!(Patch::new().is_empty());
    assert!(!Patch::new().attempts(1).is_empty());
    assert!(!Patch::new().ready_at(None).is_empty());
}
