use nasdedup_core::model::{
    remote_key, Backend, DomainId, FileKey, Fingerprint, Identity, RootKind, State, SubId,
};

#[test]
fn state_roundtrip_qua_chuoi() {
    for st in State::ALL {
        let parsed = State::from_str(st.as_str()).unwrap();
        assert_eq!(parsed, st);
    }
    assert!(State::from_str("khong_ton_tai").is_err());
}

#[test]
fn phan_loai_state_khop_spec_4_3_va_4_4() {
    let queued: Vec<State> = State::ALL.into_iter().filter(|s| s.is_queued()).collect();
    assert_eq!(queued, vec![State::Settling, State::Sized, State::Hashed]);
    assert!(!State::Verified.is_queued());
    for st in State::ALL {
        assert_ne!(st.is_queued(), st.is_terminal(), "{} phải thuộc đúng một nhóm", st.as_str());
    }
    let cands: Vec<State> = State::ALL.into_iter().filter(|s| s.is_candidate()).collect();
    assert_eq!(cands, vec![State::Sized, State::Distinct]);
}

#[test]
fn backend_roundtrip_va_phan_loai() {
    for b in Backend::ALL {
        assert_eq!(Backend::from_str(b.as_str()).unwrap(), b);
    }
    assert!(Backend::KernelDedupe.is_supported());
    assert!(Backend::VerifiedClone.is_supported());
    assert!(!Backend::Unsupported.is_supported());
    assert!(!Backend::Unknown.is_supported());
    assert!(!Backend::Unprobed.is_supported());
}

#[test]
fn domain_id_from_parts_giu_thu_tu_byte() {
    let d = DomainId::from_parts(0x0102_0304_0506_0708, 0x090a_0b0c_0d0e_0f10);
    assert_eq!(d.as_bytes()[0], 0x08, "little-endian: byte thấp trước");
    assert_eq!(d.as_bytes()[8], 0x10);
    assert_eq!(d, DomainId::from_parts(0x0102_0304_0506_0708, 0x090a_0b0c_0d0e_0f10));
    assert_ne!(d, DomainId::from_parts(1, 2));
}

fn id_mau() -> Identity {
    Identity {
        key: FileKey { sub_id: SubId::default(), ino: 1 },
        domain_id: DomainId::default(),
        size: 10,
        mtime_ns: 1,
        ctime_ns: 2,
        atime_ns: 3,
        nlink: 1,
        uid: 1000,
        mode: 0o100_644,
        blocks: 8,
        dev: 42,
    }
}

#[test]
fn identity_bat_duoc_setuid_setgid() {
    let mut id = id_mau();
    assert!(!id.has_special_mode());
    id.mode = 0o104_755;
    assert!(id.has_special_mode());
    id.mode = 0o102_755;
    assert!(id.has_special_mode());
}

#[test]
fn root_remote_chi_doc_va_khong_watch() {
    assert!(RootKind::Local.is_writable());
    assert!(!RootKind::Remote.is_writable());
    assert!(RootKind::Local.supports_watch());
    assert!(!RootKind::Remote.supports_watch());
    assert!(RootKind::Local.uses_ctime());
    assert!(!RootKind::Remote.uses_ctime());
    for k in RootKind::ALL {
        assert_eq!(RootKind::from_str(k.as_str()).unwrap(), k);
    }
}

#[test]
fn remote_key_thuan_theo_root_va_path() {
    let a = remote_key(1, "phim/a.mp4");
    let b = remote_key(1, "phim/a.mp4");
    assert_eq!(a, b, "cùng (root, path) phải cho cùng khóa");
    assert_ne!(a.ino, remote_key(1, "phim/b.mp4").ino);
    assert_ne!(a.sub_id, remote_key(2, "phim/a.mp4").sub_id);
}

#[test]
fn fingerprint_remote_bo_qua_ctime() {
    let a = Fingerprint { size: 100, mtime_ns: 5, ctime_ns: 111 };
    let b = Fingerprint { size: 100, mtime_ns: 5, ctime_ns: 999 };
    assert!(a.matches(&b, RootKind::Remote), "remote chỉ so size và mtime");
    assert!(!a.matches(&b, RootKind::Local), "local phải so cả ctime");
    let c = Fingerprint { size: 101, mtime_ns: 5, ctime_ns: 111 };
    assert!(!a.matches(&c, RootKind::Remote));
    let d = Fingerprint { size: 100, mtime_ns: 6, ctime_ns: 111 };
    assert!(!a.matches(&d, RootKind::Remote));
}

#[test]
fn fingerprint_lay_dung_ba_truong() {
    let id = Identity {
        key: FileKey { sub_id: SubId::default(), ino: 7 },
        domain_id: DomainId::default(),
        size: 123,
        mtime_ns: 456,
        ctime_ns: 789,
        atime_ns: 0,
        nlink: 1,
        uid: 0,
        mode: 0o100_644,
        blocks: 1,
        dev: 1,
    };
    let fp = id.fingerprint();
    assert_eq!(fp, Fingerprint { size: 123, mtime_ns: 456, ctime_ns: 789 });
}

