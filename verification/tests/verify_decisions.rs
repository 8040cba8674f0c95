use nasdedup_core::dedupe::{DedupeError, DedupeOutcome};
use nasdedup_core::model::{DomainId, FileKey, FileLoc, FileRecord, Group, Identity, State, SubId};
use nasdedup_core::pipeline::verify::{nhom_sau, sau_dedupe};
use nasdedup_core::pipeline::StepOutcome;
use nasdedup_core::repo::rules::new_row;
use nasdedup_core::repo::{EventMethod, EventResult, GroupOp};

const NOW: i64 = 1_000_000;

fn ident(ino: u64, size: u64) -> Identity {
    Identity {
        key: FileKey { sub_id: SubId([0; 16]), ino },
        domain_id: DomainId([1; 16]),
        size,
        mtime_ns: 5,
        ctime_ns: 5,
        atime_ns: 0,
        nlink: 1,
        uid: 1000,
        mode: 0o644,
        blocks: 0,
        dev: 0,
    }
}

fn hang(id: i64, ino: u64, group: i64) -> FileRecord {
    let mut r = new_row(id, &ident(ino, 100), &FileLoc::new(1, "a.mp4"), NOW, 0, NOW);
    r.state = State::Hashed;
    r.group_id = Some(group);
    r.sparse_hash = Some([7; 32]);
    r
}

fn nhom(id: i64) -> Group {
    Group {
        id,
        domain_id: DomainId([1; 16]),
        size: 100,
        sparse_hash: [7; 32],
        hash_version: 1,
        full_hash: None,
        canonical_file_id: Some(1),
        verified_at: None,
        created_at: NOW,
    }
}

#[test]
fn sau_dedupe_same_thi_dedup_khi_backend_chia_se() {
    let (rec, goc) = (hang(2, 20, 5), hang(1, 10, 5));
    let b = ident(20, 100);
    let o = sau_dedupe(&rec, &goc, 5, &b, &Ok(DedupeOutcome::Same { bytes_shared: 100 }), [7; 32], None, NOW, EventMethod::Fideduperange, true);
    match o {
        StepOutcome::Apply(t) => {
            assert_eq!((t.from, t.to), (State::Hashed, State::Deduped));
            assert_eq!(t.group, Some(GroupOp::Verified { group: 5, full_hash: None }));
            assert_eq!(t.event.unwrap().result, EventResult::Same);
        },
        _ => panic!("phải là Apply"),
    }
}

#[test]
fn sau_dedupe_same_chi_verified_khi_khong_chia_se() {
    let (rec, goc) = (hang(2, 20, 5), hang(1, 10, 5));
    let o = sau_dedupe(&rec, &goc, 5, &ident(20, 100), &Ok(DedupeOutcome::Same { bytes_shared: 100 }), [7; 32], None, NOW, EventMethod::DryRun, false);
    match o {
        StepOutcome::Apply(t) => assert_eq!(t.to, State::Verified),
        _ => panic!("phải là Apply"),
    }
}

#[test]
fn sau_dedupe_differs_sang_nhom_ke_tiep_hoac_mo_nhom_moi() {
    let (rec, goc) = (hang(2, 20, 5), hang(1, 10, 5));
    let o = sau_dedupe(&rec, &goc, 5, &ident(20, 100), &Ok(DedupeOutcome::Differs { at_offset: 3 }), [7; 32], Some(9), NOW, EventMethod::DryRun, false);
    match o {
        StepOutcome::Apply(t) => {
            assert_eq!((t.to, t.patch.group_id, t.group), (State::Hashed, Some(Some(9)), None));
            assert_eq!(t.event.unwrap().result, EventResult::Differs);
        },
        _ => panic!("phải là Apply"),
    }
    let o = sau_dedupe(&rec, &goc, 5, &ident(20, 100), &Ok(DedupeOutcome::Differs { at_offset: 3 }), [7; 32], None, NOW, EventMethod::DryRun, false);
    match o {
        StepOutcome::Apply(t) => {
            assert_eq!(t.to, State::Canonical);
            assert_eq!(t.group, Some(GroupOp::Create { canonical: 2, sparse_hash: [7; 32], hash_version: 1 }));
        },
        _ => panic!("phải là Apply"),
    }
}

#[test]
fn sau_dedupe_bi_dung_thi_hoan_mot_phut() {
    let (rec, goc) = (hang(2, 20, 5), hang(1, 10, 5));
    let o = sau_dedupe(&rec, &goc, 5, &ident(20, 100), &Err(DedupeError::Stopped), [7; 32], None, NOW, EventMethod::DryRun, false);
    match o {
        StepOutcome::Defer { until, .. } => assert_eq!(until, NOW + 60_000),
        _ => panic!("phải là Defer"),
    }
}

#[test]
fn nhom_sau_lay_nhom_dau_tien_co_id_lon_hon() {
    let gs = vec![nhom(3), nhom(5), nhom(8), nhom(9)];
    assert_eq!(nhom_sau(&gs, 5), Some(8));
    assert_eq!(nhom_sau(&gs, 1), Some(3));
    assert_eq!(nhom_sau(&gs, 9), None);
    assert_eq!(nhom_sau(&Vec::new(), 0), None);
}
