use nasdedup_core::config::{ByteSize, Config, HashCfg, PolicyCfg, TimingCfg};
use nasdedup_core::dedupe::DryRunDeduper;
use nasdedup_core::fs::{FileSystem, FsError, MemFile, MemOpened, MemoryFs};
use nasdedup_core::hash::{cac_doan, sparse_hash, HashParams};
use nasdedup_core::model::{DomainId, FileKey, FileLoc, FileRecord, Root, RootKind, SkipReason, State, SubId};
use nasdedup_core::pipeline::{step, StepCtx, StepError, StepOutcome};
use nasdedup_core::repo::{EventFilter, EventResult, MemoryRepository, Patch, Repository, Transition};
use nasdedup_core::throttle::Unlimited;

const NOW: i64 = 10_000_000;
const MTIME_CU_NS: i64 = (NOW - 3_600_000) * 1_000_000;
const KICH_THUOC: usize = 4096;

fn mp4(n: usize, seed: u8) -> Vec<u8> {
    let mut v = vec![0, 0, 0, 0x20];
    v.extend_from_slice(b"ftyp");
    v.resize(n.max(8), 0);
    for (i, b) in v.iter_mut().enumerate().skip(8) {
        *b = ((i as u8) ^ seed).wrapping_mul(31);
    }
    v
}

struct Ban {
    repo: MemoryRepository,
    fs: MemoryFs,
    policy: PolicyCfg,
    hash: HashCfg,
    timing: TimingCfg,
    deduper: DryRunDeduper,
    gov: Unlimited,
    now: i64,
    allow_heavy: bool,
    next_heavy_at: Option<i64>,
}

impl Ban {
    fn moi() -> Self {
        let mut repo = MemoryRepository::new();
        let cfg = Config::default();
        for (id, path, kind) in [(1_i64, "/volume1/video", RootKind::Local), (2, "/mnt/win214", RootKind::Remote)] {
            repo.root_upsert(
                &Root {
                    id,
                    path: path.into(),
                    domain_id: DomainId([1; 16]),
                    kind,
                    label: None,
                    windows_unc: None,
                    active: true,
                    added_at: NOW,
                },
                NOW,
            )
            .expect("đăng ký root");
        }
        let mut fs = MemoryFs::new();
        fs.add_remote_root(2);
        Ban {
            repo,
            fs,
            policy: cfg.policy,
            hash: cfg.hash,
            timing: cfg.timing,
            deduper: DryRunDeduper { verify: true },
            gov: Unlimited,
            now: NOW,
            allow_heavy: true,
            next_heavy_at: Some(NOW + 3_600_000),
        }
    }

    fn chay(&mut self, rec: &FileRecord) -> Result<StepOutcome, StepError> {
        let ctx = StepCtx {
            repo: &self.repo,
            fs: &self.fs,
            deduper: &self.deduper,
            policy: &self.policy,
            hash: &self.hash,
            timing: &self.timing,
            now: self.now,
            allow_heavy: self.allow_heavy,
            next_heavy_at: self.next_heavy_at,
        };
        step(&ctx, &mut self.gov, rec)
    }

    fn chay_va_ap(&mut self, rec: &FileRecord) -> FileRecord {
        match self.chay(rec).expect("step") {
            StepOutcome::Apply(t) => {
                assert!(self.repo.apply(&t).expect("apply"), "CAS phải thành công");
            }
            khac => panic!("mong đợi Apply, nhận {khac:?}"),
        }
        self.doc(&rec.key)
    }

    fn chay_den_khi_dung(&mut self, key: &FileKey, n: usize) -> FileRecord {
        let mut rec = self.doc(key);
        let mut truoc: Option<Transition> = None;
        for _ in 0..n {
            match self.chay(&rec).expect("step") {
                StepOutcome::Apply(t) => {
                    if truoc.as_ref() == Some(t.as_ref()) {
                        return rec;
                    }
                    self.repo.apply(&t).expect("apply");
                    truoc = Some(*t);
                    rec = self.doc(key);
                }
                _ => return rec,
            }
        }
        rec
    }

    fn doc(&self, key: &FileKey) -> FileRecord {
        self.repo.find_by_key(key).expect("find").expect("row phải tồn tại")
    }

    fn them_file(&mut self, root_id: i64, rel: &str, ino: u64, data: Vec<u8>) -> FileRecord {
        self.them_file_mtime(root_id, rel, ino, data, MTIME_CU_NS)
    }

    fn them_file_mtime(&mut self, root_id: i64, rel: &str, ino: u64, data: Vec<u8>, mtime_ns: i64) -> FileRecord {
        let loc = FileLoc::new(root_id, rel);
        let mut f = MemFile::new(ino, data);
        f.identity.key.sub_id = SubId([1; 16]);
        f.identity.domain_id = DomainId([1; 16]);
        f.identity.mtime_ns = mtime_ns;
        f.identity.ctime_ns = mtime_ns;
        let id = f.identity;
        self.fs.insert(loc.clone(), f);
        self.repo.upsert_pending(&id, &loc, self.now, 0, self.now).expect("upsert");
        self.doc(&id.key)
    }

    fn ghi_de(&mut self, loc: &FileLoc, mtime_ns: i64) {
        self.fs.touch(loc, mtime_ns, mtime_ns);
    }

    fn row_o_state(&mut self, st: State) -> FileRecord {
        let rec = self.them_file(1, &format!("{}.mp4", st.as_str()), 900 + st as u64, mp4(64, 0));
        let t = Transition::new(rec.id, rec.state, st, Patch::new().ready_at(Some(self.now)), self.now);
        self.repo.apply(&t).expect("apply");
        self.doc(&rec.key)
    }
}

fn mo(data: Vec<u8>) -> MemOpened {
    let id = MemFile::new(1, data.clone()).identity;
    MemOpened { data, identity: id, has_hole: false, live: id }
}

#[test]
fn state_ngoai_hang_doi_thi_khong_lam_gi() {
    let mut b = Ban::moi();
    for st in [State::Verified, State::Deduped, State::Distinct, State::Canonical, State::Gone] {
        let rec = b.row_o_state(st);
        let r = b.chay(&rec).expect("step");
        assert_eq!(r, StepOutcome::Noop, "{}", st.as_str());
    }
}

#[test]
fn file_on_dinh_di_tu_settling_sang_sized() {
    let mut b = Ban::moi();
    let rec = b.them_file(1, "phim/a.mp4", 1, mp4(KICH_THUOC, 0));
    assert_eq!(rec.state, State::Settling);
    let rec = b.chay_va_ap(&rec);
    assert_eq!(rec.state, State::Sized);
    assert_eq!(rec.magic_ok, Some(true));
    assert_eq!(rec.size, KICH_THUOC as u64, "fingerprint lấy từ fd, không phải từ path");
}

#[test]
fn file_vua_duoc_ghi_thi_hoan_dung_luc_du_tuoi() {
    let mut b = Ban::moi();
    let ghi_luc = NOW - 60_000;
    let rec = b.them_file_mtime(1, "a.mp4", 1, mp4(KICH_THUOC, 0), ghi_luc * 1_000_000);
    match b.chay(&rec).expect("step") {
        StepOutcome::Defer { until, .. } => {
            assert_eq!(until, ghi_luc + b.timing.settle_delay.0, "hẹn đúng lúc file đủ tuổi");
        }
        khac => panic!("mong đợi Defer, nhận {khac:?}"),
    }
}

#[test]
fn file_van_dang_duoc_ghi_thi_dat_lai_dong_ho() {
    let mut b = Ban::moi();
    let rec = b.them_file(1, "a.mp4", 1, mp4(KICH_THUOC, 0));
    b.ghi_de(&rec.loc, MTIME_CU_NS + 5);
    let sau = b.chay_va_ap(&rec);
    assert_eq!(sau.state, State::Settling, "chưa được đi tiếp");
    assert_eq!(sau.attempts, 0, "file đang được ghi không phải lỗi");
    assert_eq!(sau.ready_at, Some(NOW + b.timing.settle_delay.0));
}

#[test]
fn file_khong_phai_video_bi_bo_qua_o_buoc_magic() {
    let mut b = Ban::moi();
    let rec = b.them_file(1, "gia.mp4", 1, b"day khong phai video".to_vec());
    let sau = b.chay_va_ap(&rec);
    assert_eq!(sau.state, State::Skipped);
    assert_eq!(sau.skip_reason.as_deref(), Some(SkipReason::BadMagic.as_str()));
}

#[test]
fn file_bien_mat_giua_chung_thi_thanh_missing() {
    let mut b = Ban::moi();
    let rec = b.them_file(1, "a.mp4", 1, mp4(KICH_THUOC, 0));
    b.fs.remove(&rec.loc);
    let sau = b.chay_va_ap(&rec);
    assert_eq!(sau.state, State::Missing);
    assert_eq!(sau.prev_state, Some(State::Settling));
}

#[test]
fn khong_ai_giong_thi_thanh_distinct_va_giu_hash() {
    let mut b = Ban::moi();
    let rec = b.them_file(1, "a.mp4", 1, mp4(KICH_THUOC, 0));
    let cuoi = b.chay_den_khi_dung(&rec.key, 6);
    assert_eq!(cuoi.state, State::Distinct);
    assert!(cuoi.sparse_hash.is_some(), "giữ hash để file tới sau so ngay được");
    assert_eq!(cuoi.ready_at, None, "không còn việc gì để làm");
}

#[test]
fn hai_file_giong_nhau_tao_nhom_va_dedup() {
    let mut b = Ban::moi();
    let data = mp4(KICH_THUOC, 7);
    let a = b.them_file(1, "goc/a.mp4", 1, data.clone());
    let a = b.chay_den_khi_dung(&a.key, 6);
    assert_eq!(a.state, State::Distinct);
    let bb = b.them_file(1, "ban-sao/b.mp4", 2, data);
    let bb = b.chay_den_khi_dung(&bb.key, 8);
    let a = b.doc(&a.key);
    assert_eq!(bb.state, State::Verified, "chế độ report: đã xác minh, chưa gộp");
    assert_eq!(a.state, State::Canonical, "A vào trước nên là gốc");
    assert_eq!(a.group_id, bb.group_id, "cùng một nhóm");
    assert!(a.group_id.is_some());
    let events = b.repo.events(&EventFilter::default()).unwrap();
    assert_eq!(events.len(), 1, "{events:?}");
    assert_eq!(events[0].result, EventResult::Same);
    assert_eq!(events[0].size, Some(KICH_THUOC as u64));
}

#[test]
fn file_thu_ba_vao_nhom_da_co() {
    let mut b = Ban::moi();
    let data = mp4(KICH_THUOC, 3);
    let a = b.them_file(1, "a.mp4", 1, data.clone());
    b.chay_den_khi_dung(&a.key, 6);
    let bb = b.them_file(1, "b.mp4", 2, data.clone());
    b.chay_den_khi_dung(&bb.key, 8);
    let group = b.doc(&a.key).group_id.expect("nhóm đã tạo");
    let c = b.them_file(1, "c.mp4", 3, data);
    let c = b.chay_den_khi_dung(&c.key, 8);
    assert_eq!(c.state, State::Verified);
    assert_eq!(c.group_id, Some(group), "vào đúng nhóm đã có, không tạo nhóm mới");
    assert_eq!(b.repo.group_members(group).unwrap().len(), 3);
}

fn cap_gia(size: usize, seed: u8, params: HashParams) -> (Vec<u8>, Vec<u8>) {
    let goc = mp4(size, seed);
    let doans = cac_doan(params, size as u64);
    let ngoai = (0..size as u64)
        .find(|off| !doans.iter().any(|d| *off >= d.offset && *off < d.offset + d.len))
        .expect("phải có khoảng trống");
    let mut khac = goc.clone();
    khac[ngoai as usize] ^= 0xFF;
    (goc, khac)
}

#[test]
fn hash_trung_nhung_noi_dung_khac_thi_khong_bao_gio_dedup() {
    let size = 40 * 1024 * 1024;
    let params = HashParams::new(4, 4096).expect("tham số");
    let mut ban = Ban::moi();
    ban.hash.chunks = 4;
    ban.hash.chunk_len = ByteSize(4096);
    let (goc, khac) = cap_gia(size, 11, params);
    let h1 = sparse_hash(params, &mo(goc.clone()), size as u64, &mut Unlimited).unwrap();
    let h2 = sparse_hash(params, &mo(khac.clone()), size as u64, &mut Unlimited).unwrap();
    assert_eq!(h1, h2, "fixture phải cho hash bằng nhau");
    assert_ne!(goc, khac, "nội dung phải khác nhau");

    let a = ban.them_file(1, "a.mp4", 1, goc);
    ban.chay_den_khi_dung(&a.key, 6);
    let bb = ban.them_file(1, "b.mp4", 2, khac);
    let bb = ban.chay_den_khi_dung(&bb.key, 10);
    assert_ne!(bb.state, State::Deduped, "TUYỆT ĐỐI không được dedup khi byte khác nhau");
    assert_ne!(bb.state, State::Verified, "cũng không được coi là đã xác minh giống nhau");
    let a = ban.doc(&a.key);
    assert_eq!(bb.state, State::Canonical, "hết nhóm để thử thì B mở nhóm của riêng nó");
    assert!(bb.group_id.is_some());
    assert_ne!(a.group_id, bb.group_id, "hai nhóm khác nhau");
    let events = ban.repo.events(&EventFilter::default()).unwrap();
    assert!(events.iter().any(|e| e.result == EventResult::Differs), "{events:?}");
    assert!(!events.iter().any(|e| e.result == EventResult::Same), "{events:?}");
}

#[test]
fn sau_differs_khong_thu_lai_dung_nhom_cu() {
    let mut ban = Ban::moi();
    ban.hash.chunks = 4;
    ban.hash.chunk_len = ByteSize(4096);
    let params = HashParams::new(4, 4096).expect("tham số");
    let size = 40 * 1024 * 1024;
    let (goc, khac) = cap_gia(size, 21, params);
    let a = ban.them_file(1, "a.mp4", 1, goc);
    ban.chay_den_khi_dung(&a.key, 6);
    let bb = ban.them_file(1, "b.mp4", 2, khac);
    let bb = ban.chay_den_khi_dung(&bb.key, 12);
    let nhom_a = ban.doc(&a.key).group_id.expect("A có nhóm");
    let nhom_b = bb.group_id.expect("B có nhóm");
    assert!(nhom_b > nhom_a, "nhóm mới phải có id lớn hơn: {nhom_b} vs {nhom_a}");
    let sau = ban.chay_den_khi_dung(&bb.key, 20);
    assert_eq!(sau.group_id, Some(nhom_b), "không được nhảy về nhóm cũ");
    assert_eq!(sau.state, State::Canonical);
}

#[test]
fn backfill_hash_cho_ung_vien_thieu() {
    let mut b = Ban::moi();
    let data = mp4(KICH_THUOC, 5);
    let a = b.them_file(1, "a.mp4", 1, data.clone());
    let a = b.chay_va_ap(&a);
    assert_eq!(a.state, State::Sized);
    assert_eq!(a.sparse_hash, None);
    let bb = b.them_file(1, "b.mp4", 2, data);
    let bb = b.chay_den_khi_dung(&bb.key, 10);
    let a = b.doc(&a.key);
    assert!(a.sparse_hash.is_some(), "B phải backfill hash cho A");
    assert_eq!(bb.state, State::Verified);
}

#[test]
fn ung_vien_bien_mat_khi_backfill() {
    let mut b = Ban::moi();
    let data = mp4(KICH_THUOC, 5);
    let a = b.them_file(1, "a.mp4", 1, data.clone());
    let a = b.chay_va_ap(&a);
    b.fs.remove(&a.loc);
    let bb = b.them_file(1, "b.mp4", 2, data);
    let bb = b.chay_den_khi_dung(&bb.key, 10);
    assert_eq!(b.doc(&a.key).state, State::Missing, "ứng viên biến mất phải được ghi nhận");
    assert_eq!(bb.state, State::Distinct, "B không còn ai để so");
}

#[test]
fn ung_vien_dang_settling_thi_hoan() {
    let mut b = Ban::moi();
    let data = mp4(KICH_THUOC, 5);
    let a = b.them_file(1, "a.mp4", 1, data.clone());
    b.repo
        .apply(&Transition::new(a.id, State::Settling, State::Settling, Patch::new().ready_at(Some(NOW + 500)), NOW))
        .unwrap();
    let bb = b.them_file(1, "b.mp4", 2, data);
    let bb = b.chay_va_ap(&bb);
    let bb = b.chay_va_ap(&bb);
    match b.chay(&bb).expect("step") {
        StepOutcome::Defer { until, .. } => assert_eq!(until, NOW + 500, "chờ A ổn định xong"),
        khac => panic!("mong đợi Defer, nhận {khac:?}"),
    }
}

#[test]
fn canonical_bien_mat_thi_bau_lai() {
    let mut b = Ban::moi();
    let data = mp4(KICH_THUOC, 9);
    let a = b.them_file(1, "a.mp4", 1, data.clone());
    b.chay_den_khi_dung(&a.key, 6);
    let bb = b.them_file(1, "b.mp4", 2, data.clone());
    b.chay_den_khi_dung(&bb.key, 8);
    let group = b.doc(&a.key).group_id.expect("nhóm");
    assert_eq!(b.repo.group_get(group).unwrap().unwrap().canonical_file_id, Some(a.id));
    b.fs.remove(&a.loc);
    b.repo.mark_missing(&a.loc, NOW).unwrap();
    let c = b.them_file(1, "c.mp4", 3, data);
    let c = b.chay_den_khi_dung(&c.key, 8);
    assert_eq!(c.state, State::Canonical, "nhóm mất gốc thì thành viên mới lên thay");
    assert_eq!(b.repo.group_get(group).unwrap().unwrap().canonical_file_id, Some(c.id));
}

#[test]
fn fingerprint_doi_truoc_khi_hash_thi_ve_settling() {
    let mut b = Ban::moi();
    let rec = b.them_file(1, "a.mp4", 1, mp4(KICH_THUOC, 0));
    let rec = b.chay_va_ap(&rec);
    assert_eq!(rec.state, State::Sized);
    b.ghi_de(&rec.loc, MTIME_CU_NS + 999);
    let sau = b.chay_va_ap(&rec);
    assert_eq!(sau.state, State::Settling);
    assert_eq!(sau.sparse_hash, None, "hash cũ không còn đúng");
    assert_eq!(sau.attempts, 0, "file bị ghi không phải lỗi của daemon");
}

#[test]
fn ngoai_khung_gio_thi_khong_doc_noi_dung() {
    let mut b = Ban::moi();
    let rec = b.them_file(1, "a.mp4", 1, mp4(KICH_THUOC, 0));
    let rec = b.chay_va_ap(&rec);
    b.allow_heavy = false;
    let sau = b.chay_va_ap(&rec);
    assert_eq!(sau.state, State::Sized, "chưa hash");
    assert_eq!(sau.sparse_hash, None);
    assert_eq!(sau.heavy_wait_since, Some(NOW), "ghi mốc chờ để còn thoát ra được");
    assert_eq!(sau.ready_at, b.next_heavy_at);
    match b.chay(&sau).expect("step") {
        StepOutcome::Defer { until, .. } => assert_eq!(until, b.next_heavy_at.unwrap()),
        khac => panic!("mong đợi Defer, nhận {khac:?}"),
    }
}

#[test]
fn root_remote_khong_bao_gio_bi_ghi() {
    let mut b = Ban::moi();
    let data = mp4(KICH_THUOC, 4);
    let a = b.them_file(1, "a.mp4", 1, data.clone());
    b.chay_den_khi_dung(&a.key, 6);
    let r = b.them_file(2, "tren-windows/b.mp4", 2, data);
    let r = b.chay_den_khi_dung(&r.key, 8);
    assert_ne!(r.state, State::Deduped, "không được ghi lên root remote");
    let loc = FileLoc::new(2, "tren-windows/b.mp4");
    assert!(matches!(b.fs.open_rw(&loc), Err(FsError::ReadOnlyRoot(2))));
}

#[test]
fn ctx_khong_co_khung_gio_thi_hen_mot_phut() {
    let b = Ban::moi();
    let ctx = StepCtx {
        repo: &b.repo,
        fs: &b.fs,
        deduper: &b.deduper,
        policy: &b.policy,
        hash: &b.hash,
        timing: &b.timing,
        now: NOW,
        allow_heavy: false,
        next_heavy_at: None,
    };
    match ctx.hen_khung_nang("thử") {
        StepOutcome::Defer { until, .. } => assert_eq!(until, NOW + 60_000),
        khac => panic!("{khac:?}"),
    }
}
