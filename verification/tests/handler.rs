use std::collections::HashMap;

use nasdedup_core::config::{Config, TimingCfg, WatchCfg};
use nasdedup_core::events::{FsEvent, RescanReason};
use nasdedup_core::filter::Prefilter;
use nasdedup_core::fs::{FileSystem, FsError, IoErrorKind, MemFile, MemOpened, MemoryFs};
use nasdedup_core::handler::{con_cho_phep, danh_dau_da_xoa, xu_ly, DemHangDoi, GhepRename, Gom, HandlerCtx, HanhDong, TRE_THU_LAI_MS};
use nasdedup_core::model::{DomainId, FileLoc, FileRecord, Identity, Root, RootKind, State, SubId};
use nasdedup_core::repo::{MemoryRepository, RepoError, Repository};

const NOW: i64 = 10_000_000;
const LON: u64 = 100 * 1024 * 1024;
const MTIME_NS: i64 = 1_000_000_000;
const UID: u32 = 1000;
const MODE_FILE: u32 = 0o100_644;
const MODE_DIR: u32 = 0o040_755;
const SETTLE: i64 = 15 * 60 * 1000;

/// A `statx` error injected for one path.
#[derive(Clone, Copy)]
enum LoiGia {
    KhongPhaiFile,
    Tam,
    VinhVien,
    RootLa,
}

/// `MemoryFs` whose `statx` can be made to fail on chosen paths.
struct FsGia {
    that: MemoryFs,
    loi: HashMap<FileLoc, LoiGia>,
}

impl FsGia {
    fn bom_loi(&mut self, loc: &FileLoc, l: LoiGia) {
        self.loi.insert(loc.clone(), l);
    }

    fn xoa_loi(&mut self, loc: &FileLoc) {
        self.loi.remove(loc);
    }
}

impl FileSystem for FsGia {
    type File = MemOpened;

    fn open(&self, loc: &FileLoc) -> Result<MemOpened, FsError> {
        self.that.open(loc)
    }

    fn open_rw(&self, loc: &FileLoc) -> Result<MemOpened, FsError> {
        self.that.open_rw(loc)
    }

    fn statx(&self, loc: &FileLoc) -> Result<Identity, FsError> {
        match self.loi.get(loc).copied() {
            Some(LoiGia::KhongPhaiFile) => Err(FsError::NotRegular(loc.rel_path.clone())),
            Some(LoiGia::Tam) => Err(FsError::Io(IoErrorKind::Other)),
            Some(LoiGia::VinhVien) => Err(FsError::Io(IoErrorKind::Os(40))),
            Some(LoiGia::RootLa) => Err(FsError::UnknownRoot(loc.root_id)),
            None => self.that.statx(loc),
        }
    }

    fn has_optout_marker(&self, root_id: i64, rel_dir: &str) -> bool {
        self.that.has_optout_marker(root_id, rel_dir)
    }
}

struct Ban {
    repo: MemoryRepository,
    fs: FsGia,
    loc: Prefilter,
    timing: TimingCfg,
    watch: WatchCfg,
    dem: DemHangDoi,
}

impl Ban {
    fn moi() -> Self {
        let mut cfg = Config::default();
        cfg.watch.roots = vec!["/volume1/video".to_string()];
        let mut repo = MemoryRepository::new();
        repo.root_upsert(
            &Root {
                id: 1,
                path: "/volume1/video".into(),
                domain_id: DomainId([1; 16]),
                kind: RootKind::Local,
                label: None,
                windows_unc: None,
                active: true,
                added_at: NOW,
            },
            NOW,
        )
        .unwrap();
        let loc = Prefilter::from_config(&cfg).unwrap();
        Ban {
            repo,
            fs: FsGia { that: MemoryFs::new(), loi: HashMap::new() },
            loc,
            timing: cfg.timing,
            watch: cfg.watch,
            dem: DemHangDoi::moi(),
        }
    }

    fn xu_ly_ket_qua(&mut self, ev: &FsEvent, now: i64) -> Result<Vec<HanhDong>, RepoError> {
        let ctx = HandlerCtx { fs: &self.fs, loc: &self.loc, timing: &self.timing, watch: &self.watch, now };
        xu_ly(&ctx, &mut self.repo, &mut self.dem, ev)
    }

    fn xu_ly(&mut self, ev: &FsEvent) -> Vec<HanhDong> {
        self.xu_ly_luc(ev, NOW)
    }

    fn xu_ly_luc(&mut self, ev: &FsEvent, now: i64) -> Vec<HanhDong> {
        self.xu_ly_ket_qua(ev, now).unwrap()
    }

    fn danh_dau(&mut self, loc: &FileLoc) -> Vec<HanhDong> {
        let ctx = HandlerCtx { fs: &self.fs, loc: &self.loc, timing: &self.timing, watch: &self.watch, now: NOW };
        danh_dau_da_xoa(&ctx, &mut self.repo, &mut self.dem, loc).unwrap()
    }

    fn tao(&mut self, rel: &str, ino: u64) -> FileLoc {
        self.tao_voi(rel, ino, MODE_FILE, LON)
    }

    fn tao_thu_muc(&mut self, rel: &str, ino: u64) -> FileLoc {
        self.tao_voi(rel, ino, MODE_DIR, 4096)
    }

    fn tao_uid(&mut self, rel: &str, ino: u64, uid: u32) -> FileLoc {
        let loc = self.tao_voi(rel, ino, MODE_FILE, LON);
        let mut f = MemFile::new(ino, Vec::new());
        f.identity.key.sub_id = SubId([1; 16]);
        f.identity.domain_id = DomainId([1; 16]);
        f.identity.size = LON;
        f.identity.mtime_ns = MTIME_NS;
        f.identity.ctime_ns = MTIME_NS;
        f.identity.mode = MODE_FILE;
        f.identity.uid = uid;
        self.fs.that.insert(loc.clone(), f);
        loc
    }

    fn tao_voi(&mut self, rel: &str, ino: u64, mode: u32, size: u64) -> FileLoc {
        let loc = FileLoc::new(1, rel);
        let mut f = MemFile::new(ino, Vec::new());
        f.identity.key.sub_id = SubId([1; 16]);
        f.identity.domain_id = DomainId([1; 16]);
        f.identity.size = size;
        f.identity.mtime_ns = MTIME_NS;
        f.identity.ctime_ns = MTIME_NS;
        f.identity.mode = mode;
        f.identity.uid = UID;
        self.fs.that.insert(loc.clone(), f);
        loc
    }

    fn doi_ten_dia(&mut self, cu: &str, moi: &str, ino: u64) -> FileLoc {
        self.fs.that.remove(&FileLoc::new(1, cu));
        self.tao(moi, ino)
    }

    fn xoa_dia(&mut self, rel: &str) {
        self.fs.that.remove(&FileLoc::new(1, rel));
    }

    fn rows(&self) -> Vec<FileRecord> {
        self.repo.all_files()
    }

    fn song(&self) -> Vec<FileRecord> {
        self.rows().into_iter().filter(|r| !matches!(r.state, State::Missing | State::Gone)).collect()
    }

    fn row(&self, rel: &str) -> Option<FileRecord> {
        self.rows().into_iter().find(|r| r.loc == FileLoc::new(1, rel))
    }

    fn duong_dan_song(&self) -> Vec<String> {
        let mut v: Vec<String> = self.song().iter().map(|r| r.loc.rel_path.clone()).collect();
        v.sort();
        v
    }
}

fn l(rel: &str) -> FileLoc {
    FileLoc::new(1, rel)
}

struct Vong {
    b: Ban,
    gom: Gom,
    ghep: GhepRename,
    hanh: Vec<HanhDong>,
    now: i64,
}

impl Vong {
    fn moi(b: Ban) -> Self {
        Vong { b, gom: Gom::moi(1_000, 1_000), ghep: GhepRename::moi(2_000), hanh: Vec::new(), now: NOW }
    }

    fn closed(&mut self, p: &str) {
        self.gom.nhan(FsEvent::Closed(l(p)), self.now);
    }

    fn modified(&mut self, p: &str) {
        self.gom.nhan(FsEvent::Modified(l(p)), self.now);
    }

    fn from(&mut self, tracker: u64, p: &str) {
        self.ghep.nhan_from(tracker, l(p), self.now);
    }

    fn to(&mut self, tracker: Option<u64>, p: &str) {
        let e = self.ghep.nhan_to(tracker, l(p), self.now);
        self.gom.nhan(e, self.now);
    }

    fn tick(&mut self, den: i64) {
        self.now = den;
        for e in self.ghep.het_han(den) {
            self.gom.nhan(e, den);
        }
        let toi_han = self.gom.den_han(den);
        self.thi_hanh(&toi_han);
    }

    fn ket_thuc(&mut self) {
        let treo = self.ghep.xa_het();
        for e in treo {
            self.gom.nhan(e, self.now);
        }
        let con_lai = self.gom.xa_het();
        self.thi_hanh(&con_lai);
    }

    fn thi_hanh(&mut self, evs: &[FsEvent]) {
        for e in evs {
            let r = self.b.xu_ly_luc(e, self.now);
            self.hanh.extend(r);
        }
    }
}

fn khang_dinh_dung_mot_row(v: &Vong, cuoi: &str) {
    let b = &v.b;
    assert_eq!(b.duong_dan_song(), [cuoi.to_owned()], "đường dẫn cuối");
    assert_eq!(b.rows().len(), 1, "0 row rác cho file tạm: {:?}", b.rows());
    assert!(v.hanh.is_empty(), "một lần upload thường không cần walk hay quét lại: {:?}", v.hanh);
}

#[test]
fn kich_ban_rsync_file_tam_roi_doi_ten() {
    let mut v = Vong::moi(Ban::moi());
    v.b.tao("phim/.a.mp4.aBc123", 7);
    v.closed("phim/.a.mp4.aBc123");
    for _ in 0..5 {
        v.modified("phim/.a.mp4.aBc123");
    }
    v.tick(NOW + 1_000);
    assert!(v.b.rows().is_empty(), "file tạm không được có row: {:?}", v.b.rows());
    v.b.doi_ten_dia("phim/.a.mp4.aBc123", "phim/a.mp4", 7);
    v.from(11, "phim/.a.mp4.aBc123");
    v.to(Some(11), "phim/a.mp4");
    v.ket_thuc();
    khang_dinh_dung_mot_row(&v, "phim/a.mp4");
}

#[test]
fn kich_ban_mv_tu_ngoai_cay_watch_vao() {
    let mut v = Vong::moi(Ban::moi());
    v.b.tao("phim/a.mp4", 7);
    v.to(Some(99), "phim/a.mp4");
    v.ket_thuc();
    khang_dinh_dung_mot_row(&v, "phim/a.mp4");
}

#[test]
fn kich_ban_finder_tao_roi_doi_ten() {
    let mut v = Vong::moi(Ban::moi());
    v.b.tao("phim/tam.mp4", 7);
    v.closed("phim/tam.mp4");
    v.tick(NOW + 1_000);
    assert_eq!(v.b.duong_dan_song(), ["phim/tam.mp4"]);
    v.b.doi_ten_dia("phim/tam.mp4", "phim/Phim Hay 2024.mp4", 7);
    v.from(21, "phim/tam.mp4");
    v.to(Some(21), "phim/Phim Hay 2024.mp4");
    v.ket_thuc();
    khang_dinh_dung_mot_row(&v, "phim/Phim Hay 2024.mp4");
}

#[test]
fn kich_ban_nextcloud_part_roi_doi_ten() {
    let mut v = Vong::moi(Ban::moi());
    let tam = "phim/a.mp4.ocTransferId1234.part";
    v.b.tao(tam, 7);
    v.closed(tam);
    for _ in 0..3 {
        v.modified(tam);
    }
    v.tick(NOW + 1_000);
    assert!(v.b.rows().is_empty(), "`.part` không được có row: {:?}", v.b.rows());
    v.b.doi_ten_dia(tam, "phim/a.mp4", 7);
    v.from(31, tam);
    v.to(Some(31), "phim/a.mp4");
    v.ket_thuc();
    khang_dinh_dung_mot_row(&v, "phim/a.mp4");
}

#[test]
fn kich_ban_rsync_ghep_cap_tre_hon_cua_so_van_ve_dung_mot_row() {
    let mut v = Vong::moi(Ban::moi());
    v.b.tao("phim/.a.mp4.aBc123", 7);
    v.closed("phim/.a.mp4.aBc123");
    v.tick(NOW + 1_000);
    v.from(11, "phim/.a.mp4.aBc123");
    v.b.doi_ten_dia("phim/.a.mp4.aBc123", "phim/a.mp4", 7);
    v.tick(NOW + 4_000);
    v.to(Some(11), "phim/a.mp4");
    v.ket_thuc();
    khang_dinh_dung_mot_row(&v, "phim/a.mp4");
}

#[test]
fn hang1_closed_tao_row_settling_uu_tien_0() {
    let mut b = Ban::moi();
    b.tao("phim/a.mp4", 7);
    assert!(b.xu_ly(&FsEvent::Closed(l("phim/a.mp4"))).is_empty());

    let r = b.row("phim/a.mp4").expect("phải có row");
    assert_eq!(r.state, State::Settling);
    assert_eq!(r.priority, 0, "sự kiện real-time đi trước mọi lượt quét");
    assert_eq!(r.ready_at, Some(NOW + SETTLE));
    assert_eq!(r.size, LON);
}

#[test]
fn hang1_closed_bi_pre_filter_loai_thi_khong_co_row_nao() {
    let mut b = Ban::moi();
    for (rel, ino) in [("phim/.a.mp4.aBc123", 1), ("phim/a.mp4.part", 2), ("phim/ghi-chu.txt", 3)] {
        b.tao(rel, ino);
        assert!(b.xu_ly(&FsEvent::Closed(l(rel))).is_empty(), "{rel}");
    }
    b.tao_voi("phim/nho.mp4", 4, 0o100_644, 1024);
    assert!(b.xu_ly(&FsEvent::Closed(l("phim/nho.mp4"))).is_empty());
    assert!(b.rows().is_empty(), "{:?}", b.rows());
}

#[test]
fn hang1_closed_trong_thu_muc_loai_tru_bi_bo_truoc_ca_statx() {
    // Tên test nói **thứ tự**, nên phải kiểm được thứ tự. Bơm một lỗi `statx` tạm
    // cho đúng hai đường dẫn ấy: nếu pre-filter đứng **sau** `statx`, handler sẽ
    // hẹn thử lại một đường dẫn trong thùng rác — và hẹn mãi. Không có phép bơm
    // này thì `upsert_su_kien` cũng loại đúng file đó bằng quy tắc 1 của
    // `check_path`, hai đường cho cùng kết quả, và test không phân biệt được.
    let mut b = Ban::moi();
    b.tao("#recycle/a.mp4", 5);
    b.tao("@eaDir/a.mp4", 6);
    b.fs.bom_loi(&l("#recycle/a.mp4"), LoiGia::Tam);
    b.fs.bom_loi(&l("@eaDir/a.mp4"), LoiGia::Tam);
    let ra = b.xu_ly(&FsEvent::Closed(l("#recycle/a.mp4")));
    assert!(ra.is_empty(), "không được statx một đường dẫn trong thùng rác: {ra:?}");
    assert!(b.xu_ly(&FsEvent::Closed(l("@eaDir/a.mp4"))).is_empty());
    assert!(b.rows().is_empty());
}

#[test]
fn hang1_closed_chay_du_pre_filter_thuan_truoc_ca_statx() {
    // Spec hàng 1: "pre-filter → `statx`". Với `Closed` ta đã biết đích là file,
    // nên cả bốn quy tắc thuần phải chạy trước. Không phải để tiết kiệm:
    // `LinuxFs::statx` **mở file thật** bằng `O_RDONLY` không kèm `O_NONBLOCK`,
    // nên một `mkfifo` trong thư viện làm event thread treo vô hạn.
    let mut b = Ban::moi();
    for rel in ["phim/pipe", "phim/ghi-chu.txt", "phim/a.mp4.part", "phim/.a.mp4.aBc123"] {
        b.tao(rel, 5);
        b.fs.bom_loi(&l(rel), LoiGia::Tam);
        let ra = b.xu_ly(&FsEvent::Closed(l(rel)));
        assert!(ra.is_empty(), "{rel}: không được chạm tới statx, {ra:?}");
    }
    assert!(b.rows().is_empty());
}

#[test]
fn hang1_closed_tren_thu_muc_khong_sinh_walk() {
    // `IN_CLOSE_WRITE` không xảy ra trên thư mục; nếu vẫn tới thì bỏ qua, đừng
    // tiêu một lượt `readdir` cho nó.
    let mut b = Ban::moi();
    b.tao_thu_muc("phim/moi", 21);
    assert!(b.xu_ly(&FsEvent::Closed(l("phim/moi"))).is_empty());
    assert!(b.rows().is_empty());
}

// ---------------------------------------------------------------------------
// Hàng 2: Modify(Data) / Modify(Metadata)
// ---------------------------------------------------------------------------

#[test]
fn hang2_modified_day_ready_at_cua_row_dang_settling() {
    let mut b = Ban::moi();
    b.tao("phim/a.mp4", 7);
    b.xu_ly(&FsEvent::Closed(l("phim/a.mp4")));

    let sau = NOW + 5_000;
    assert!(b.xu_ly_luc(&FsEvent::Modified(l("phim/a.mp4")), sau).is_empty());
    assert_eq!(b.row("phim/a.mp4").unwrap().ready_at, Some(sau + SETTLE));
    assert_eq!(b.rows().len(), 1, "không được sinh row thứ hai");
}

#[test]
fn hang2_modified_khong_tao_row_moi() {
    // Spec 5.9: chỉ `Close(Write)`/`Create(File)`/`Name(To|Both)` sinh upsert.
    let mut b = Ban::moi();
    b.tao("phim/a.mp4", 7);
    assert!(b.xu_ly(&FsEvent::Modified(l("phim/a.mp4"))).is_empty());
    assert!(b.rows().is_empty());
}

#[test]
fn hang2_modified_khong_danh_thuc_row_ngoai_settling() {
    let mut b = Ban::moi();
    b.tao("phim/a.mp4", 7);
    b.xu_ly(&FsEvent::Closed(l("phim/a.mp4")));
    b.repo.mark_missing(&l("phim/a.mp4"), NOW).unwrap();

    assert!(b.xu_ly_luc(&FsEvent::Modified(l("phim/a.mp4")), NOW + 1).is_empty());
    let r = b.row("phim/a.mp4").unwrap();
    assert_eq!(r.state, State::Missing, "phục hồi là việc của Close(Write), không phải Modify");
}

// ---------------------------------------------------------------------------
// Hàng 3, nhánh 1: đích thuộc thư mục loại trừ — kiểm TRƯỚC statx
// ---------------------------------------------------------------------------

#[test]
fn hang3_nhanh1_doi_ten_vao_thung_rac_la_da_xoa_chu_khong_phai_doi_ten() {
    let mut b = Ban::moi();
    b.tao("phim/a.mp4", 7);
    b.xu_ly(&FsEvent::Closed(l("phim/a.mp4")));
    b.doi_ten_dia("phim/a.mp4", "#recycle/a.mp4", 7);

    // Tiền đề của cả test: đích **tồn tại thật**, `statx` thành công. Không có
    // dòng này thì test vẫn xanh khi thứ tự bị đảo, vì `statx` cũng sẽ hỏng.
    assert!(b.fs.statx(&l("#recycle/a.mp4")).is_ok(), "đích phải statx được");

    let ra = b.xu_ly(&FsEvent::Renamed { from: l("phim/a.mp4"), to: l("#recycle/a.mp4") });
    assert!(ra.is_empty(), "{ra:?}");
    assert!(b.song().is_empty(), "kéo vào #recycle là xóa");
    assert_eq!(b.row("phim/a.mp4").unwrap().state, State::Missing);
    assert!(b.row("#recycle/a.mp4").is_none(), "không được để row nào trỏ vào thùng rác");
}

#[test]
fn hang3_nhanh1_doi_ten_sang_ten_tam_hay_duoi_khac_cung_la_da_xoa() {
    for dich in ["phim/a.mp4.part", "phim/a.txt"] {
        let mut b = Ban::moi();
        b.tao("phim/a.mp4", 7);
        b.xu_ly(&FsEvent::Closed(l("phim/a.mp4")));
        b.doi_ten_dia("phim/a.mp4", dich, 7);

        assert!(b.xu_ly(&FsEvent::Renamed { from: l("phim/a.mp4"), to: l(dich) }).is_empty());
        assert!(b.song().is_empty(), "{dich}: {:?}", b.rows());
        assert!(b.row(dich).is_none(), "{dich}");
    }
}

#[test]
fn hang3_nhanh1_kiem_thu_muc_loai_tru_chay_truoc_ca_loi_statx() {
    // Đích nằm trong `#recycle` mà `statx` lại gặp lỗi tạm. Nếu phép kiểm loại trừ
    // đứng **sau** `statx`, ta sẽ hẹn thử lại một đường dẫn trong thùng rác — và
    // hẹn mãi, vì mỗi lần thử lại vẫn là cùng một đường dẫn không bao giờ đáng quan
    // tâm, trong khi row thật ở `phim/` nằm chờ vô hạn.
    let mut b = Ban::moi();
    b.tao("phim/a.mp4", 7);
    b.xu_ly(&FsEvent::Closed(l("phim/a.mp4")));
    b.xoa_dia("phim/a.mp4"); // `mv` đã dời nó đi thật
    b.fs.bom_loi(&l("#recycle/a.mp4"), LoiGia::Tam);

    let ra = b.xu_ly(&FsEvent::Renamed { from: l("phim/a.mp4"), to: l("#recycle/a.mp4") });
    assert!(ra.is_empty(), "không được hẹn thử lại một đường dẫn trong thùng rác: {ra:?}");
    assert_eq!(b.row("phim/a.mp4").unwrap().state, State::Missing);
}

// ---------------------------------------------------------------------------
// Hàng 3, nhánh 2: statx không kết luận được
// ---------------------------------------------------------------------------

#[test]
fn hang3_nhanh2_statx_enoent_la_bang_chung_file_da_di() {
    let mut b = Ban::moi();
    b.tao("phim/a.mp4", 7);
    b.xu_ly(&FsEvent::Closed(l("phim/a.mp4")));
    b.xoa_dia("phim/a.mp4");

    let ra = b.xu_ly(&FsEvent::Renamed { from: l("phim/a.mp4"), to: l("phim/b.mp4") });
    assert!(ra.is_empty(), "{ra:?}");
    assert_eq!(b.row("phim/a.mp4").unwrap().state, State::Missing);
}

#[test]
fn hang3_nhanh2_statx_loi_tam_tra_thu_lai_va_khong_dung_toi_db() {
    let mut b = Ban::moi();
    b.tao("phim/a.mp4", 7);
    b.xu_ly(&FsEvent::Closed(l("phim/a.mp4")));
    b.fs.bom_loi(&l("phim/b.mp4"), LoiGia::Tam);

    let ev = FsEvent::Renamed { from: l("phim/a.mp4"), to: l("phim/b.mp4") };
    let ra = b.xu_ly(&ev);
    assert_eq!(
        ra,
        vec![HanhDong::ThuLai { ev, khong_som_hon: NOW + TRE_THU_LAI_MS }],
        "phải mang lại **cả** sự kiện, không chỉ `to`: xem doc của HanhDong::ThuLai"
    );
    assert_eq!(
        b.row("phim/a.mp4").unwrap().state,
        State::Settling,
        "nuốt lỗi tạm = bỏ sót file vĩnh viễn; đánh missing = mất row vì đĩa bận"
    );
}

#[test]
fn hang3_nhanh2_loi_vinh_vien_khong_phai_enoent_thi_khong_lam_gi() {
    let mut b = Ban::moi();
    b.tao("phim/a.mp4", 7);
    b.xu_ly(&FsEvent::Closed(l("phim/a.mp4")));
    b.fs.bom_loi(&l("phim/b.mp4"), LoiGia::RootLa);

    assert!(b.xu_ly(&FsEvent::Renamed { from: l("phim/a.mp4"), to: l("phim/b.mp4") }).is_empty());
    assert_eq!(b.row("phim/a.mp4").unwrap().state, State::Settling);
}

// ---------------------------------------------------------------------------
// Hàng 3, nhánh 3: đích là thư mục
// ---------------------------------------------------------------------------

#[test]
fn hang3_nhanh3_thu_muc_doi_tien_to_cho_moi_row_ben_duoi() {
    let mut b = Ban::moi();
    for (rel, ino) in [("phim/a.mp4", 7), ("phim/sau/b.mp4", 8)] {
        b.tao(rel, ino);
        b.xu_ly(&FsEvent::Closed(l(rel)));
    }
    b.tao_thu_muc("nhac", 30);

    let ra = b.xu_ly(&FsEvent::Renamed { from: l("phim"), to: l("nhac") });
    assert!(ra.is_empty(), "đã biết hết nội dung thì không cần readdir: {ra:?}");
    assert_eq!(b.duong_dan_song(), ["nhac/a.mp4", "nhac/sau/b.mp4"]);
}

#[test]
fn hang3_nhanh3_khong_phai_file_thuong_cung_di_nhanh_thu_muc() {
    // `LinuxFs::statx` trả `NotRegular` cho thư mục, không trả `Identity` mang
    // `S_IFDIR`. Hai đường phải cho cùng kết quả, nếu không bản thật sẽ đi nhánh
    // "đích đã đi" và xóa cả cây khỏi DB.
    let mut b = Ban::moi();
    b.tao("phim/a.mp4", 7);
    b.xu_ly(&FsEvent::Closed(l("phim/a.mp4")));
    b.fs.bom_loi(&l("nhac"), LoiGia::KhongPhaiFile);

    assert!(b.xu_ly(&FsEvent::Renamed { from: l("phim"), to: l("nhac") }).is_empty());
    assert_eq!(b.duong_dan_song(), ["nhac/a.mp4"]);
}

#[test]
fn hang3_nhanh3_thu_muc_chua_biet_gi_thi_doi_walk() {
    let mut b = Ban::moi();
    b.tao_thu_muc("nhac", 30);

    let ra = b.xu_ly(&FsEvent::Renamed { from: l("phim"), to: l("nhac") });
    assert_eq!(ra, vec![HanhDong::WalkThuMuc(l("nhac"))]);
}

#[test]
fn hang3_nhanh3_thu_muc_vao_thu_muc_loai_tru_la_xoa_ca_cay() {
    let mut b = Ban::moi();
    for (rel, ino) in [("phim/a.mp4", 7), ("phim/sau/b.mp4", 8)] {
        b.tao(rel, ino);
        b.xu_ly(&FsEvent::Closed(l(rel)));
    }
    let ra = b.xu_ly(&FsEvent::RenamedDir { from: l("phim"), to: l("#recycle/phim") });
    assert_eq!(ra, vec![HanhDong::DaDanhDauMissing { loc: l("phim"), so_row: 2 }]);
    assert!(b.song().is_empty());
}

// ---------------------------------------------------------------------------
// Hàng 3, nhánh 4 và 5: đích là file
// ---------------------------------------------------------------------------

#[test]
fn hang3_nhanh4_file_da_co_row_thi_giu_nguyen_tien_do() {
    let mut b = Ban::moi();
    b.tao("phim/a.mp4", 7);
    b.xu_ly(&FsEvent::Closed(l("phim/a.mp4")));
    let cu = b.row("phim/a.mp4").unwrap();
    b.doi_ten_dia("phim/a.mp4", "phim/b.mp4", 7);

    assert!(b.xu_ly(&FsEvent::Renamed { from: l("phim/a.mp4"), to: l("phim/b.mp4") }).is_empty());
    let moi = b.row("phim/b.mp4").expect("row phải theo sang tên mới");
    assert_eq!(moi.id, cu.id, "đổi tên không được tạo row mới");
    assert_eq!(moi.state, State::Settling);
    assert_eq!(b.rows().len(), 1);
}

#[test]
fn hang3_nhanh4_row_dang_missing_thi_duoc_phuc_hoi() {
    let mut b = Ban::moi();
    b.tao("phim/a.mp4", 7);
    b.xu_ly(&FsEvent::Closed(l("phim/a.mp4")));
    // `From` hết hạn ghép cặp ở tick trước đã đánh dấu nhầm — nhưng chỉ vì lúc đó
    // `phim/a.mp4` thật sự đã trống (file đã sang `phim/b.mp4`).
    b.doi_ten_dia("phim/a.mp4", "phim/b.mp4", 7);
    b.xu_ly(&FsEvent::RemovedUnknown(l("phim/a.mp4")));
    assert_eq!(b.row("phim/a.mp4").unwrap().state, State::Missing);

    assert!(b.xu_ly(&FsEvent::Renamed { from: l("phim/a.mp4"), to: l("phim/b.mp4") }).is_empty());

    let r = b.row("phim/b.mp4").expect("row phải sống lại ở tên mới");
    assert_ne!(r.state, State::Missing, "không phục hồi thì file chờ tới 7 ngày presence scan");
    assert_eq!(b.rows().len(), 1);
}

#[test]
fn hang3_nhanh4_doi_ten_de_len_file_khac_thi_row_cu_thanh_missing() {
    let mut b = Ban::moi();
    for (rel, ino) in [("phim/a.mp4", 7), ("phim/b.mp4", 8)] {
        b.tao(rel, ino);
        b.xu_ly(&FsEvent::Closed(l(rel)));
    }
    // `mv b.mp4 a.mp4`: inode 7 bị unlink mà không có sự kiện `Remove` nào.
    b.xoa_dia("phim/a.mp4");
    b.doi_ten_dia("phim/b.mp4", "phim/a.mp4", 8);

    assert!(b.xu_ly(&FsEvent::Renamed { from: l("phim/b.mp4"), to: l("phim/a.mp4") }).is_empty());
    assert_eq!(b.duong_dan_song(), ["phim/a.mp4"]);
    assert_eq!(b.song()[0].key.ino, 8, "row sống phải là inode còn tồn tại");
}

#[test]
fn hang3_nhanh5_inode_la_thi_upsert_va_don_row_ket_o_duong_dan_cu() {
    let mut b = Ban::moi();
    // Row cũ ở `phim/a.mp4` mang inode 7; trên đĩa `a.mp4` giờ là inode 9 (thay
    // file mà watcher bỏ lỡ), rồi bị đổi tên sang `phim/b.mp4`.
    b.tao("phim/a.mp4", 7);
    b.xu_ly(&FsEvent::Closed(l("phim/a.mp4")));
    b.xoa_dia("phim/a.mp4");
    b.tao("phim/b.mp4", 9);

    assert!(b.xu_ly(&FsEvent::Renamed { from: l("phim/a.mp4"), to: l("phim/b.mp4") }).is_empty());
    assert_eq!(b.duong_dan_song(), ["phim/b.mp4"]);
    assert_eq!(b.row("phim/a.mp4").unwrap().state, State::Missing);
}

#[test]
fn hang4_removed_unknown_la_file_thi_chi_dung_toi_dung_row_do() {
    let mut b = Ban::moi();
    for (rel, ino) in [("phim/a.mp4", 7), ("phim/b.mp4", 8)] {
        b.tao(rel, ino);
        b.xu_ly(&FsEvent::Closed(l(rel)));
    }
    b.xoa_dia("phim/a.mp4");

    // Thứ tự "điểm trước, dải sau" đọc được từ chính con số này: nếu dải quét
    // chạy trước, row `phim/a.mp4` chưa `missing` nên nó sẽ đếm thành 1.
    let ra = b.danh_dau(&l("phim/a.mp4"));
    assert!(ra.is_empty(), "một file bị xóa không được đi qua nhánh dải: {ra:?}");
    assert_eq!(b.row("phim/a.mp4").unwrap().state, State::Missing);
    assert_eq!(b.row("phim/b.mp4").unwrap().state, State::Settling);
}

#[test]
fn hang4_removed_unknown_la_thu_muc_thi_quet_ca_dai_va_bao_con_so() {
    let mut b = Ban::moi();
    for (rel, ino) in [("phim/a.mp4", 7), ("phim/sau/b.mp4", 8), ("nhac/c.mp4", 9)] {
        b.tao(rel, ino);
        b.xu_ly(&FsEvent::Closed(l(rel)));
    }
    for rel in ["phim/a.mp4", "phim/sau/b.mp4"] {
        b.xoa_dia(rel);
    }

    // Con số **phải** ra tới caller: quét một dải từ một sự kiện đơn lẻ là thao
    // tác nguy hiểm nhất của watcher, và tầng linux cần nó để log WARN/ALERT.
    let ra = b.danh_dau(&l("phim"));
    assert_eq!(ra, vec![HanhDong::DaDanhDauMissing { loc: l("phim"), so_row: 2 }]);
    assert_eq!(b.duong_dan_song(), ["nhac/c.mp4"]);
}

#[test]
fn hang4_su_kien_removed_unknown_di_qua_xu_ly() {
    let mut b = Ban::moi();
    b.tao("phim/a.mp4", 7);
    b.xu_ly(&FsEvent::Closed(l("phim/a.mp4")));
    b.xoa_dia("phim/a.mp4");
    assert!(b.xu_ly(&FsEvent::RemovedUnknown(l("phim/a.mp4"))).is_empty());
    assert_eq!(b.row("phim/a.mp4").unwrap().state, State::Missing);
}

#[test]
fn hang4_removed_unknown_tren_duong_dan_van_con_file_song_thi_de_nguyen_db() {
    // `mv phim/a.mp4 /backup/` (đích ngoài cây watch nên nửa `To` không bao giờ
    // tới), rồi 0,2 s sau một script ghi một file MỚI vào đúng `phim/a.mp4`. Tới
    // t = 2,2 s `GhepRename::het_han` mới phát `RemovedUnknown(phim/a.mp4)`.
    // `mark_missing` khớp **mọi** row cùng `rel_path` bất kể khóa, nên bản đầu
    // đánh `missing` đúng row của file mới — vẫn nằm nguyên trên đĩa, và không sự
    // kiện nào sửa lại.
    let mut b = Ban::moi();
    b.tao("phim/a.mp4", 7);
    b.xu_ly(&FsEvent::Closed(l("phim/a.mp4")));
    b.xoa_dia("phim/a.mp4");
    b.tao("phim/a.mp4", 200); // file MỚI chiếm chỗ
    b.xu_ly_luc(&FsEvent::Closed(l("phim/a.mp4")), NOW + 200);

    let ra = b.xu_ly_luc(&FsEvent::RemovedUnknown(l("phim/a.mp4")), NOW + 2_200);
    assert!(ra.is_empty(), "{ra:?}");
    assert_eq!(b.duong_dan_song(), ["phim/a.mp4"]);
    assert_eq!(b.song()[0].key.ino, 200, "row sống phải là inode còn trên đĩa");
}

#[test]
fn hang4_removed_unknown_tren_goc_root_bi_tu_choi_chu_khong_quet_sach() {
    // `IN_MOVE_SELF` của chính root (bị `mv` hay remount) đi qua
    // `GhepRename::nhan_from_khong_tracker` với `rel_path` rỗng. Cả hai bản cài
    // đặt coi mọi row là "nằm dưới" đường dẫn rỗng (`starts_with("")`, vị từ
    // `:dir = ''`), nên một lời gọi duy nhất đánh `missing` **cả thư viện**.
    let mut b = Ban::moi();
    for (rel, ino) in [("phim/a.mp4", 7), ("phim/sau/b.mp4", 8), ("nhac/c.mp4", 9)] {
        b.tao(rel, ino);
        b.xu_ly(&FsEvent::Closed(l(rel)));
    }
    let e = b.xu_ly_ket_qua(&FsEvent::RemovedUnknown(FileLoc::new(1, "")), NOW);
    assert!(e.is_err(), "phải báo lỗi ồn ào, không được quét cả root");
    assert_eq!(b.duong_dan_song().len(), 3, "không một row nào được đụng tới");
}

#[test]
fn hang4_removed_unknown_loi_tam_thi_thu_lai_ca_su_kien() {
    let mut b = Ban::moi();
    b.tao("phim/a.mp4", 7);
    b.xu_ly(&FsEvent::Closed(l("phim/a.mp4")));
    b.fs.bom_loi(&l("phim/a.mp4"), LoiGia::Tam);

    let ev = FsEvent::RemovedUnknown(l("phim/a.mp4"));
    assert_eq!(b.xu_ly(&ev), vec![HanhDong::ThuLai { ev, khong_som_hon: NOW + TRE_THU_LAI_MS }]);
    assert_eq!(b.row("phim/a.mp4").unwrap().state, State::Settling, "đĩa bận ≠ file đã đi");
}

#[test]
fn hang4_removed_unknown_ma_thu_muc_van_con_thi_di_walk_chu_khong_quet_dai() {
    let mut b = Ban::moi();
    for (rel, ino) in [("phim/a.mp4", 7), ("phim/sau/b.mp4", 8)] {
        b.tao(rel, ino);
        b.xu_ly(&FsEvent::Closed(l(rel)));
    }
    b.fs.bom_loi(&l("phim"), LoiGia::KhongPhaiFile);

    assert_eq!(b.xu_ly(&FsEvent::RemovedUnknown(l("phim"))), vec![HanhDong::WalkThuMuc(l("phim"))]);
    assert_eq!(b.duong_dan_song().len(), 2, "thư mục còn đó thì không được quét dải");
}

// ---------------------------------------------------------------------------
// Hàng 5: Name(To) đơn lẻ
// ---------------------------------------------------------------------------

#[test]
fn hang5_moved_in_file_thi_upsert() {
    let mut b = Ban::moi();
    b.tao("phim/a.mp4", 7);
    assert!(b.xu_ly(&FsEvent::MovedIn(l("phim/a.mp4"))).is_empty());
    assert_eq!(b.duong_dan_song(), ["phim/a.mp4"]);
}

#[test]
fn hang5_moved_in_thu_muc_thi_len_lich_walk() {
    let mut b = Ban::moi();
    b.tao_thu_muc("phim/moi", 21);
    assert_eq!(
        b.xu_ly(&FsEvent::MovedIn(l("phim/moi"))),
        vec![HanhDong::WalkThuMuc(l("phim/moi"))]
    );
    assert!(b.rows().is_empty());
}

#[test]
fn hang5_moved_in_thu_muc_loai_tru_khong_duoc_readdir() {
    // Người dùng Synology kéo cả một thư mục vào `#recycle` (hoặc DSM tự chuyển
    // vào đó): `IN_MOVED_TO` không ghép được cặp → `MovedIn` thư mục. Trên NAS
    // `#recycle` thường có hàng chục nghìn file — đúng cái cây mà cả kiến trúc
    // pre-filter sinh ra để không bao giờ chạm tới. Đây là nhánh duy nhất của
    // `them_moi` mà `upsert_su_kien` **không** bao trùm, nên không có test này
    // thì phép kiểm loại trừ ở đầu `them_moi` không được bảo vệ dòng nào.
    let mut b = Ban::moi();
    b.tao_thu_muc("#recycle/moi", 41);
    b.tao_thu_muc("phim/@eaDir", 42);
    let ra = b.xu_ly(&FsEvent::MovedIn(l("#recycle/moi")));
    assert!(ra.is_empty(), "không được readdir thùng rác: {ra:?}");
    assert!(b.xu_ly(&FsEvent::MovedIn(l("phim/@eaDir"))).is_empty());

    // Và phép kiểm ấy phải đứng **trước** `statx`: `LinuxFs::statx` mở đối tượng
    // thật, nên hỏi nó về một đường dẫn trong thùng rác đã là sai rồi — và một
    // lỗi tạm ở đó còn biến thành lời hẹn thử lại lặp mãi.
    b.tao_thu_muc("#recycle/khac", 43);
    b.fs.bom_loi(&l("#recycle/khac"), LoiGia::Tam);
    let ra = b.xu_ly(&FsEvent::MovedIn(l("#recycle/khac")));
    assert!(ra.is_empty(), "không được chạm tới statx trong thùng rác: {ra:?}");
}

#[test]
fn hang5_moved_in_de_len_file_cu_khong_duoc_de_lai_row_rac_song() {
    // Thay một bản phim bằng bản nét hơn: `mv /volume1/staging/a.mp4
    // /volume1/video/phim/a.mp4`. Staging cùng filesystem nhưng ngoài root watch,
    // nên kernel chỉ gửi `IN_MOVED_TO`; inode 7 bị unlink **không** sinh sự kiện
    // `Remove` nào. `upsert_pending` chỉ xử lý xung đột trên `(sub_id, ino)`, còn
    // `idx_files_path` không UNIQUE, nên hai row SỐNG cùng đường dẫn tồn tại được
    // — một trong hai mang inode đã biến mất kèm hash và `group_id` của nội dung
    // CŨ, và `find_by_path` trả về đúng nó.
    let mut b = Ban::moi();
    b.tao("phim/a.mp4", 7);
    b.xu_ly(&FsEvent::Closed(l("phim/a.mp4")));
    b.xoa_dia("phim/a.mp4");
    b.tao("phim/a.mp4", 9);

    assert!(b.xu_ly(&FsEvent::MovedIn(l("phim/a.mp4"))).is_empty());
    assert_eq!(b.duong_dan_song(), ["phim/a.mp4"]);
    assert_eq!(b.song()[0].key.ino, 9);
    assert_eq!(b.repo.find_by_path(&l("phim/a.mp4")).unwrap().unwrap().key.ino, 9);
}

#[test]
fn hang2_modified_tren_hard_link_khong_duoc_doi_duong_dan_cua_row() {
    // Sonarr/Radarr hardlink từ thư mục download vào thư viện (hoặc `cp -l`): một
    // `IN_MODIFY` trên link kia mang đúng khóa `(sub_id, ino)` nhưng một đường
    // dẫn khác. `upsert_pending` luôn ghi đè `rel_path`, nên row sẽ dời sang
    // `download/a.mp4.part` — hẳn ra ngoài phạm vi quan sát, không lỗi nào phát ra.
    let mut b = Ban::moi();
    b.tao("phim/a.mp4", 7);
    b.xu_ly(&FsEvent::Closed(l("phim/a.mp4")));
    b.tao("download/a.mp4.part", 7); // hard link, cùng inode

    let sau = NOW + 5_000;
    assert!(b.xu_ly_luc(&FsEvent::Modified(l("download/a.mp4.part")), sau).is_empty());
    let r = b.row("phim/a.mp4").expect("row phải ở nguyên đường dẫn cũ");
    assert_eq!(r.ready_at, Some(NOW + SETTLE), "không được đẩy hạn theo một link khác");
    assert!(b.row("download/a.mp4.part").is_none());
}

// ---------------------------------------------------------------------------
// Hàng 6: Remove(File) / Remove(Folder)
// ---------------------------------------------------------------------------

#[test]
fn hang6_removed_danh_dau_dung_mot_row() {
    let mut b = Ban::moi();
    for (rel, ino) in [("phim/a.mp4", 7), ("phim/b.mp4", 8)] {
        b.tao(rel, ino);
        b.xu_ly(&FsEvent::Closed(l(rel)));
    }
    assert!(b.xu_ly(&FsEvent::Removed(l("phim/a.mp4"))).is_empty());
    assert_eq!(b.duong_dan_song(), ["phim/b.mp4"]);
}

#[test]
fn hang6_removed_dir_danh_dau_ca_dai() {
    let mut b = Ban::moi();
    for (rel, ino) in [("phim/a.mp4", 7), ("phim/sau/b.mp4", 8), ("nhac/c.mp4", 9)] {
        b.tao(rel, ino);
        b.xu_ly(&FsEvent::Closed(l(rel)));
    }
    assert_eq!(
        b.xu_ly(&FsEvent::RemovedDir(l("phim"))),
        vec![HanhDong::DaDanhDauMissing { loc: l("phim"), so_row: 2 }]
    );
    assert_eq!(b.duong_dan_song(), ["nhac/c.mp4"]);
}

// ---------------------------------------------------------------------------
// Hàng 7 và 8
// ---------------------------------------------------------------------------

#[test]
fn hang7_created_dir_doi_mot_luot_walk() {
    let mut b = Ban::moi();
    assert_eq!(
        b.xu_ly(&FsEvent::CreatedDir(l("phim/moi"))),
        vec![HanhDong::WalkThuMuc(l("phim/moi"))]
    );
}

#[test]
fn hang7_created_dir_trong_thu_muc_loai_tru_thi_khong_walk() {
    let mut b = Ban::moi();
    assert!(b.xu_ly(&FsEvent::CreatedDir(l("#recycle/moi"))).is_empty());
    assert!(b.xu_ly(&FsEvent::CreatedDir(l("phim/@eaDir"))).is_empty());
}

#[test]
fn hang8_needs_rescan_chuyen_thanh_can_quet_lai() {
    let mut b = Ban::moi();
    for r in [RescanReason::QueueOverflow, RescanReason::WatchLimit, RescanReason::BackPressure] {
        assert_eq!(
            b.xu_ly(&FsEvent::NeedsRescan { reason: r }),
            vec![HanhDong::CanQuetLai(r)],
            "{r:?}"
        );
    }
}

// ---------------------------------------------------------------------------
// Trần hàng đợi (spec 4.3)
// ---------------------------------------------------------------------------

#[test]
fn tran_max_pending_chan_upsert_va_doi_quet_lai() {
    let mut b = Ban::moi();
    b.watch.max_pending = 1;
    b.tao("phim/a.mp4", 7);
    b.xu_ly(&FsEvent::Closed(l("phim/a.mp4")));
    assert!(!con_cho_phep(&b.repo, &mut b.dem, &b.watch, NOW, 1000).unwrap(), "đã chạm trần");

    b.tao("phim/b.mp4", 8);
    let ra = b.xu_ly(&FsEvent::Closed(l("phim/b.mp4")));
    assert_eq!(ra, vec![HanhDong::CanQuetLai(RescanReason::BackPressure)]);
    assert_eq!(b.rows().len(), 1, "vượt trần thì tuyệt đối KHÔNG upsert");
}

#[test]
fn tran_max_pending_per_uid_chan_rieng_tung_nguoi_dung() {
    let mut b = Ban::moi();
    b.watch.max_pending = 1_000;
    b.watch.max_pending_per_uid = 1;
    b.tao("phim/a.mp4", 7);
    b.xu_ly(&FsEvent::Closed(l("phim/a.mp4")));

    b.tao("phim/b.mp4", 8);
    let ra = b.xu_ly(&FsEvent::Closed(l("phim/b.mp4")));
    assert_eq!(ra, vec![HanhDong::CanQuetLai(RescanReason::BackPressure)]);
    assert_eq!(b.rows().len(), 1);

    // Người dùng khác vẫn còn chỗ: trần theo uid không được biến thành trần chung.
    b.tao_uid("phim/c.mp4", 9, 2000);
    assert!(b.xu_ly(&FsEvent::Closed(l("phim/c.mp4"))).is_empty());
    assert_eq!(b.rows().len(), 2);
}

#[test]
fn tran_khong_can_thiep_vao_viec_day_ready_at() {
    // `Modified` không thêm dòng nào vào hàng đợi nên không được bị trần chặn:
    // chặn nó chỉ làm file đang ghi dở bị hash sớm.
    let mut b = Ban::moi();
    b.tao("phim/a.mp4", 7);
    b.xu_ly(&FsEvent::Closed(l("phim/a.mp4")));
    b.watch.max_pending = 1;

    let sau = NOW + 5_000;
    assert!(b.xu_ly_luc(&FsEvent::Modified(l("phim/a.mp4")), sau).is_empty());
    assert_eq!(b.row("phim/a.mp4").unwrap().ready_at, Some(sau + SETTLE));
}

#[test]
fn nhanh4_don_from_khong_duoc_danh_nham_file_moi_o_duong_dan_cu() {
    // Đúng đường đi mà `ghep.rs` **cố ý** hỗ trợ ("Both tới sau khi đã hết hạn"):
    //   t = 0,0 s  `mv phim/a.mp4 phim/b.mp4`; nửa `To` bị trễ quá cửa sổ 2 s.
    //   t = 2,1 s  `het_han` → `RemovedUnknown(phim/a.mp4)` → row inode 7 `missing`.
    //   t = 2,5 s  file MỚI (inode 200) được ghi vào `phim/a.mp4` → row sống.
    //   t = 3,0 s  `Both` muộn tới → nhánh 4 dọn `from`.
    // `mark_missing(from)` trần trụi ở bước cuối đánh trúng row của inode 200 dù
    // file vẫn còn nguyên trên đĩa.
    let mut b = Ban::moi();
    b.tao("phim/a.mp4", 7);
    b.xu_ly(&FsEvent::Closed(l("phim/a.mp4")));
    b.doi_ten_dia("phim/a.mp4", "phim/b.mp4", 7);

    b.xu_ly_luc(&FsEvent::RemovedUnknown(l("phim/a.mp4")), NOW + 2_100);
    assert_eq!(b.row("phim/a.mp4").unwrap().state, State::Missing);

    b.tao("phim/a.mp4", 200);
    b.xu_ly_luc(&FsEvent::Closed(l("phim/a.mp4")), NOW + 2_500);

    let ev = FsEvent::Renamed { from: l("phim/a.mp4"), to: l("phim/b.mp4") };
    assert!(b.xu_ly_luc(&ev, NOW + 3_000).is_empty());

    let mut song = b.duong_dan_song();
    song.sort();
    assert_eq!(song, ["phim/a.mp4", "phim/b.mp4"], "{:?}", b.rows());
    let moi = b.row("phim/a.mp4").expect("row của inode 200");
    assert_eq!(moi.key.ino, 200);
    assert_ne!(moi.state, State::Missing, "file vẫn nằm nguyên trên đĩa");
}

#[test]
fn nhanh5_doi_ten_de_len_row_cu_thi_chi_con_mot_row_song() {
    // rsync ghi đè theo cách mặc định: tạo `phim/.a.mp4.aBc123` (inode 9) rồi
    // `rename()` sang `phim/a.mp4`, nơi đã có row của inode 7. Nhánh 5 không đi qua
    // `Repository::rename` nên không được hưởng bất biến "rename đè" của nhánh 4,
    // và kernel **không** phát `IN_DELETE` cho inode bị ghi đè.
    let mut b = Ban::moi();
    b.tao("phim/a.mp4", 7);
    b.xu_ly(&FsEvent::Closed(l("phim/a.mp4")));
    b.xoa_dia("phim/a.mp4");
    b.tao("phim/a.mp4", 9);

    let ev = FsEvent::Renamed { from: l("phim/.a.mp4.aBc123"), to: l("phim/a.mp4") };
    assert!(b.xu_ly(&ev).is_empty());

    assert_eq!(b.duong_dan_song(), ["phim/a.mp4"]);
    assert_eq!(b.song()[0].key.ino, 9, "row sống phải là inode còn tồn tại");
}

#[test]
fn thu_lai_giu_lai_ca_su_kien_nen_doi_ten_thu_muc_phuc_hoi_duoc() {
    // `mv phim/2024 phim/2024-4K` trên NAS đang bận: `statx(phim/2024-4K)` trả
    // `EIO`. Nếu `ThuLai` chỉ mang `to`, lần thử lại nhiều nhất dựng được
    // `MovedIn(phim/2024-4K)` → `WalkThuMuc`, mà `scan_insert` bỏ qua khóa đã có,
    // nên không row nào dưới cây được đổi tiền tố; `rename()` một thư mục cũng
    // không đổi `ctime` của file con nên delta reconcile không vớt lại được.
    let mut b = Ban::moi();
    for (rel, ino) in [("phim/2024/a.mp4", 7), ("phim/2024/sau/b.mp4", 8)] {
        b.tao(rel, ino);
        b.xu_ly(&FsEvent::Closed(l(rel)));
    }
    b.fs.bom_loi(&l("phim/2024-4K"), LoiGia::Tam);

    let ev = FsEvent::Renamed { from: l("phim/2024"), to: l("phim/2024-4K") };
    let ra = b.xu_ly(&ev);
    assert_eq!(
        ra,
        vec![HanhDong::ThuLai { ev: ev.clone(), khong_som_hon: NOW + TRE_THU_LAI_MS }],
        "phải mang lại cả `from`, không chỉ `to`"
    );
    assert_eq!(b.duong_dan_song(), ["phim/2024/a.mp4", "phim/2024/sau/b.mp4"]);

    // Tầng linux tới hạn thì đưa **nguyên** `ev` trở lại — đúng một dòng ở phía nó.
    b.fs.xoa_loi(&l("phim/2024-4K"));
    b.tao_thu_muc("phim/2024-4K", 50);

    // Phản chứng: thứ duy nhất dựng lại được từ một `ThuLai` chỉ mang `loc`.
    assert_eq!(
        b.xu_ly_luc(&FsEvent::MovedIn(l("phim/2024-4K")), NOW + TRE_THU_LAI_MS),
        vec![HanhDong::WalkThuMuc(l("phim/2024-4K"))]
    );
    assert_eq!(
        b.duong_dan_song(),
        ["phim/2024/a.mp4", "phim/2024/sau/b.mp4"],
        "`MovedIn` chỉ sinh WalkThuMuc; không row nào được đổi tiền tố"
    );

    let lai = match &ra[0] {
        HanhDong::ThuLai { ev: lai, .. } => lai.clone(),
        _ => panic!("phải là ThuLai"),
    };
    assert!(b.xu_ly_luc(&lai, NOW + TRE_THU_LAI_MS).is_empty());
    assert_eq!(b.duong_dan_song(), ["phim/2024-4K/a.mp4", "phim/2024-4K/sau/b.mp4"]);
}

#[test]
fn loi_statx_vinh_vien_khong_duoc_bien_thanh_vong_thu_lai_1_hz() {
    // Symlink trỏ tới video trong thư viện (`ln -s ../kho/a.mp4 phim/a.mp4`) —
    // kiểu tổ chức rất thường gặp trên NAS. `openat2` dùng
    // `RESOLVE_NO_SYMLINKS` nên nó luôn cho `ELOOP`, mà `loi_fs` xếp `ELOOP` vào
    // `FsError::Io` y như một `EIO` thoáng qua. Gọi nó là "lỗi tạm" sinh một
    // vòng lặp 1 Hz **vĩnh viễn** cho mỗi symlink, mỗi vòng tốn một `openat2`.
    // `EACCES` trên home của người dùng khác (root `/volume1/homes`) y hệt.
    let mut b = Ban::moi();
    b.tao("phim/a.mp4", 7);
    b.fs.bom_loi(&l("phim/a.mp4"), LoiGia::VinhVien);

    for ev in [
        FsEvent::Closed(l("phim/a.mp4")),
        FsEvent::MovedIn(l("phim/a.mp4")),
        FsEvent::Modified(l("phim/a.mp4")),
        FsEvent::RemovedUnknown(l("phim/a.mp4")),
    ] {
        let ra = b.xu_ly(&ev);
        assert!(ra.is_empty(), "{ev:?} → {ra:?}");
    }
    assert!(b.rows().is_empty());
}

#[test]
fn gom_khong_duoc_de_removed_nuot_renamed_cua_cung_dich() {
    // `mv phim/a.mp4 phim/b.mp4 && rm phim/b.mp4` trong cùng một giây. Khóa gom là
    // **đích**, nên cả hai sự kiện vào cùng một ô. Nuốt `Renamed` để lại một row
    // SỐNG trỏ vào `phim/a.mp4`, trong khi cả hai đường dẫn đều đã biến mất — và
    // nó vẫn là ứng viên dedup cho tới lượt presence scan.
    let mut b = Ban::moi();
    b.tao("phim/a.mp4", 7);
    b.xu_ly(&FsEvent::Closed(l("phim/a.mp4")));
    b.xoa_dia("phim/a.mp4"); // `mv` rồi `rm`: cả hai đường dẫn đều trống

    let mut g = Gom::moi(1_000, 1_000);
    g.nhan(FsEvent::Renamed { from: l("phim/a.mp4"), to: l("phim/b.mp4") }, NOW);
    g.nhan(FsEvent::Removed(l("phim/b.mp4")), NOW + 1);
    for e in g.den_han(NOW + 1_000) {
        b.xu_ly_luc(&e, NOW + 1_000);
    }

    assert!(b.duong_dan_song().is_empty(), "row sống trỏ vào chỗ trống: {:?}", b.rows());
}
