use nasdedup_core::events::crossbeam_sender::{Sender, VecSender};
use nasdedup_core::events::{FsEvent, RescanReason, WatchError};
use nasdedup_core::model::FileLoc;

fn loc(p: &str) -> FileLoc {
    FileLoc::new(1, p)
}

#[test]
fn chi_mot_so_su_kien_sinh_upsert() {
    assert!(FsEvent::Closed(loc("a.mp4")).triggers_upsert());
    assert!(FsEvent::MovedIn(loc("a.mp4")).triggers_upsert());
    assert!(FsEvent::Renamed { from: loc("t.tmp"), to: loc("a.mp4") }.triggers_upsert());
    assert!(!FsEvent::Modified(loc("a.mp4")).triggers_upsert());
    assert!(!FsEvent::Removed(loc("a.mp4")).triggers_upsert());
    assert!(!FsEvent::NeedsRescan { reason: RescanReason::QueueOverflow }.triggers_upsert());
}

#[test]
fn loc_cua_rename_la_dich() {
    let e = FsEvent::Renamed { from: loc("t.tmp"), to: loc("a.mp4") };
    assert_eq!(e.loc(), Some(&loc("a.mp4")));
    assert_eq!(FsEvent::NeedsRescan { reason: RescanReason::WatchLimit }.loc(), None);
}

#[test]
fn vec_sender_gom_su_kien() {
    let mut s = VecSender::new();
    s.send(FsEvent::Closed(loc("a.mp4"))).unwrap();
    s.send(FsEvent::Removed(loc("b.mp4"))).unwrap();
    let got = s.take();
    assert_eq!(got.len(), 2);
    assert!(s.take().is_empty(), "take() phải rỗng ở lần thứ hai");
}

#[test]
fn rescan_reason_co_ten_on_dinh() {
    assert_eq!(RescanReason::QueueOverflow.as_str(), "queue_overflow");
    assert_eq!(RescanReason::WatchLimit.as_str(), "watch_limit");
    assert_eq!(RescanReason::BackPressure.as_str(), "back_pressure");
}

#[test]
fn loi_watcher_co_thong_bao() {
    assert_eq!(WatchError::WatchLimit.message(), "chạm giới hạn fs.inotify.max_user_watches; cần tăng sysctl");
    assert_eq!(WatchError::CannotWatch("/v/phim".to_string()).message(), "không theo dõi được /v/phim");
    assert_eq!(WatchError::Unavailable("fanotify").message(), "backend không khả dụng: fanotify");
}
