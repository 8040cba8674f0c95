//! Filesystem events from a watcher, independent of its backend.

pub mod crossbeam_sender;

use vstd::prelude::*;

use std::sync::atomic::AtomicBool;

use crate::fs::IoErrorKind;
use crate::model::FileLoc;

verus! {

/// A normalized watcher event.
#[derive(Debug, PartialEq, Eq)]
pub enum FsEvent {
    /// `IN_CLOSE_WRITE`, `IN_CREATE`: maybe an upload just finished.
    Closed(FileLoc),
    /// `IN_MODIFY`: only pushes `ready_at`, no immediate upsert.
    Modified(FileLoc),
    /// `IN_MOVED_FROM` + `IN_MOVED_TO` paired by cookie.
    Renamed { from: FileLoc, to: FileLoc },
    /// A lone `IN_MOVED_TO`: moved in from outside the watched tree.
    MovedIn(FileLoc),
    /// A lone `IN_MOVED_FROM` after the pairing timeout, or `IN_DELETE`.
    Removed(FileLoc),
    /// A `IN_MOVED_FROM` whose pair never came and whose kind is unknown:
    /// the handler decides from the database whether a file or a directory left.
    RemovedUnknown(FileLoc),
    /// A directory deleted or moved away.
    RemovedDir(FileLoc),
    /// A renamed directory: every row below it changes prefix.
    RenamedDir { from: FileLoc, to: FileLoc },
    /// A new directory: walked to catch files created before its watch.
    CreatedDir(FileLoc),
    /// Queue overflow, watch limit or a full channel: reconcile is needed.
    NeedsRescan { reason: RescanReason },
}

impl Clone for FsEvent {
    fn clone(&self) -> (r: Self)
        ensures
            r == *self,
    {
        match self {
            FsEvent::Closed(l) => FsEvent::Closed(l.clone()),
            FsEvent::Modified(l) => FsEvent::Modified(l.clone()),
            FsEvent::Renamed { from, to } => FsEvent::Renamed { from: from.clone(), to: to.clone() },
            FsEvent::MovedIn(l) => FsEvent::MovedIn(l.clone()),
            FsEvent::Removed(l) => FsEvent::Removed(l.clone()),
            FsEvent::RemovedUnknown(l) => FsEvent::RemovedUnknown(l.clone()),
            FsEvent::RemovedDir(l) => FsEvent::RemovedDir(l.clone()),
            FsEvent::RenamedDir { from, to } => FsEvent::RenamedDir {
                from: from.clone(),
                to: to.clone(),
            },
            FsEvent::CreatedDir(l) => FsEvent::CreatedDir(l.clone()),
            FsEvent::NeedsRescan { reason } => FsEvent::NeedsRescan { reason: *reason },
        }
    }
}

/// Why a reconcile is needed right away.
#[derive(Clone, Copy, Debug, PartialEq, Eq, Structural)]
pub enum RescanReason {
    /// The kernel overflowed the inotify queue.
    QueueOverflow,
    /// `fs.inotify.max_user_watches` was reached.
    WatchLimit,
    /// The internal channel is full or `max_pending` was passed.
    BackPressure,
}

pub open spec fn rescan_name(r: RescanReason) -> Seq<char> {
    match r {
        RescanReason::QueueOverflow => "queue_overflow"@,
        RescanReason::WatchLimit => "watch_limit"@,
        RescanReason::BackPressure => "back_pressure"@,
    }
}

impl RescanReason {
    pub fn as_str(self) -> (r: &'static str)
        ensures
            r@ == rescan_name(self),
    {
        match self {
            RescanReason::QueueOverflow => "queue_overflow",
            RescanReason::WatchLimit => "watch_limit",
            RescanReason::BackPressure => "back_pressure",
        }
    }
}

/// The main location of an event: the destination of a rename, none for a rescan.
pub open spec fn event_loc(e: FsEvent) -> Option<FileLoc> {
    match e {
        FsEvent::Closed(l) | FsEvent::Modified(l) | FsEvent::MovedIn(l) | FsEvent::Removed(l)
        | FsEvent::RemovedUnknown(l) | FsEvent::RemovedDir(l) | FsEvent::CreatedDir(l) => Some(l),
        FsEvent::Renamed { to, .. } | FsEvent::RenamedDir { to, .. } => Some(to),
        FsEvent::NeedsRescan { .. } => None,
    }
}

/// Events that upsert a pending row at once; a modification only moves the
/// wake-up time, since one large upload makes thousands of them.
pub open spec fn upserts(e: FsEvent) -> bool {
    e is Closed || e is MovedIn || e is Renamed
}

impl FsEvent {
    pub fn loc(&self) -> (r: Option<&FileLoc>)
        ensures
            match event_loc(*self) {
                Some(l) => r matches Some(x) && *x == l,
                None => r is None,
            },
    {
        match self {
            FsEvent::Closed(l) | FsEvent::Modified(l) | FsEvent::MovedIn(l) | FsEvent::Removed(l)
            | FsEvent::RemovedUnknown(l) | FsEvent::RemovedDir(l) | FsEvent::CreatedDir(l) => Some(
                l,
            ),
            FsEvent::Renamed { to, .. } | FsEvent::RenamedDir { to, .. } => Some(to),
            FsEvent::NeedsRescan { .. } => None,
        }
    }

    pub fn triggers_upsert(&self) -> (r: bool)
        ensures
            r == upserts(*self),
    {
        match self {
            FsEvent::Closed(_) | FsEvent::MovedIn(_) | FsEvent::Renamed { .. } => true,
            _ => false,
        }
    }
}

/// Error of a watcher.
#[derive(Debug, PartialEq, Eq)]
pub enum WatchError {
    /// `fs.inotify.max_user_watches` was reached; the sysctl must grow.
    WatchLimit,
    CannotWatch(String),
    Unavailable(&'static str),
    Io(IoErrorKind),
}

/// The text of a watcher error.
pub open spec fn watch_message(e: WatchError) -> Seq<char> {
    match e {
        WatchError::WatchLimit => "chạm giới hạn fs.inotify.max_user_watches; cần tăng sysctl"@,
        WatchError::CannotWatch(p) => "không theo dõi được "@ + p@,
        WatchError::Unavailable(s) => "backend không khả dụng: "@ + s@,
        WatchError::Io(k) => crate::fs::io_kind_text(k),
    }
}

impl WatchError {
    /// The text of the error.
    pub fn message(&self) -> (r: String)
        ensures
            r@ == watch_message(*self),
    {
        match self {
            WatchError::WatchLimit => "chạm giới hạn fs.inotify.max_user_watches; cần tăng sysctl".to_owned(),
            WatchError::CannotWatch(p) => crate::text::concat_str("không theo dõi được ", p.as_str()),
            WatchError::Unavailable(s) => crate::text::concat_str("backend không khả dụng: ", s),
            WatchError::Io(k) => crate::fs::FsError::Io(*k).message(),
        }
    }
}

/// A source of watcher events (inotify, fanotify): runs its receive loop,
/// handing each event to `tx`, until `stop` is set.
pub trait EventSource {
    fn run(self: Box<Self>, tx: &mut dyn crossbeam_sender::Sender<FsEvent>, stop: &AtomicBool) -> Result<(), WatchError>;
}

} // verus!
