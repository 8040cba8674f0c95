//! The pure part of scanning: the resume cursor and the decision for each file.

use vstd::prelude::*;

use core::cmp::Ordering;

use crate::model::{Identity, ScanPhase, ScanProgress, State, Ts};
use crate::path::{
    comp_views, components, components_of, order_comp_vecs, order_comps, path_starts_with,
    starts_with_path,
};

verus! {

/// The ordering named by a three-way comparison result.
pub open spec fn ordering_of(x: int) -> Ordering {
    if x < 0 {
        Ordering::Less
    } else if x == 0 {
        Ordering::Equal
    } else {
        Ordering::Greater
    }
}

/// Compares two paths by their components, not as strings: `a` and all of
/// `a/` come before `a-b` in a directory walk, though `'-'` sorts before `'/'`.
pub fn so_duong_dan(a: &str, b: &str) -> (r: Ordering)
    ensures
        r == ordering_of(order_comps(components(a@), components(b@))),
{
    let ca = components_of(a);
    let cb = components_of(b);
    let c = order_comp_vecs(&ca, &cb);
    if c < 0 {
        Ordering::Less
    } else if c == 0 {
        Ordering::Equal
    } else {
        Ordering::Greater
    }
}

/// A whole directory may be skipped when resuming from `cursor` if it lies
/// entirely before it; an ancestor of the cursor must be entered again.
pub open spec fn skip_spec(dir: Seq<char>, cursor: Seq<char>) -> bool {
    order_comps(components(dir), components(cursor)) < 0 && !path_starts_with(cursor, dir)
}

pub fn nen_bo_qua(dir: &str, cursor: &str) -> (r: bool)
    ensures
        r == skip_spec(dir@, cursor@),
{
    let o = so_duong_dan(dir, cursor);
    let before = match o {
        Ordering::Less => true,
        _ => false,
    };
    before && !starts_with_path(cursor, dir)
}

/// The comparison of paths is a total order on their component lists: equal
/// exactly on equal lists, reversed when the arguments are swapped, and
/// transitive.
pub proof fn lemma_so_duong_dan_total_order(a: Seq<char>, b: Seq<char>, c: Seq<char>)
    ensures
        order_comps(components(a), components(b)) == 0 <==> components(a) == components(b),
        order_comps(components(a), components(b)) == -order_comps(components(b), components(a)),
        (order_comps(components(a), components(b)) < 0 && order_comps(components(b), components(c))
            < 0) ==> order_comps(components(a), components(c)) < 0,
{
    crate::path::lemma_order_comps_zero_eq(components(a), components(b));
    crate::path::lemma_order_comps_antisym(components(a), components(b));
    if order_comps(components(a), components(b)) < 0 && order_comps(components(b), components(c))
        < 0 {
        crate::path::lemma_order_comps_trans(components(a), components(b), components(c));
    }
}

/// Initial state of a file found by a scan.
#[derive(Clone, Copy, Debug, PartialEq, Eq, Structural)]
pub struct KhoiDau {
    pub state: State,
    pub ready_at: Option<Ts>,
    pub priority: u8,
}

/// Priority of rows created by a scan: after real-time events (0) and reconcile (1).
pub const PRIORITY_SCAN: u8 = 2;

/// Priority of rows created by delta reconcile and remote scans.
pub const PRIORITY_RECONCILE: u8 = 1;

/// Rust's integer division, rounding toward zero.
pub open spec fn div_trunc(x: int, d: int) -> int {
    if x >= 0 {
        x / d
    } else {
        -((-x) / d)
    }
}

/// An old enough file goes straight to `sized` without a wake-up time (the
/// second phase wakes those that have a same-size peer); a younger one waits
/// in `settling` until exactly the moment it is old enough.
pub open spec fn khoi_dau_spec(id: Identity, now: Ts, settle_delay_ms: i64) -> KhoiDau {
    let mtime_ms = div_trunc(id.mtime_ns as int, 1_000_000);
    if mtime_ms <= now - settle_delay_ms {
        KhoiDau { state: State::Sized, ready_at: None, priority: PRIORITY_SCAN }
    } else {
        KhoiDau {
            state: State::Settling,
            ready_at: Some((mtime_ms + settle_delay_ms) as i64),
            priority: PRIORITY_SCAN,
        }
    }
}

pub fn khoi_dau(id: &Identity, now: Ts, settle_delay_ms: i64) -> (r: KhoiDau)
    requires
        i64::MIN <= now - settle_delay_ms <= i64::MAX,
        i64::MIN <= div_trunc(id.mtime_ns as int, 1_000_000) + settle_delay_ms <= i64::MAX,
    ensures
        r == khoi_dau_spec(*id, now, settle_delay_ms),
{
    let mtime_ms = id.mtime_ns / 1_000_000;
    if mtime_ms <= now - settle_delay_ms {
        KhoiDau { state: State::Sized, ready_at: None, priority: PRIORITY_SCAN }
    } else {
        KhoiDau {
            state: State::Settling,
            ready_at: Some(mtime_ms + settle_delay_ms),
            priority: PRIORITY_SCAN,
        }
    }
}

/// How far the `ctime` threshold of delta reconcile steps back from the start
/// of the previous run.
pub const LUI_NGUONG_MS: i64 = 3_600_000;

/// The `ctime` threshold of delta reconcile: one hour before the start of the
/// previous run, never negative; `0` (look at everything) when it never ran.
pub open spec fn nguong_spec(last_done: Option<Ts>) -> int {
    match last_done {
        None => 0,
        Some(t) => if t - LUI_NGUONG_MS > 0 {
            t - LUI_NGUONG_MS
        } else {
            0
        },
    }
}

pub fn nguong_reconcile(last_done: Option<Ts>) -> (r: Ts)
    ensures
        r == nguong_spec(last_done),
        r >= 0,
{
    match last_done {
        None => 0,
        Some(t) => if t > LUI_NGUONG_MS {
            t - LUI_NGUONG_MS
        } else {
            0
        },
    }
}

/// Whether an entry is recent enough to be compared with the database; by
/// `ctime`, which sync tools cannot preserve, not by `mtime`.
pub fn ctime_sau_nguong(id: &Identity, nguong: Ts) -> (r: bool)
    ensures
        r == (div_trunc(id.ctime_ns as int, 1_000_000) >= nguong),
{
    id.ctime_ns / 1_000_000 >= nguong
}

/// The resume cursor, which moves only to a directory whose files were all
/// committed: `xong_thu_muc` records that the walk finished a directory,
/// `sau_khi_commit` lets the cursor move once the batch is on disk.
#[derive(Debug, Default)]
pub struct ConTro {
    cho_commit: Option<String>,
    an_toan: Option<String>,
}

/// Characters of an optional string.
pub open spec fn opt_view(o: Option<String>) -> Option<Seq<char>> {
    match o {
        Some(s) => Some(s@),
        None => None,
    }
}

impl View for ConTro {
    type V = (Option<Seq<char>>, Option<Seq<char>>);

    /// (directory waiting for a commit, directory safe to record)
    closed spec fn view(&self) -> (Option<Seq<char>>, Option<Seq<char>>) {
        (opt_view(self.cho_commit), opt_view(self.an_toan))
    }
}

impl ConTro {
    pub fn new() -> (r: Self)
        ensures
            r@ == (None::<Seq<char>>, None::<Seq<char>>),
    {
        ConTro { cho_commit: None, an_toan: None }
    }

    /// The walk finished `rel_dir`; nothing may be recorded yet. The root
    /// directory (empty path) is no valid cursor and is ignored.
    pub fn xong_thu_muc(&mut self, rel_dir: &str)
        ensures
            final(self)@ == (if rel_dir@.len() == 0 {
                old(self)@
            } else {
                (Some(rel_dir@), old(self)@.1)
            }),
    {
        if rel_dir.unicode_len() == 0 {
            return;
        }
        self.cho_commit = Some(rel_dir.to_owned());
    }

    /// Called right after a batch commit: the directory that may now be
    /// written to the scan progress, `None` while none is safe.
    pub fn sau_khi_commit(&mut self) -> (r: Option<String>)
        ensures
            final(self)@ == (None::<Seq<char>>, match old(self)@.0 {
                Some(d) => Some(d),
                None => old(self)@.1,
            }),
            opt_view(r) == final(self)@.1,
    {
        match self.cho_commit.take() {
            Some(d) => {
                self.an_toan = Some(d);
            },
            None => {},
        }
        match &self.an_toan {
            Some(d) => Some(d.clone()),
            None => None,
        }
    }

    /// The safe directory, without changing anything.
    pub fn an_toan(&self) -> (r: Option<String>)
        ensures
            opt_view(r) == self@.1,
    {
        match &self.an_toan {
            Some(d) => Some(d.clone()),
            None => None,
        }
    }
}

/// The cursor never moves on a mere report that a directory was walked: it
/// moves only at a commit, and then to the last directory reported before it.
pub proof fn lemma_cursor_waits_for_commit(before: (Option<Seq<char>>, Option<Seq<char>>), d: Seq<char>)
    ensures
        ({
            let after_walk = if d.len() == 0 {
                before
            } else {
                (Some(d), before.1)
            };
            &&& after_walk.1 == before.1
            &&& d.len() > 0 ==> (None::<Seq<char>>, match after_walk.0 {
                Some(x) => Some(x),
                None => after_walk.1,
            }).1 == Some(d)
        }),
{
}

/// A progress row to read, change and write back: the old row when there is
/// one, else a fresh row for `root_id` in phase A.
pub fn tien_do_moi(cu: Option<ScanProgress>, root_id: i64) -> (r: ScanProgress)
    ensures
        match cu {
            Some(p) => r == p,
            None => r == (ScanProgress {
                root_id,
                phase: ScanPhase::A,
                last_completed_dir: None,
                started_at: None,
                finished_at: None,
                last_reconcile_done: None,
                last_presence_scan: None,
            }),
        },
{
    match cu {
        Some(p) => p,
        None => ScanProgress {
            root_id,
            phase: ScanPhase::A,
            last_completed_dir: None,
            started_at: None,
            finished_at: None,
            last_reconcile_done: None,
            last_presence_scan: None,
        },
    }
}

} // verus!
