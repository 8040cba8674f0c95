//! The scheduler's decision: which periodic jobs are due.
//!
//! Pure and loop-free: it takes "what time is it, when did each job last run"
//! and returns the jobs that are due; the thread that runs them only calls it.

use vstd::prelude::*;

use crate::config::TimingCfg;
use crate::model::Ts;

verus! {

/// One periodic job of the scheduler, in the order in which they are listed.
#[derive(Clone, Copy, Debug, PartialEq, Eq, Structural, PartialOrd, Ord)]
pub enum Viec {
    /// Samples `/proc/diskstats` and feeds the governor.
    LayMauTai,
    /// `PRAGMA wal_checkpoint(TRUNCATE)`.
    Checkpoint,
    /// Deletes old `gone` rows and expired events.
    DonDep,
    /// Delta reconcile of a root.
    Reconcile,
    /// Presence scan of a root.
    Presence,
    /// Rescan of a remote root.
    QuetRemote,
}

pub open spec fn needs_heavy_window(v: Viec) -> bool {
    v == Viec::Presence
}

impl Viec {
    /// Whether the job may run only inside a heavy window: the presence scan
    /// reads the metadata of every file of the library.
    pub fn can_khung_nang(self) -> (r: bool)
        ensures
            r == needs_heavy_window(self),
    {
        match self {
            Viec::Presence => true,
            _ => false,
        }
    }
}

/// When each job last finished; `None` = never.
#[derive(Clone, Copy, Debug, Default, PartialEq, Eq, Structural)]
pub struct LanCuoi {
    pub lay_mau: Option<Ts>,
    pub checkpoint: Option<Ts>,
    pub don_dep: Option<Ts>,
    pub reconcile: Option<Ts>,
    pub presence: Option<Ts>,
    pub quet_remote: Option<Ts>,
}

/// Fixed periods, not taken from the configuration.
pub const CHU_KY_CHECKPOINT_MS: i64 = 3_600_000;

pub const CHU_KY_DON_DEP_MS: i64 = 86_400_000;

/// A job that never ran is due at once; otherwise once its period has passed.
pub open spec fn toi_han(lan: Option<Ts>, chu_ky: i64, now: Ts) -> bool {
    match lan {
        None => true,
        Some(l) => now - l >= chu_ky,
    }
}

pub open spec fn push_if(s: Seq<Viec>, b: bool, v: Viec) -> Seq<Viec> {
    if b {
        s.push(v)
    } else {
        s
    }
}

/// The due jobs, in the order of `Viec`, without those that need a heavy
/// window while outside of one.
pub open spec fn den_han_spec(
    t: &TimingCfg,
    lc: LanCuoi,
    now: Ts,
    trong_khung_nang: bool,
    mau: i64,
) -> Seq<Viec> {
    let s0 = push_if(Seq::empty(), toi_han(lc.lay_mau, mau, now), Viec::LayMauTai);
    let s1 = push_if(s0, toi_han(lc.checkpoint, CHU_KY_CHECKPOINT_MS, now), Viec::Checkpoint);
    let s2 = push_if(s1, toi_han(lc.don_dep, CHU_KY_DON_DEP_MS, now), Viec::DonDep);
    let s3 = push_if(s2, toi_han(lc.reconcile, t.reconcile_interval.0, now), Viec::Reconcile);
    let s4 = push_if(
        s3,
        trong_khung_nang && toi_han(lc.presence, t.presence_interval.0, now),
        Viec::Presence,
    );
    push_if(s4, toi_han(lc.quet_remote, t.remote_scan_interval.0, now), Viec::QuetRemote)
}

fn toi_han_exec(lan: Option<Ts>, chu_ky: i64, now: Ts) -> (r: bool)
    ensures
        r == toi_han(lan, chu_ky, now),
{
    match lan {
        None => true,
        Some(l) => (now as i128) - (l as i128) >= chu_ky as i128,
    }
}

/// The jobs due at `now`. A job that needs a heavy window is left out while
/// outside of one; it stays due, since `LanCuoi` does not change.
pub fn den_han(
    t: &TimingCfg,
    lan_cuoi: &LanCuoi,
    now: Ts,
    trong_khung_nang: bool,
    diskstats_interval_ms: i64,
) -> (r: Vec<Viec>)
    ensures
        r@ == den_han_spec(t, *lan_cuoi, now, trong_khung_nang, diskstats_interval_ms),
{
    let mut out: Vec<Viec> = Vec::new();
    if toi_han_exec(lan_cuoi.lay_mau, diskstats_interval_ms, now) {
        out.push(Viec::LayMauTai);
    }
    if toi_han_exec(lan_cuoi.checkpoint, CHU_KY_CHECKPOINT_MS, now) {
        out.push(Viec::Checkpoint);
    }
    if toi_han_exec(lan_cuoi.don_dep, CHU_KY_DON_DEP_MS, now) {
        out.push(Viec::DonDep);
    }
    if toi_han_exec(lan_cuoi.reconcile, t.reconcile_interval.0, now) {
        out.push(Viec::Reconcile);
    }
    if toi_han_exec(lan_cuoi.presence, t.presence_interval.0, now) && (trong_khung_nang
        || !Viec::Presence.can_khung_nang()) {
        out.push(Viec::Presence);
    }
    if toi_han_exec(lan_cuoi.quet_remote, t.remote_scan_interval.0, now) {
        out.push(Viec::QuetRemote);
    }
    out
}

/// Time left before a job is due: 0 when it never ran or is overdue.
pub open spec fn con_lai(lan: Option<Ts>, chu_ky: i64, now: Ts) -> int {
    match lan {
        None => 0,
        Some(l) => if l + chu_ky - now > 0 {
            l + chu_ky - now
        } else {
            0
        },
    }
}

pub open spec fn min_int(a: int, b: int) -> int {
    if a <= b {
        a
    } else {
        b
    }
}

/// How long the scheduler may sleep: until the nearest due job, at most one
/// minute, so that it still reacts to pause, shutdown and an opening window.
pub open spec fn ngu_spec(t: &TimingCfg, lc: LanCuoi, now: Ts, mau: i64) -> int {
    let m = min_int(
        min_int(
            min_int(con_lai(lc.lay_mau, mau, now), con_lai(lc.checkpoint, CHU_KY_CHECKPOINT_MS, now)),
            min_int(
                con_lai(lc.don_dep, CHU_KY_DON_DEP_MS, now),
                con_lai(lc.reconcile, t.reconcile_interval.0, now),
            ),
        ),
        min_int(
            con_lai(lc.presence, t.presence_interval.0, now),
            con_lai(lc.quet_remote, t.remote_scan_interval.0, now),
        ),
    );
    if m > 60_000 {
        60_000
    } else {
        m
    }
}

fn con_lai_exec(lan: Option<Ts>, chu_ky: i64, now: Ts) -> (r: i128)
    ensures
        r == con_lai(lan, chu_ky, now),
{
    match lan {
        None => 0,
        Some(l) => {
            let d = (l as i128) + (chu_ky as i128) - (now as i128);
            if d > 0 {
                d
            } else {
                0
            }
        },
    }
}

fn min_i128(a: i128, b: i128) -> (r: i128)
    ensures
        r == min_int(a as int, b as int),
{
    if a <= b {
        a
    } else {
        b
    }
}

/// How many milliseconds until a job is due, between 0 and one minute.
pub fn ngu_bao_lau(t: &TimingCfg, lan_cuoi: &LanCuoi, now: Ts, diskstats_interval_ms: i64) -> (r: i64)
    ensures
        r == ngu_spec(t, *lan_cuoi, now, diskstats_interval_ms),
        0 <= r <= 60_000,
{
    let a = con_lai_exec(lan_cuoi.lay_mau, diskstats_interval_ms, now);
    let b = con_lai_exec(lan_cuoi.checkpoint, CHU_KY_CHECKPOINT_MS, now);
    let c = con_lai_exec(lan_cuoi.don_dep, CHU_KY_DON_DEP_MS, now);
    let d = con_lai_exec(lan_cuoi.reconcile, t.reconcile_interval.0, now);
    let e = con_lai_exec(lan_cuoi.presence, t.presence_interval.0, now);
    let f = con_lai_exec(lan_cuoi.quet_remote, t.remote_scan_interval.0, now);
    let m = min_i128(min_i128(min_i128(a, b), min_i128(c, d)), min_i128(e, f));
    if m > 60_000 {
        60_000
    } else {
        m as i64
    }
}

proof fn lemma_push_if_contains(s: Seq<Viec>, b: bool, w: Viec, v: Viec)
    ensures
        push_if(s, b, w).contains(v) <==> (s.contains(v) || (b && w == v)),
{
    if b {
        let t = s.push(w);
        if t.contains(v) {
            let k = choose|k: int| 0 <= k < t.len() && t[k] == v;
            if k < s.len() {
                assert(s[k] == v);
            }
        }
        if s.contains(v) {
            let k = choose|k: int| 0 <= k < s.len() && s[k] == v;
            assert(t[k] == v);
        }
        if w == v {
            assert(t[s.len() as int] == v);
        }
    }
}

/// Whether job `v` is due, and allowed, at `now`.
pub open spec fn viec_due(t: &TimingCfg, lc: LanCuoi, now: Ts, trong_khung_nang: bool, mau: i64, v: Viec) -> bool {
    match v {
        Viec::LayMauTai => toi_han(lc.lay_mau, mau, now),
        Viec::Checkpoint => toi_han(lc.checkpoint, CHU_KY_CHECKPOINT_MS, now),
        Viec::DonDep => toi_han(lc.don_dep, CHU_KY_DON_DEP_MS, now),
        Viec::Reconcile => toi_han(lc.reconcile, t.reconcile_interval.0, now),
        Viec::Presence => trong_khung_nang && toi_han(lc.presence, t.presence_interval.0, now),
        Viec::QuetRemote => toi_han(lc.quet_remote, t.remote_scan_interval.0, now),
    }
}

/// A job is listed exactly when it is due and, for a heavy one, inside a window.
pub proof fn lemma_den_han_lists_due_jobs(
    t: &TimingCfg,
    lc: LanCuoi,
    now: Ts,
    trong_khung_nang: bool,
    mau: i64,
    v: Viec,
)
    ensures
        den_han_spec(t, lc, now, trong_khung_nang, mau).contains(v) <==> viec_due(
            t,
            lc,
            now,
            trong_khung_nang,
            mau,
            v,
        ),
{
    let s0 = push_if(Seq::empty(), toi_han(lc.lay_mau, mau, now), Viec::LayMauTai);
    let s1 = push_if(s0, toi_han(lc.checkpoint, CHU_KY_CHECKPOINT_MS, now), Viec::Checkpoint);
    let s2 = push_if(s1, toi_han(lc.don_dep, CHU_KY_DON_DEP_MS, now), Viec::DonDep);
    let s3 = push_if(s2, toi_han(lc.reconcile, t.reconcile_interval.0, now), Viec::Reconcile);
    let s4 = push_if(
        s3,
        trong_khung_nang && toi_han(lc.presence, t.presence_interval.0, now),
        Viec::Presence,
    );
    lemma_push_if_contains(Seq::empty(), toi_han(lc.lay_mau, mau, now), Viec::LayMauTai, v);
    lemma_push_if_contains(s0, toi_han(lc.checkpoint, CHU_KY_CHECKPOINT_MS, now), Viec::Checkpoint, v);
    lemma_push_if_contains(s1, toi_han(lc.don_dep, CHU_KY_DON_DEP_MS, now), Viec::DonDep, v);
    lemma_push_if_contains(s2, toi_han(lc.reconcile, t.reconcile_interval.0, now), Viec::Reconcile, v);
    lemma_push_if_contains(
        s3,
        trong_khung_nang && toi_han(lc.presence, t.presence_interval.0, now),
        Viec::Presence,
        v,
    );
    lemma_push_if_contains(s4, toi_han(lc.quet_remote, t.remote_scan_interval.0, now), Viec::QuetRemote, v);
}

/// A job held back for want of a heavy window is not lost: the same inputs
/// inside a window list it, and both lists agree on every other job.
pub proof fn lemma_held_job_not_lost(t: &TimingCfg, lc: LanCuoi, now: Ts, mau: i64)
    ensures
        toi_han(lc.presence, t.presence_interval.0, now) ==> den_han_spec(
            t,
            lc,
            now,
            true,
            mau,
        ).contains(Viec::Presence),
        !den_han_spec(t, lc, now, false, mau).contains(Viec::Presence),
        forall|v: Viec|
            v != Viec::Presence ==> (den_han_spec(t, lc, now, true, mau).contains(v)
                <==> den_han_spec(t, lc, now, false, mau).contains(v)),
{
    lemma_den_han_lists_due_jobs(t, lc, now, true, mau, Viec::Presence);
    lemma_den_han_lists_due_jobs(t, lc, now, false, mau, Viec::Presence);
    assert forall|v: Viec| v != Viec::Presence implies (den_han_spec(t, lc, now, true, mau).contains(v)
        <==> den_han_spec(t, lc, now, false, mau).contains(v)) by {
        lemma_den_han_lists_due_jobs(t, lc, now, true, mau, v);
        lemma_den_han_lists_due_jobs(t, lc, now, false, mau, v);
    }
}

} // verus!
