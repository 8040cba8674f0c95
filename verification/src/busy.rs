//! Detection of a disk kept busy by someone else, with hysteresis on both
//! sides: the daemon yields only after a continuous busy streak of
//! `cua_so_ban_ms`, and resumes only after a continuous idle streak of
//! `cua_so_ranh_ms`.
//!
//! The detector is pure: it takes a classified sample and a timestamp, and
//! never reads the clock or `/proc` itself.

use vstd::prelude::*;

verus! {

/// State of the detector.
#[derive(Clone, Copy, Debug, PartialEq, Eq, Structural)]
pub enum TrangThai {
    /// Work is allowed.
    Chay,
    /// Yielding to someone else.
    TamDung,
}

/// Thresholds and windows, from the `[io]` section.
#[derive(Clone, Copy, Debug, PartialEq, Eq, Structural)]
pub struct Nguong {
    /// Load of others, in percent, from which the disk counts as busy.
    pub ban_pct: u8,
    /// How long the disk must stay busy before pausing, in milliseconds.
    pub cua_so_ban_ms: i64,
    /// Load, in percent, up to which the disk counts as idle.
    pub ranh_pct: u8,
    /// How long the disk must stay idle before resuming, in milliseconds.
    pub cua_so_ranh_ms: i64,
}

/// The detector: thresholds, state, and the start of the current streak of
/// samples past the threshold that matters in that state.
#[derive(Clone, Copy, Debug)]
pub struct BoPhatHien {
    nguong: Nguong,
    trang_thai: TrangThai,
    tu_luc: Option<i64>,
}

/// The abstract detector.
pub struct BusyView {
    pub nguong: Nguong,
    pub trang_thai: TrangThai,
    pub tu_luc: Option<i64>,
}

impl View for BoPhatHien {
    type V = BusyView;

    closed spec fn view(&self) -> BusyView {
        BusyView { nguong: self.nguong, trang_thai: self.trang_thai, tu_luc: self.tu_luc }
    }
}

/// One sample: `vuot_ban` when the load of others reaches the busy threshold,
/// `duoi_ranh` when it is at or below the idle threshold.
pub open spec fn buoc_spec(d: BusyView, vuot_ban: bool, duoi_ranh: bool, now: i64) -> BusyView {
    match d.trang_thai {
        TrangThai::Chay => if vuot_ban {
            let tu = match d.tu_luc {
                Some(t) => t,
                None => now,
            };
            if now - tu >= d.nguong.cua_so_ban_ms {
                BusyView { trang_thai: TrangThai::TamDung, tu_luc: None, ..d }
            } else {
                BusyView { tu_luc: Some(tu), ..d }
            }
        } else {
            BusyView { tu_luc: None, ..d }
        },
        TrangThai::TamDung => if duoi_ranh {
            let tu = match d.tu_luc {
                Some(t) => t,
                None => now,
            };
            if now - tu >= d.nguong.cua_so_ranh_ms {
                BusyView { trang_thai: TrangThai::Chay, tu_luc: None, ..d }
            } else {
                BusyView { tu_luc: Some(tu), ..d }
            }
        } else {
            BusyView { tu_luc: None, ..d }
        },
    }
}

impl BoPhatHien {
    pub fn moi(nguong: Nguong) -> (r: Self)
        ensures
            r@ == (BusyView { nguong, trang_thai: TrangThai::Chay, tu_luc: None }),
    {
        BoPhatHien { nguong, trang_thai: TrangThai::Chay, tu_luc: None }
    }

    pub fn trang_thai(self) -> (r: TrangThai)
        ensures
            r == self@.trang_thai,
    {
        self.trang_thai
    }

    pub fn dang_tam_dung(self) -> (r: bool)
        ensures
            r == (self@.trang_thai == TrangThai::TamDung),
    {
        match self.trang_thai {
            TrangThai::TamDung => true,
            TrangThai::Chay => false,
        }
    }

    pub fn nguong(self) -> (r: Nguong)
        ensures
            r == self@.nguong,
    {
        self.nguong
    }

    /// Feeds one classified sample taken at `now`; returns the state after it.
    pub fn nap_mau(&mut self, vuot_ban: bool, duoi_ranh: bool, now: i64) -> (r: TrangThai)
        ensures
            final(self)@ == buoc_spec(old(self)@, vuot_ban, duoi_ranh, now),
            r == final(self)@.trang_thai,
    {
        match self.trang_thai {
            TrangThai::Chay => {
                if vuot_ban {
                    let tu = match self.tu_luc {
                        Some(t) => t,
                        None => now,
                    };
                    self.tu_luc = Some(tu);
                    if (now as i128) - (tu as i128) >= self.nguong.cua_so_ban_ms as i128 {
                        self.trang_thai = TrangThai::TamDung;
                        self.tu_luc = None;
                    }
                } else {
                    self.tu_luc = None;
                }
            },
            TrangThai::TamDung => {
                if duoi_ranh {
                    let tu = match self.tu_luc {
                        Some(t) => t,
                        None => now,
                    };
                    self.tu_luc = Some(tu);
                    if (now as i128) - (tu as i128) >= self.nguong.cua_so_ranh_ms as i128 {
                        self.trang_thai = TrangThai::Chay;
                        self.tu_luc = None;
                    }
                } else {
                    self.tu_luc = None;
                }
            },
        }
        self.trang_thai
    }
}

/// A sample between the two thresholds never changes the state, and breaks
/// any streak.
pub proof fn lemma_between_thresholds_keeps_state(d: BusyView, now: i64)
    ensures
        buoc_spec(d, false, false, now).trang_thai == d.trang_thai,
        buoc_spec(d, false, false, now).tu_luc is None,
{
}

/// While running, only a busy sample can pause, and only once the streak it
/// ends has lasted the whole busy window; while paused, only an idle sample
/// can resume, once its streak has lasted the whole idle window.
pub proof fn lemma_switch_needs_full_streak(d: BusyView, vuot_ban: bool, duoi_ranh: bool, now: i64)
    ensures
        ({
            let e = buoc_spec(d, vuot_ban, duoi_ranh, now);
            &&& (d.trang_thai == TrangThai::Chay && e.trang_thai == TrangThai::TamDung) ==> vuot_ban
                && now - (match d.tu_luc {
                Some(t) => t,
                None => now,
            }) >= d.nguong.cua_so_ban_ms
            &&& (d.trang_thai == TrangThai::TamDung && e.trang_thai == TrangThai::Chay)
                ==> duoi_ranh && now - (match d.tu_luc {
                Some(t) => t,
                None => now,
            }) >= d.nguong.cua_so_ranh_ms
        }),
{
}

} // verus!
