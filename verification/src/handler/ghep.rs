//! Pairing `IN_MOVED_FROM` with `IN_MOVED_TO` by cookie.
//!
//! The pairing is done here rather than trusting the backend's combined
//! rename event: it remembers a single pending rename, so two interleaved
//! renames lose one pair even though the kernel sent all four halves.

use vstd::prelude::*;

use crate::events::FsEvent;
use crate::model::{FileLoc, Ts};
use crate::repo::memory::watch::sat_sub_i64;

verus! {

/// The rename pairer.
pub struct GhepRename {
    pub cua_so_ms: i64,
    /// Pending `From` halves `(tracker, location, time)`, in order of arrival,
    /// one per tracker.
    pub cho: Vec<(u64, FileLoc, Ts)>,
    /// Trackers paired here, with the time of pairing: the backend's combined
    /// event that follows is then dropped.
    pub da_ghep: Vec<(u64, Ts)>,
}

/// Index of the pending half of `t`, or -1.
pub open spec fn cho_index(c: Seq<(u64, FileLoc, Ts)>, t: u64) -> int
    decreases c.len(),
{
    if c.len() == 0 {
        -1
    } else if cho_index(c.drop_last(), t) >= 0 {
        cho_index(c.drop_last(), t)
    } else if c.last().0 == t {
        c.len() - 1
    } else {
        -1
    }
}

proof fn lemma_cho_index(c: Seq<(u64, FileLoc, Ts)>, t: u64)
    ensures
        -1 <= cho_index(c, t) < c.len(),
        cho_index(c, t) >= 0 ==> c[cho_index(c, t)].0 == t,
        cho_index(c, t) == -1 ==> forall|k: int| 0 <= k < c.len() ==> (#[trigger] c[k]).0 != t,
    decreases c.len(),
{
    if c.len() > 0 {
        lemma_cho_index(c.drop_last(), t);
        if cho_index(c, t) == -1 {
            assert forall|k: int| 0 <= k < c.len() implies (#[trigger] c[k]).0 != t by {
                if k < c.len() - 1 {
                    assert(c[k] == c.drop_last()[k]);
                }
            }
        }
    }
}

fn find_cho(c: &Vec<(u64, FileLoc, Ts)>, t: u64) -> (r: Option<usize>)
    ensures
        match r {
            Some(i) => i == cho_index(c@, t),
            None => cho_index(c@, t) == -1,
        },
{
    let mut i: usize = 0;
    while i < c.len()
        invariant
            i <= c@.len(),
            cho_index(c@.subrange(0, i as int), t) == -1,
        decreases c@.len() - i,
    {
        assert(c@.subrange(0, i + 1).drop_last() =~= c@.subrange(0, i as int));
        if c[i].0 == t {
            proof {
                lemma_cho_index_prefix(c@, t, i + 1);
            }
            return Some(i);
        }
        i = i + 1;
    }
    assert(c@.subrange(0, c@.len() as int) =~= c@);
    None
}

proof fn lemma_cho_index_prefix(c: Seq<(u64, FileLoc, Ts)>, t: u64, n: int)
    requires
        0 <= n <= c.len(),
        cho_index(c.subrange(0, n), t) >= 0,
    ensures
        cho_index(c, t) == cho_index(c.subrange(0, n), t),
    decreases c.len() - n,
{
    if n < c.len() {
        assert(c.subrange(0, n + 1).drop_last() =~= c.subrange(0, n));
        lemma_cho_index_prefix(c, t, n + 1);
    } else {
        assert(c.subrange(0, n) =~= c);
    }
}

/// Index of the pairing of `t`, or -1.
pub open spec fn ghep_index(g: Seq<(u64, Ts)>, t: u64) -> int
    decreases g.len(),
{
    if g.len() == 0 {
        -1
    } else if ghep_index(g.drop_last(), t) >= 0 {
        ghep_index(g.drop_last(), t)
    } else if g.last().0 == t {
        g.len() - 1
    } else {
        -1
    }
}

proof fn lemma_ghep_index(g: Seq<(u64, Ts)>, t: u64)
    ensures
        -1 <= ghep_index(g, t) < g.len(),
    decreases g.len(),
{
    if g.len() > 0 {
        lemma_ghep_index(g.drop_last(), t);
    }
}

proof fn lemma_ghep_index_prefix(g: Seq<(u64, Ts)>, t: u64, n: int)
    requires
        0 <= n <= g.len(),
        ghep_index(g.subrange(0, n), t) >= 0,
    ensures
        ghep_index(g, t) == ghep_index(g.subrange(0, n), t),
    decreases g.len() - n,
{
    if n < g.len() {
        assert(g.subrange(0, n + 1).drop_last() =~= g.subrange(0, n));
        lemma_ghep_index_prefix(g, t, n + 1);
    } else {
        assert(g.subrange(0, n) =~= g);
    }
}

fn find_ghep(g: &Vec<(u64, Ts)>, t: u64) -> (r: Option<usize>)
    ensures
        match r {
            Some(i) => i == ghep_index(g@, t),
            None => ghep_index(g@, t) == -1,
        },
{
    let mut i: usize = 0;
    while i < g.len()
        invariant
            i <= g@.len(),
            ghep_index(g@.subrange(0, i as int), t) == -1,
        decreases g@.len() - i,
    {
        assert(g@.subrange(0, i + 1).drop_last() =~= g@.subrange(0, i as int));
        if g[i].0 == t {
            proof {
                lemma_ghep_index_prefix(g@, t, i + 1);
            }
            return Some(i);
        }
        i = i + 1;
    }
    assert(g@.subrange(0, g@.len() as int) =~= g@);
    None
}


/// The pending half `(t, loc, time)` is past the window at `now`.
pub open spec fn expired_at(e: (u64, FileLoc, Ts), now: Ts, cua_so: i64) -> bool {
    sat_sub_i64(now, e.2) > cua_so
}

pub open spec fn fresh_pred(now: Ts, cua_so: i64) -> spec_fn((u64, FileLoc, Ts)) -> bool {
    |e: (u64, FileLoc, Ts)| !expired_at(e, now, cua_so)
}

pub open spec fn recent_pairing(now: Ts, cua_so: i64) -> spec_fn((u64, Ts)) -> bool {
    |p: (u64, Ts)| sat_sub_i64(now, p.1) <= cua_so
}

/// The `RemovedUnknown` events of the expired halves, in order.
pub open spec fn expired_events(c: Seq<(u64, FileLoc, Ts)>, now: Ts, cua_so: i64) -> Seq<FsEvent>
    decreases c.len(),
{
    if c.len() == 0 {
        Seq::empty()
    } else if expired_at(c.last(), now, cua_so) {
        expired_events(c.drop_last(), now, cua_so).push(FsEvent::RemovedUnknown(c.last().1))
    } else {
        expired_events(c.drop_last(), now, cua_so)
    }
}

/// One `RemovedUnknown` per pending half, in order.
pub open spec fn all_removed(c: Seq<(u64, FileLoc, Ts)>) -> Seq<FsEvent> {
    Seq::new(c.len(), |i: int| FsEvent::RemovedUnknown(c[i].1))
}

impl GhepRename {
    pub fn moi(cua_so_ms: i64) -> (r: Self)
        ensures
            r.cua_so_ms == cua_so_ms,
            r.cho@.len() == 0,
            r.da_ghep@.len() == 0,
    {
        GhepRename { cua_so_ms, cho: Vec::new(), da_ghep: Vec::new() }
    }

    /// Records a `From` half. A second half with the same tracker replaces the
    /// first, keeping its place in the order.
    pub fn nhan_from(&mut self, tracker: u64, loc: FileLoc, now: Ts)
        ensures
            final(self).cua_so_ms == old(self).cua_so_ms,
            final(self).da_ghep == old(self).da_ghep,
            ({
                let k = cho_index(old(self).cho@, tracker);
                if k >= 0 {
                    final(self).cho@ == old(self).cho@.update(k, (tracker, loc, now))
                } else {
                    final(self).cho@ == old(self).cho@.push((tracker, loc, now))
                }
            }),
    {
        proof {
            lemma_cho_index(self.cho@, tracker);
        }
        match find_cho(&self.cho, tracker) {
            Some(k) => {
                self.cho.set(k, (tracker, loc, now));
            },
            None => {
                self.cho.push((tracker, loc, now));
            },
        }
    }

    /// A `From` without a tracker (`MOVE_SELF`: the watched directory itself
    /// moved): nothing to pair with, it leaves at once.
    pub fn nhan_from_khong_tracker(&mut self, loc: FileLoc) -> (r: FsEvent)
        ensures
            r == FsEvent::RemovedUnknown(loc),
            *final(self) == *old(self),
    {
        FsEvent::RemovedUnknown(loc)
    }

    /// Removes the pending half of `tracker`.
    fn bo_cho(&mut self, tracker: u64) -> (r: Option<FileLoc>)
        ensures
            final(self).cua_so_ms == old(self).cua_so_ms,
            final(self).da_ghep == old(self).da_ghep,
            ({
                let k = cho_index(old(self).cho@, tracker);
                if k >= 0 {
                    r == Some(old(self).cho@[k].1) && final(self).cho@ == old(self).cho@.remove(k)
                } else {
                    r is None && final(self).cho@ == old(self).cho@
                }
            }),
    {
        proof {
            lemma_cho_index(self.cho@, tracker);
        }
        match find_cho(&self.cho, tracker) {
            Some(k) => {
                let e = self.cho.remove(k);
                Some(e.1)
            },
            None => None,
        }
    }

    /// A `To` half: with a pending `From` of the same tracker still within
    /// the window, a rename; otherwise a file moved in from outside. An
    /// expired half is never paired: its `RemovedUnknown` was already sent.
    pub fn nhan_to(&mut self, tracker: Option<u64>, loc: FileLoc, now: Ts) -> (r: FsEvent)
        ensures
            final(self).cua_so_ms == old(self).cua_so_ms,
            match tracker {
                None => r == FsEvent::MovedIn(loc) && *final(self) == *old(self),
                Some(t) => {
                    let k = cho_index(old(self).cho@, t);
                    if k >= 0 && !expired_at(old(self).cho@[k], now, old(self).cua_so_ms) {
                        &&& r == (FsEvent::Renamed { from: old(self).cho@[k].1, to: loc })
                        &&& final(self).cho@ == old(self).cho@.remove(k)
                        &&& final(self).da_ghep@ == (if ghep_index(old(self).da_ghep@, t) >= 0 {
                            old(self).da_ghep@.update(ghep_index(old(self).da_ghep@, t), (t, now))
                        } else {
                            old(self).da_ghep@.push((t, now))
                        })
                    } else {
                        r == FsEvent::MovedIn(loc) && *final(self) == *old(self)
                    }
                },
            },
    {
        let t = match tracker {
            Some(t) => t,
            None => {
                return FsEvent::MovedIn(loc);
            },
        };
        proof {
            lemma_cho_index(self.cho@, t);
            lemma_ghep_index(self.da_ghep@, t);
        }
        let k = match find_cho(&self.cho, t) {
            Some(k) => k,
            None => {
                return FsEvent::MovedIn(loc);
            },
        };
        if crate::repo::memory::watch::sat_sub(now, self.cho[k].2) > self.cua_so_ms {
            return FsEvent::MovedIn(loc);
        }
        let e = self.cho.remove(k);
        match find_ghep(&self.da_ghep, t) {
            Some(j) => {
                self.da_ghep.set(j, (t, now));
            },
            None => {
                self.da_ghep.push((t, now));
            },
        }
        FsEvent::Renamed { from: e.1, to: loc }
    }

    /// The backend's combined rename event: dropped when this pair was
    /// already paired here; otherwise a rename (even after the `From` half
    /// expired: only a rename brings the `missing` row back to its path), and
    /// a pending half of the tracker is discarded.
    pub fn nhan_both(&mut self, tracker: Option<u64>, from: FileLoc, to: FileLoc) -> (r: Option<FsEvent>)
        ensures
            final(self).cua_so_ms == old(self).cua_so_ms,
            final(self).da_ghep == old(self).da_ghep,
            match tracker {
                None => r == Some(FsEvent::Renamed { from, to }) && final(self).cho == old(self).cho,
                Some(t) => if ghep_index(old(self).da_ghep@, t) >= 0 {
                    r is None && final(self).cho == old(self).cho
                } else {
                    &&& r == Some(FsEvent::Renamed { from, to })
                    &&& final(self).cho@ == (if cho_index(old(self).cho@, t) >= 0 {
                        old(self).cho@.remove(cho_index(old(self).cho@, t))
                    } else {
                        old(self).cho@
                    })
                },
            },
    {
        match tracker {
            Some(t) => {
                if find_ghep(&self.da_ghep, t).is_some() {
                    return None;
                }
                let _ = self.bo_cho(t);
            },
            None => {},
        }
        Some(FsEvent::Renamed { from, to })
    }

    /// The `From` halves past the window become `RemovedUnknown`, in order of
    /// arrival; pairings older than the window are forgotten.
    pub fn het_han(&mut self, now: Ts) -> (r: Vec<FsEvent>)
        ensures
            final(self).cua_so_ms == old(self).cua_so_ms,
            r@ == expired_events(old(self).cho@, now, old(self).cua_so_ms),
            final(self).cho@ == old(self).cho@.filter(fresh_pred(now, old(self).cua_so_ms)),
            final(self).da_ghep@ == old(self).da_ghep@.filter(recent_pairing(now, old(self).cua_so_ms)),
    {
        let cua_so = self.cua_so_ms;
        let ghost g0 = self.da_ghep@;
        let mut giu_ghep: Vec<(u64, Ts)> = Vec::new();
        let mut i: usize = 0;
        while i < self.da_ghep.len()
            invariant
                self.da_ghep@ == g0,
                i <= g0.len(),
                giu_ghep@ == g0.subrange(0, i as int).filter(recent_pairing(now, cua_so)),
            decreases g0.len() - i,
        {
            proof {
                let pre = g0.subrange(0, i as int);
                pre.lemma_filter_push(g0[i as int], recent_pairing(now, cua_so));
                assert(g0.subrange(0, i + 1) =~= pre.push(g0[i as int]));
            }
            if crate::repo::memory::watch::sat_sub(now, self.da_ghep[i].1) <= cua_so {
                giu_ghep.push(self.da_ghep[i]);
            }
            i = i + 1;
        }
        assert(g0.subrange(0, g0.len() as int) =~= g0);
        self.da_ghep = giu_ghep;
        let ghost c0 = self.cho@;
        let mut ra: Vec<FsEvent> = Vec::new();
        let mut giu: Vec<(u64, FileLoc, Ts)> = Vec::new();
        let mut j: usize = 0;
        while j < self.cho.len()
            invariant
                self.cho@ == c0,
                self.cua_so_ms == cua_so,
                j <= c0.len(),
                ra@ == expired_events(c0.subrange(0, j as int), now, cua_so),
                giu@ == c0.subrange(0, j as int).filter(fresh_pred(now, cua_so)),
            decreases c0.len() - j,
        {
            proof {
                let pre = c0.subrange(0, j as int);
                assert(c0.subrange(0, j + 1).drop_last() =~= pre);
                assert(c0.subrange(0, j + 1).last() == c0[j as int]);
                pre.lemma_filter_push(c0[j as int], fresh_pred(now, cua_so));
                assert(c0.subrange(0, j + 1) =~= pre.push(c0[j as int]));
            }
            let e = &self.cho[j];
            if crate::repo::memory::watch::sat_sub(now, e.2) > cua_so {
                ra.push(FsEvent::RemovedUnknown(e.1.clone()));
            } else {
                giu.push((e.0, e.1.clone(), e.2));
            }
            j = j + 1;
        }
        assert(c0.subrange(0, c0.len() as int) =~= c0);
        self.cho = giu;
        ra
    }

    /// Empties the pairer (at shutdown): every pending half becomes
    /// `RemovedUnknown`, in order.
    pub fn xa_het(&mut self) -> (r: Vec<FsEvent>)
        ensures
            final(self).cua_so_ms == old(self).cua_so_ms,
            final(self).da_ghep == old(self).da_ghep,
            r@ == all_removed(old(self).cho@),
            final(self).cho@.len() == 0,
    {
        let ghost c0 = self.cho@;
        let mut ra: Vec<FsEvent> = Vec::new();
        let mut j: usize = 0;
        while j < self.cho.len()
            invariant
                self.cho@ == c0,
                j <= c0.len(),
                ra@ == all_removed(c0).subrange(0, j as int),
            decreases c0.len() - j,
        {
            ra.push(FsEvent::RemovedUnknown(self.cho[j].1.clone()));
            assert(ra@ =~= all_removed(c0).subrange(0, j + 1));
            j = j + 1;
        }
        assert(all_removed(c0).subrange(0, c0.len() as int) =~= all_removed(c0));
        self.cho = Vec::new();
        ra
    }

    /// Pending `From` halves.
    pub fn so_cho(&self) -> (r: usize)
        ensures
            r == self.cho@.len(),
    {
        self.cho.len()
    }
}

} // verus!
