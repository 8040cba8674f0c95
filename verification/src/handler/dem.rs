//! The queue counter, cached for one second.

use vstd::prelude::*;

use crate::model::Ts;
use crate::repo::memory::queue::pending_fold;
use crate::repo::memory::watch::sat_sub_i64;
use crate::repo::{RepoError, Repository};

verus! {

/// How long one count stays valid.
pub const CACHE_DEM_MS: i64 = 1000;

/// One count of the queue, and when it was taken.
#[derive(Debug)]
pub struct Trong {
    pub luc: Ts,
    pub tong: u64,
    pub theo_uid: Vec<(u32, u64)>,
}

/// `pending_counts()` with a one-second cache, plus the rows queued since:
/// a bare cache would let every event of one busy second through on the same
/// stale count. The error can only be an excess, on the side of holding back.
#[derive(Debug)]
pub struct DemHangDoi {
    pub trong: Option<Trong>,
}

/// The count of `uid` in a per-uid list (0 when absent).
pub open spec fn count_of(v: Seq<(u32, u64)>, uid: u32) -> u64
    decreases v.len(),
{
    if v.len() == 0 {
        0
    } else if v[0].0 == uid {
        v[0].1
    } else {
        count_of(v.subrange(1, v.len() as int), uid)
    }
}

/// The cached count is still valid at `now` (a clock that went back
/// invalidates it too).
pub open spec fn still_valid(t: Trong, now: Ts) -> bool {
    now >= t.luc && sat_sub_i64(now, t.luc) < CACHE_DEM_MS
}

fn count_exec(v: &Vec<(u32, u64)>, uid: u32) -> (r: u64)
    ensures
        r == count_of(v@, uid),
{
    let mut i: usize = 0;
    assert(v@.subrange(0, v@.len() as int) =~= v@);
    while i < v.len()
        invariant
            i <= v@.len(),
            count_of(v@, uid) == count_of(v@.subrange(i as int, v@.len() as int), uid),
        decreases v@.len() - i,
    {
        let ghost t = v@.subrange(i as int, v@.len() as int);
        assert(t[0] == v@[i as int]);
        if v[i].0 == uid {
            return v[i].1;
        }
        assert(t.subrange(1, t.len() as int) =~= v@.subrange(i + 1, v@.len() as int));
        i = i + 1;
    }
    0
}

/// One more row for `uid`, saturating.
pub open spec fn bumped(v: Seq<(u32, u64)>, uid: u32) -> Seq<(u32, u64)>
    decreases v.len(),
{
    if v.len() == 0 {
        seq![(uid, 1u64)]
    } else if v[0].0 == uid {
        v.update(0, (uid, if v[0].1 < u64::MAX { (v[0].1 + 1) as u64 } else { u64::MAX }))
    } else {
        seq![v[0]] + bumped(v.subrange(1, v.len() as int), uid)
    }
}

impl DemHangDoi {
    pub fn moi() -> (r: Self)
        ensures
            r.trong is None,
    {
        DemHangDoi { trong: None }
    }

    /// `(total, of uid)` of the settling rows of priority 0, counted again
    /// when the cache is stale.
    pub fn doc<R: Repository>(&mut self, repo: &R, now: Ts, uid: u32) -> (r: Result<(u64, u64), RepoError>)
        ensures
            (old(self).trong matches Some(t) && still_valid(t, now)) ==> *final(self) == *old(self) && r
                == Ok::<(u64, u64), RepoError>((old(self).trong.unwrap().tong, count_of(old(self).trong.unwrap().theo_uid@, uid))),
            !(old(self).trong matches Some(t) && still_valid(t, now)) ==> match r {
                Ok((tong, n)) => final(self).trong matches Some(t) && t.luc == now && t.tong == tong && n == count_of(t.theo_uid@, uid)
                    && tong == pending_fold(repo.files_view()).0 && t.theo_uid@ == pending_fold(repo.files_view()).1,
                Err(_) => *final(self) == *old(self),
            },
    {
        let con_han = match &self.trong {
            Some(t) => now >= t.luc && crate::repo::memory::watch::sat_sub(now, t.luc) < CACHE_DEM_MS,
            None => false,
        };
        if !con_han {
            let (tong, theo_uid) = match repo.pending_counts() {
                Ok(c) => c,
                Err(e) => {
                    return Err(e);
                },
            };
            self.trong = Some(Trong { luc: now, tong, theo_uid });
        }
        match &self.trong {
            Some(t) => Ok((t.tong, count_exec(&t.theo_uid, uid))),
            None => Ok((0, 0)),
        }
    }

    /// Counts a row just queued in the current cache window.
    pub fn them(&mut self, uid: u32)
        ensures
            match old(self).trong {
                None => final(self).trong is None,
                Some(t) => final(self).trong matches Some(n) && n.luc == t.luc && n.tong == (if t.tong < u64::MAX {
                    (t.tong + 1) as u64
                } else {
                    u64::MAX
                }) && n.theo_uid@ == bumped(t.theo_uid@, uid),
            },
    {
        let mut cu: Option<Trong> = None;
        std::mem::swap(&mut cu, &mut self.trong);
        match cu {
            None => {},
            Some(mut t) => {
                t.tong = t.tong.saturating_add(1);
                let ghost v0 = t.theo_uid@;
                let mut i: usize = 0;
                assert(v0.subrange(0, 0) + bumped(v0.subrange(0, v0.len() as int), uid) =~= bumped(v0, uid)) by {
                    assert(v0.subrange(0, v0.len() as int) =~= v0);
                }
                while i < t.theo_uid.len() && t.theo_uid[i].0 != uid
                    invariant
                        t.theo_uid@ == v0,
                        i <= v0.len(),
                        bumped(v0, uid) == v0.subrange(0, i as int) + bumped(v0.subrange(i as int, v0.len() as int), uid),
                    decreases v0.len() - i,
                {
                    proof {
                        let s = v0.subrange(i as int, v0.len() as int);
                        assert(s[0] == v0[i as int]);
                        assert(s.subrange(1, s.len() as int) =~= v0.subrange(i + 1, v0.len() as int));
                        assert(v0.subrange(0, i as int) + (seq![v0[i as int]] + bumped(v0.subrange(i + 1, v0.len() as int), uid))
                            =~= v0.subrange(0, i + 1) + bumped(v0.subrange(i + 1, v0.len() as int), uid));
                    }
                    i = i + 1;
                }
                let ghost s = v0.subrange(i as int, v0.len() as int);
                if i < t.theo_uid.len() {
                    let n = t.theo_uid[i].1.saturating_add(1);
                    proof {
                        assert(s[0] == v0[i as int]);
                        assert(v0.subrange(0, i as int) + s.update(0, (uid, n)) =~= v0.update(i as int, (uid, n)));
                    }
                    t.theo_uid.set(i, (uid, n));
                } else {
                    proof {
                        assert(s.len() == 0);
                        assert(v0.subrange(0, i as int) + seq![(uid, 1u64)] =~= v0.push((uid, 1u64)));
                    }
                    t.theo_uid.push((uid, 1));
                }
                self.trong = Some(t);
            },
        }
    }
}

} // verus!
