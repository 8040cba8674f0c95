//! The coalescing buffer of the event thread.
//!
//! Keyed by location, not by file key: a key would need a `statx` per event,
//! fifty thousand of them for one large upload, which is what coalescing
//! avoids.

use vstd::prelude::*;

use crate::events::{event_loc, FsEvent};
use crate::model::{FileLoc, Ts};

verus! {

/// At most this many events of different kinds are kept for one location.
pub const TRAN_MOI_DUONG_DAN: usize = 8;

/// The events kept for one location, and when it was first seen.
pub struct Muc {
    pub loc: FileLoc,
    pub evs: Vec<FsEvent>,
    /// First time the location was seen: the deadline counts from here, or a
    /// file written continuously would push it back forever.
    pub tu: Ts,
}

/// The coalescing buffer.
pub struct Gom {
    pub toi_da: usize,
    pub chu_ky_ms: i64,
    /// The locations in order of first arrival, each once.
    pub muc: Vec<Muc>,
    /// Events tied to no location (`NeedsRescan`): never held back.
    pub khan: Vec<FsEvent>,
    pub so_bo_qua: u64,
}

/// What to do with a new event on a location already held.
#[derive(Debug, PartialEq, Eq, Structural)]
pub enum Cach {
    /// Drop the new event.
    Bo,
    /// Replace the last event.
    De,
    /// Keep both.
    Them,
}

/// A weak event: it only moves `ready_at`.
pub open spec fn la_yeu(e: FsEvent) -> bool {
    e is Modified
}

/// An event that carries what no other event of its location carries (a
/// second path, or a write over a whole range).
pub open spec fn mang_thong_tin_rieng(e: FsEvent) -> bool {
    e is Renamed || e is RenamedDir || e is RemovedDir
}

/// The variant of an event.
pub open spec fn kind_of(e: FsEvent) -> int {
    match e {
        FsEvent::Closed(_) => 0,
        FsEvent::Modified(_) => 1,
        FsEvent::Renamed { .. } => 2,
        FsEvent::MovedIn(_) => 3,
        FsEvent::Removed(_) => 4,
        FsEvent::RemovedUnknown(_) => 5,
        FsEvent::RemovedDir(_) => 6,
        FsEvent::RenamedDir { .. } => 7,
        FsEvent::CreatedDir(_) => 8,
        FsEvent::NeedsRescan { .. } => 9,
    }
}

fn kind_exec(e: &FsEvent) -> (r: u8)
    ensures
        r == kind_of(*e),
{
    match e {
        FsEvent::Closed(_) => 0,
        FsEvent::Modified(_) => 1,
        FsEvent::Renamed { .. } => 2,
        FsEvent::MovedIn(_) => 3,
        FsEvent::Removed(_) => 4,
        FsEvent::RemovedUnknown(_) => 5,
        FsEvent::RemovedDir(_) => 6,
        FsEvent::RenamedDir { .. } => 7,
        FsEvent::CreatedDir(_) => 8,
        FsEvent::NeedsRescan { .. } => 9,
    }
}

/// `moi` may replace `cuoi`: the last one is weak, or both are of one kind
/// and the last one carries nothing of its own.
pub open spec fn co_the_de(cuoi: FsEvent, moi: FsEvent) -> bool {
    la_yeu(cuoi) || (kind_of(cuoi) == kind_of(moi) && !mang_thong_tin_rieng(cuoi))
}

/// Only repeated events of one kind are merged: a weak event never swallows
/// a stronger one, and a stronger one may replace a weak one.
pub open spec fn cach_spec(cu: Seq<FsEvent>, moi: FsEvent) -> Cach {
    if cu.len() == 0 {
        Cach::Them
    } else if la_yeu(moi) && !la_yeu(cu.last()) {
        Cach::Bo
    } else if co_the_de(cu.last(), moi) || cu.len() >= TRAN_MOI_DUONG_DAN {
        Cach::De
    } else {
        Cach::Them
    }
}

pub fn cach(cu: &Vec<FsEvent>, moi: &FsEvent) -> (r: Cach)
    ensures
        r == cach_spec(cu@, *moi),
{
    if cu.len() == 0 {
        return Cach::Them;
    }
    let cuoi = &cu[cu.len() - 1];
    let yeu_moi = match moi {
        FsEvent::Modified(_) => true,
        _ => false,
    };
    let yeu_cuoi = match cuoi {
        FsEvent::Modified(_) => true,
        _ => false,
    };
    if yeu_moi && !yeu_cuoi {
        return Cach::Bo;
    }
    let rieng = match cuoi {
        FsEvent::Renamed { .. } | FsEvent::RenamedDir { .. } | FsEvent::RemovedDir(_) => true,
        _ => false,
    };
    let de = yeu_cuoi || (kind_exec(cuoi) == kind_exec(moi) && !rieng);
    if de || cu.len() >= TRAN_MOI_DUONG_DAN {
        return Cach::De;
    }
    Cach::Them
}

/// The events kept after `c` is applied to `cu`.
pub open spec fn after_cach(cu: Seq<FsEvent>, moi: FsEvent, c: Cach) -> Seq<FsEvent> {
    match c {
        Cach::Bo => cu,
        Cach::De => cu.update(cu.len() - 1, moi),
        Cach::Them => cu.push(moi),
    }
}

/// Index of the entry of location `l`, or -1.
pub open spec fn muc_index(m: Seq<Muc>, l: FileLoc) -> int
    decreases m.len(),
{
    if m.len() == 0 {
        -1
    } else if muc_index(m.drop_last(), l) >= 0 {
        muc_index(m.drop_last(), l)
    } else if m.last().loc@ == l@ {
        m.len() - 1
    } else {
        -1
    }
}

proof fn lemma_muc_index(m: Seq<Muc>, l: FileLoc)
    ensures
        -1 <= muc_index(m, l) < m.len(),
        muc_index(m, l) >= 0 ==> m[muc_index(m, l)].loc@ == l@,
    decreases m.len(),
{
    if m.len() > 0 {
        lemma_muc_index(m.drop_last(), l);
    }
}

proof fn lemma_muc_index_prefix(m: Seq<Muc>, l: FileLoc, n: int)
    requires
        0 <= n <= m.len(),
        muc_index(m.subrange(0, n), l) >= 0,
    ensures
        muc_index(m, l) == muc_index(m.subrange(0, n), l),
    decreases m.len() - n,
{
    if n < m.len() {
        assert(m.subrange(0, n + 1).drop_last() =~= m.subrange(0, n));
        lemma_muc_index_prefix(m, l, n + 1);
    } else {
        assert(m.subrange(0, n) =~= m);
    }
}

fn find_muc(m: &Vec<Muc>, l: &FileLoc) -> (r: Option<usize>)
    ensures
        match r {
            Some(i) => i == muc_index(m@, *l),
            None => muc_index(m@, *l) == -1,
        },
{
    let mut i: usize = 0;
    while i < m.len()
        invariant
            i <= m@.len(),
            muc_index(m@.subrange(0, i as int), *l) == -1,
        decreases m@.len() - i,
    {
        assert(m@.subrange(0, i + 1).drop_last() =~= m@.subrange(0, i as int));
        if m[i].loc.same_as(l) {
            proof {
                lemma_muc_index_prefix(m@, *l, i + 1);
            }
            return Some(i);
        }
        i = i + 1;
    }
    assert(m@.subrange(0, m@.len() as int) =~= m@);
    None
}

/// The events of the entries, in order, each entry's events in order.
pub open spec fn all_events(m: Seq<Muc>) -> Seq<FsEvent>
    decreases m.len(),
{
    if m.len() == 0 {
        Seq::empty()
    } else {
        all_events(m.drop_last()) + m.last().evs@
    }
}

/// The entry has been held for a whole period at `now`.
pub open spec fn is_due(m: Muc, now: Ts, chu_ky: i64) -> bool {
    crate::repo::memory::watch::sat_sub_i64(now, m.tu) >= chu_ky
}

/// The events of the due entries, in order.
pub open spec fn due_events(m: Seq<Muc>, now: Ts, chu_ky: i64) -> Seq<FsEvent>
    decreases m.len(),
{
    if m.len() == 0 {
        Seq::empty()
    } else if is_due(m.last(), now, chu_ky) {
        due_events(m.drop_last(), now, chu_ky) + m.last().evs@
    } else {
        due_events(m.drop_last(), now, chu_ky)
    }
}

pub open spec fn not_due_pred(now: Ts, chu_ky: i64) -> spec_fn(Muc) -> bool {
    |m: Muc| !is_due(m, now, chu_ky)
}


impl Gom {
    /// `toi_da` entries at most before a flush is asked for; an entry waits
    /// `chu_ky_ms` after its first event.
    pub fn moi(toi_da: usize, chu_ky_ms: i64) -> (r: Self)
        ensures
            r.toi_da == toi_da,
            r.chu_ky_ms == chu_ky_ms,
            r.muc@.len() == 0,
            r.khan@.len() == 0,
            r.so_bo_qua == 0,
    {
        Gom { toi_da, chu_ky_ms, muc: Vec::new(), khan: Vec::new(), so_bo_qua: 0 }
    }

    /// A flush is due: an urgent event waits, or the buffer is full.
    pub open spec fn full(&self) -> bool {
        self.khan@.len() > 0 || self.muc@.len() >= self.toi_da
    }

    /// Records an event; `true` when a flush should happen now. Only repeated
    /// events of one kind on one location are merged.
    pub fn nhan(&mut self, ev: FsEvent, now: Ts) -> (r: bool)
        requires
            old(self).so_bo_qua < u64::MAX,
        ensures
            final(self).toi_da == old(self).toi_da,
            final(self).chu_ky_ms == old(self).chu_ky_ms,
            match event_loc(ev) {
                None => {
                    &&& final(self).khan@ == old(self).khan@.push(ev)
                    &&& final(self).muc@ == old(self).muc@
                    &&& final(self).so_bo_qua == old(self).so_bo_qua
                    &&& r
                },
                Some(l) => {
                    let k = muc_index(old(self).muc@, l);
                    &&& final(self).khan@ == old(self).khan@
                    &&& r == final(self).full()
                    &&& if k >= 0 {
                        let c = cach_spec(old(self).muc@[k].evs@, ev);
                        &&& final(self).muc@.len() == old(self).muc@.len()
                        &&& final(self).muc@[k].loc == old(self).muc@[k].loc
                        &&& final(self).muc@[k].tu == old(self).muc@[k].tu
                        &&& final(self).muc@[k].evs@ == after_cach(old(self).muc@[k].evs@, ev, c)
                        &&& forall|j: int| 0 <= j < old(self).muc@.len() && j != k ==> #[trigger] final(self).muc@[j] == old(self).muc@[j]
                        &&& final(self).so_bo_qua == (if c == Cach::Them { old(self).so_bo_qua as int } else { old(self).so_bo_qua + 1 })
                    } else {
                        &&& final(self).muc@.len() == old(self).muc@.len() + 1
                        &&& forall|j: int| 0 <= j < old(self).muc@.len() ==> #[trigger] final(self).muc@[j] == old(self).muc@[j]
                        &&& final(self).muc@.last().loc == l
                        &&& final(self).muc@.last().evs@ == seq![ev]
                        &&& final(self).muc@.last().tu == now
                        &&& final(self).so_bo_qua == old(self).so_bo_qua
                    }
                },
            },
    {
        let loc = match ev.loc() {
            Some(l) => l.clone(),
            None => {
                self.khan.push(ev);
                return true;
            },
        };
        proof {
            lemma_muc_index(self.muc@, loc);
        }
        match find_muc(&self.muc, &loc) {
            Some(k) => {
                let c = cach(&self.muc[k].evs, &ev);
                let gop = c != Cach::Them;
                let mut m = self.muc.remove(k);
                let ghost before = m.evs@;
                match c {
                    Cach::Bo => {},
                    Cach::De => {
                        let n = m.evs.len();
                        m.evs.set(n - 1, ev);
                    },
                    Cach::Them => {
                        m.evs.push(ev);
                    },
                }
                self.muc.insert(k, m);
                if gop {
                    self.so_bo_qua = self.so_bo_qua + 1;
                }
            },
            None => {
                let mut evs: Vec<FsEvent> = Vec::new();
                evs.push(ev);
                self.muc.push(Muc { loc, evs, tu: now });
            },
        }
        self.khan.len() > 0 || self.muc.len() >= self.toi_da
    }

    /// The events due at `now`: the urgent ones, then the events of every
    /// entry held for a whole period, in order of arrival. The other entries
    /// stay, in order.
    pub fn den_han(&mut self, now: Ts) -> (r: Vec<FsEvent>)
        ensures
            r@ == old(self).khan@ + due_events(old(self).muc@, now, old(self).chu_ky_ms),
            final(self).muc@ == old(self).muc@.filter(not_due_pred(now, old(self).chu_ky_ms)),
            final(self).khan@.len() == 0,
            final(self).toi_da == old(self).toi_da,
            final(self).chu_ky_ms == old(self).chu_ky_ms,
            final(self).so_bo_qua == old(self).so_bo_qua,
    {
        let mut ra: Vec<FsEvent> = Vec::new();
        std::mem::swap(&mut ra, &mut self.khan);
        let ghost k0 = ra@;
        let mut cu: Vec<Muc> = Vec::new();
        std::mem::swap(&mut cu, &mut self.muc);
        let ghost m0 = cu@;
        let chu_ky = self.chu_ky_ms;
        let mut giu: Vec<Muc> = Vec::new();
        let mut i: usize = 0;
        let n = cu.len();
        while i < n
            invariant
                n == m0.len(),
                i <= n,
                cu@.len() == n - i,
                cu@ == m0.subrange(i as int, n as int),
                ra@ == k0 + due_events(m0.subrange(0, i as int), now, chu_ky),
                giu@ == m0.subrange(0, i as int).filter(not_due_pred(now, chu_ky)),
            decreases n - i,
        {
            let m = cu.remove(0);
            proof {
                let pre = m0.subrange(0, i as int);
                assert(m0.subrange(0, i + 1).drop_last() =~= pre);
                assert(m0.subrange(0, i + 1).last() == m);
                pre.lemma_filter_push(m, not_due_pred(now, chu_ky));
                assert(m0.subrange(0, i + 1) =~= pre.push(m));
                assert(cu@ =~= m0.subrange(i + 1, n as int));
            }
            if crate::repo::memory::watch::sat_sub(now, m.tu) >= chu_ky {
                let ghost before = ra@;
                let mut j: usize = 0;
                while j < m.evs.len()
                    invariant
                        j <= m.evs@.len(),
                        ra@ == before + m.evs@.subrange(0, j as int),
                    decreases m.evs@.len() - j,
                {
                    ra.push(m.evs[j].clone());
                    assert(ra@ =~= before + m.evs@.subrange(0, j + 1));
                    j = j + 1;
                }
                assert(m.evs@.subrange(0, m.evs@.len() as int) =~= m.evs@);
                assert(ra@ =~= k0 + due_events(m0.subrange(0, i + 1), now, chu_ky));
            } else {
                giu.push(m);
            }
            i = i + 1;
        }
        assert(m0.subrange(0, n as int) =~= m0);
        self.muc = giu;
        ra
    }

    /// Empties the buffer (at shutdown): the urgent events, then every held
    /// event in order of arrival.
    pub fn xa_het(&mut self) -> (r: Vec<FsEvent>)
        ensures
            r@ == old(self).khan@ + all_events(old(self).muc@),
            final(self).muc@.len() == 0,
            final(self).khan@.len() == 0,
            final(self).toi_da == old(self).toi_da,
            final(self).chu_ky_ms == old(self).chu_ky_ms,
            final(self).so_bo_qua == old(self).so_bo_qua,
    {
        let mut ra: Vec<FsEvent> = Vec::new();
        std::mem::swap(&mut ra, &mut self.khan);
        let ghost k0 = ra@;
        let mut cu: Vec<Muc> = Vec::new();
        std::mem::swap(&mut cu, &mut self.muc);
        let ghost m0 = cu@;
        let mut i: usize = 0;
        while i < cu.len()
            invariant
                cu@ == m0,
                i <= m0.len(),
                ra@ == k0 + all_events(m0.subrange(0, i as int)),
            decreases m0.len() - i,
        {
            proof {
                assert(m0.subrange(0, i + 1).drop_last() =~= m0.subrange(0, i as int));
                assert(m0.subrange(0, i + 1).last() == m0[i as int]);
            }
            let ghost before = ra@;
            let mut j: usize = 0;
            while j < cu[i].evs.len()
                invariant
                    cu@ == m0,
                    i < m0.len(),
                    j <= m0[i as int].evs@.len(),
                    ra@ == before + m0[i as int].evs@.subrange(0, j as int),
                decreases m0[i as int].evs@.len() - j,
            {
                ra.push(cu[i].evs[j].clone());
                assert(ra@ =~= before + m0[i as int].evs@.subrange(0, j + 1));
                j = j + 1;
            }
            assert(m0[i as int].evs@.subrange(0, m0[i as int].evs@.len() as int) =~= m0[i as int].evs@);
            assert(ra@ =~= k0 + all_events(m0.subrange(0, i + 1)));
            i = i + 1;
        }
        assert(m0.subrange(0, m0.len() as int) =~= m0);
        ra
    }

    /// Events merged away so far: the `events_dropped` counter.
    pub fn so_bo_qua(&self) -> (r: u64)
        ensures
            r == self.so_bo_qua,
    {
        self.so_bo_qua
    }

    /// Locations held (urgent events not counted).
    pub fn so_muc(&self) -> (r: usize)
        ensures
            r == self.muc@.len(),
    {
        self.muc.len()
    }
}

/// One location never holds more than `TRAN_MOI_DUONG_DAN` events, however
/// many arrive for it.
pub proof fn lemma_gom_khong_phinh(cu: Seq<FsEvent>, moi: FsEvent)
    requires
        cu.len() <= TRAN_MOI_DUONG_DAN,
    ensures
        after_cach(cu, moi, cach_spec(cu, moi)).len() <= TRAN_MOI_DUONG_DAN,
        after_cach(cu, moi, cach_spec(cu, moi)).len() >= 1,
{
}

/// Merging loses nothing below the cap: a modification never replaces a
/// stronger event, and an event is only replaced by a later one of its own
/// kind when it carries nothing of its own (a weak one may be replaced by
/// anything). The events before the last are always kept.
pub proof fn lemma_gom_khong_nuot(cu: Seq<FsEvent>, moi: FsEvent)
    requires
        0 < cu.len() < TRAN_MOI_DUONG_DAN,
    ensures
        (la_yeu(moi) && !la_yeu(cu.last())) ==> after_cach(cu, moi, cach_spec(cu, moi)) == cu,
        cach_spec(cu, moi) == Cach::De ==> (la_yeu(cu.last()) || (kind_of(cu.last()) == kind_of(moi)
            && !mang_thong_tin_rieng(cu.last()))),
        after_cach(cu, moi, cach_spec(cu, moi)).subrange(0, cu.len() - 1) == cu.subrange(0, cu.len() - 1),
{
    let r = after_cach(cu, moi, cach_spec(cu, moi));
    assert(r.subrange(0, cu.len() - 1) =~= cu.subrange(0, cu.len() - 1));
}

} // verus!
