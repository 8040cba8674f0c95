//! The `Deduper` trait and its OS-independent implementations: a dry run
//! that compares bytes without writing, and a no-op for tests. The kernel
//! backends live outside the library.

use vstd::prelude::*;

use crate::fs::{FsError, OpenedFile, ReadAt};
use crate::model::{Errno, JournalState};
use crate::repo::RepoError;
use crate::throttle::IoGovernor;

verus! {

/// Block size of a byte comparison in user space.
pub const COMPARE_BLOCK: usize = 8388608;

/// Result of one dedupe.
#[derive(Clone, Copy, Debug, PartialEq, Eq, Structural)]
pub enum DedupeOutcome {
    /// Same contents; `bytes_shared` bytes are now shared.
    Same { bytes_shared: u64 },
    /// The contents differ at `at_offset`: a false positive of the sparse hash.
    Differs { at_offset: u64 },
}

/// Error of a dedupe.
#[derive(Debug, PartialEq, Eq)]
pub enum DedupeError {
    Errno(Errno),
    /// The kernel reported SAME with 0 bytes.
    NoProgress,
    /// Another process holds the file (lease busy or broken).
    Busy,
    /// The fingerprint changed during the work.
    FingerprintChanged,
    /// Stopped midway (shutdown or pause).
    Stopped,
    Io(FsError),
    Repo(RepoError),
}

/// The text of a dedupe error.
pub open spec fn dedupe_message(e: DedupeError) -> Seq<char> {
    match e {
        DedupeError::Errno(n) => "lỗi hệ thống: errno "@ + crate::config::parse::int_chars(n.0 as int),
        DedupeError::NoProgress => "kernel trả 0 byte với trạng thái SAME"@,
        DedupeError::Busy => "file đang được tiến trình khác giữ (lease bận hoặc bị phá)"@,
        DedupeError::FingerprintChanged => "fingerprint đổi trong lúc xử lý"@,
        DedupeError::Stopped => "dừng giữa chừng (SIGTERM hoặc pause)"@,
        DedupeError::Io(f) => crate::fs::fs_message(f),
        DedupeError::Repo(r) => crate::repo::repo_message(r),
    }
}

impl DedupeError {
    /// The text of the error.
    pub fn message(&self) -> (r: String)
        ensures
            r@ == dedupe_message(*self),
    {
        match self {
            DedupeError::Errno(n) => {
                let m = crate::repo::memory::message_with_number("lỗi hệ thống: errno ", n.0 as i64, "");
                proof {
                    reveal_strlit("");
                    assert(m@ =~= "lỗi hệ thống: errno "@ + crate::config::parse::int_chars(n.0 as int));
                }
                m
            },
            DedupeError::NoProgress => "kernel trả 0 byte với trạng thái SAME".to_owned(),
            DedupeError::Busy => "file đang được tiến trình khác giữ (lease bận hoặc bị phá)".to_owned(),
            DedupeError::FingerprintChanged => "fingerprint đổi trong lúc xử lý".to_owned(),
            DedupeError::Stopped => "dừng giữa chừng (SIGTERM hoặc pause)".to_owned(),
            DedupeError::Io(f) => f.message(),
            DedupeError::Repo(r) => r.message(),
        }
    }
}

/// Records the progress of a multi-step operation in the journal.
pub trait Journal {
    /// Writes a state; `durable` forces a full sync.
    fn record(&mut self, st: JournalState, durable: bool) -> Result<(), RepoError>;

    /// Id of the journal row, `None` before the first write.
    fn id(&self) -> Option<i64>;
}

/// The empty journal, for backends that need none.
#[derive(Debug)]
pub struct NoJournal;

impl Journal for NoJournal {
    fn record(&mut self, st: JournalState, durable: bool) -> (r: Result<(), RepoError>)
        ensures
            r is Ok,
    {
        Ok(())
    }

    fn id(&self) -> (r: Option<i64>)
        ensures
            r is None,
    {
        None
    }
}

/// Shares the extents of two files.
pub trait Deduper {
    /// The backend compares the bytes itself before it answers `Same` (every
    /// backend but the test double that answers `Same` without reading).
    spec fn compares_bytes(&self) -> bool;

    /// Compares `dst` with `src` and, when equal, shares the extents. A
    /// backend that compares bytes answers `Same` only when the first `len`
    /// bytes of both files are equal.
    fn dedupe<F: OpenedFile, G: IoGovernor, J: Journal>(
        &self,
        src: &F,
        dst: &F,
        len: u64,
        gov: &mut G,
        journal: &mut J,
    ) -> (r: Result<DedupeOutcome, DedupeError>)
        ensures
            self.compares_bytes() ==> (r matches Ok(DedupeOutcome::Same { .. }) ==> same_prefix(src.content(), dst.content(), len as int)),
    ;

    /// Name written to `dedup_events.method`.
    fn name(&self) -> &'static str;

    /// The backend writes to the destination (it shares extents).
    spec fn writes_dest(&self) -> bool;

    /// Whether the destination must be opened read-write.
    fn dest_needs_write(&self) -> (r: bool)
        ensures
            r == self.writes_dest(),
    ;

    /// Whether a `Same` means the extents are now shared (`deduped`), rather
    /// than only verified equal (`verified`, report mode). Sharing extents
    /// writes to the destination, which is then opened read-write.
    fn shares_extents(&self) -> (r: bool)
        ensures
            r ==> self.writes_dest(),
    ;
}

/// The first `len` bytes of both contents are equal.
pub open spec fn same_prefix(a: Seq<u8>, b: Seq<u8>, len: int) -> bool {
    len <= a.len() && len <= b.len() && a.subrange(0, len) == b.subrange(0, len)
}

/// `at` is the first offset where the contents differ, below `len`.
pub open spec fn first_difference(a: Seq<u8>, b: Seq<u8>, len: int, at: int) -> bool {
    &&& 0 <= at < len
    &&& at < a.len()
    &&& at < b.len()
    &&& a[at] != b[at]
    &&& forall|k: int| 0 <= k < at ==> a[k] == b[k]
}

/// What a byte comparison of `len` bytes reports.
pub open spec fn compare_result(a: Seq<u8>, b: Seq<u8>, len: int, r: DedupeOutcome) -> bool {
    match r {
        DedupeOutcome::Same { bytes_shared } => bytes_shared == len && same_prefix(a, b, len),
        DedupeOutcome::Differs { at_offset } => first_difference(a, b, len, at_offset as int),
    }
}

/// What the comparison from offset `off` up to `len` asks of the governor:
/// `2 × n` bytes for each block of `n` bytes, in order.
pub open spec fn compare_grants(off: int, len: int) -> Seq<u64>
    decreases len - off,
{
    if off >= len {
        Seq::empty()
    } else {
        let n = if len - off < COMPARE_BLOCK { len - off } else { COMPARE_BLOCK as int };
        seq![(2 * n) as u64] + compare_grants(off + n, len)
    }
}

/// Compares the first `len` bytes of two files block by block through
/// `ReadAt`, asking the governor for `2 × n` bytes before each block of `n`.
/// `Same` means those bytes are equal; `Differs` gives the first offset where
/// they are not.
pub fn compare_bytes<F: OpenedFile, G: IoGovernor>(src: &F, dst: &F, len: u64, gov: &mut G) -> (r:
    Result<DedupeOutcome, DedupeError>)
    ensures
        r matches Ok(o) ==> compare_result(src.content(), dst.content(), len as int, o),
        len == 0 ==> (r matches Ok(o) && o == (DedupeOutcome::Same { bytes_shared: 0 })),
        old(gov).keeps_account() ==> final(gov).keeps_account() && final(gov).pausing() == old(gov).pausing(),
        old(gov).keeps_account() ==> (r matches Ok(DedupeOutcome::Same { .. }) ==> final(gov).grants() == old(gov).grants() + compare_grants(0, len as int)),
        old(gov).keeps_account() ==> (exists|rest: Seq<u64>| #[trigger] (final(gov).grants() + rest) == old(gov).grants() + compare_grants(0, len as int)),
        (old(gov).keeps_account() && old(gov).pausing() && len > 0) ==> (r == Err::<DedupeOutcome, DedupeError>(DedupeError::Stopped)
            && final(gov).grants() == old(gov).grants().push(compare_grants(0, len as int)[0])),
{
    let mut off: u64 = 0;
    let ghost g0 = old(gov).grants();
    assert(src.content().subrange(0, 0) =~= dst.content().subrange(0, 0));
    assert(g0 + Seq::<u64>::empty() =~= g0);
    while off < len
        invariant
            off <= len,
            same_prefix(src.content(), dst.content(), off as int),
            g0 == old(gov).grants(),
            old(gov).keeps_account() ==> gov.keeps_account() && gov.pausing() == old(gov).pausing()
                && gov.grants() + compare_grants(off as int, len as int) == g0 + compare_grants(0, len as int),
            (old(gov).keeps_account() && old(gov).pausing()) ==> off == 0,
        decreases len - off,
    {
        let rest = len - off;
        let n: usize = if rest < COMPARE_BLOCK as u64 {
            rest as usize
        } else {
            COMPARE_BLOCK
        };
        let ghost before = gov.grants();
        gov.acquire(2 * (n as u64));
        proof {
            if old(gov).keeps_account() {
                let tail = compare_grants(off + n, len as int);
                assert(compare_grants(off as int, len as int) == seq![(2 * n) as u64] + tail);
                assert(gov.grants() + tail =~= before + (seq![(2 * n) as u64] + tail));
            }
        }
        if gov.should_pause() {
            proof {
                if old(gov).keeps_account() && old(gov).pausing() {
                    assert(compare_grants(0, len as int)[0] == (2 * n) as u64);
                    assert(before + Seq::<u64>::empty() =~= before);
                    assert(g0 + compare_grants(0, len as int) == before + compare_grants(0, len as int));
                    assert(before =~= g0) by {
                        assert((before + compare_grants(0, len as int)).len() == (g0 + compare_grants(0, len as int)).len());
                        assert forall|k: int| 0 <= k < before.len() implies before[k] == g0[k] by {
                            assert((before + compare_grants(0, len as int))[k] == (g0 + compare_grants(0, len as int))[k]);
                        }
                    }
                }
            }
            return Err(DedupeError::Stopped);
        }
        let mut a: Vec<u8> = vec![0u8; n];
        let mut b: Vec<u8> = vec![0u8; n];
        match src.read_exact_at(&mut a, off) {
            Ok(()) => {},
            Err(e) => {
                return Err(DedupeError::Io(e));
            },
        }
        match dst.read_exact_at(&mut b, off) {
            Ok(()) => {},
            Err(e) => {
                return Err(DedupeError::Io(e));
            },
        }
        let ghost ca = src.content();
        let ghost cb = dst.content();
        let mut i: usize = 0;
        while i < n
            invariant
                i <= n,
                n == a@.len(),
                n == b@.len(),
                off + n <= len,
                ca == src.content(),
                cb == dst.content(),
                same_prefix(ca, cb, off as int),
                a@ == ca.subrange(off as int, off + n),
                b@ == cb.subrange(off as int, off + n),
                off + n <= ca.len(),
                off + n <= cb.len(),
                forall|k: int| 0 <= k < i ==> a@[k] == b@[k],
                g0 == old(gov).grants(),
                old(gov).keeps_account() ==> gov.keeps_account() && gov.pausing() == old(gov).pausing()
                    && gov.grants() + compare_grants(off + n, len as int) == g0 + compare_grants(0, len as int),
                !(old(gov).keeps_account() && old(gov).pausing()),
            decreases n - i,
        {
            if a[i] != b[i] {
                proof {
                    assert(ca[off + i] == a@[i as int]);
                    assert(cb[off + i] == b@[i as int]);
                    assert forall|k: int| 0 <= k < off + i implies ca[k] == cb[k] by {
                        if k < off {
                            assert(ca.subrange(0, off as int)[k] == cb.subrange(0, off as int)[k]);
                        } else {
                            assert(ca[k] == a@[k - off]);
                            assert(cb[k] == b@[k - off]);
                        }
                    }
                }
                return Ok(DedupeOutcome::Differs { at_offset: off + i as u64 });
            }
            i = i + 1;
        }
        proof {
            let m = off + n;
            assert(ca.subrange(0, m as int) =~= cb.subrange(0, m as int)) by {
                assert forall|k: int| 0 <= k < m implies ca.subrange(0, m as int)[k] == cb.subrange(
                    0,
                    m as int,
                )[k] by {
                    if k < off {
                        assert(ca.subrange(0, off as int)[k] == cb.subrange(0, off as int)[k]);
                    } else {
                        assert(ca[k] == a@[k - off]);
                        assert(cb[k] == b@[k - off]);
                    }
                }
            }
        }
        off = off + n as u64;
    }
    proof {
        if old(gov).keeps_account() {
            assert(gov.grants() + Seq::<u64>::empty() =~= gov.grants());
        }
    }
    Ok(DedupeOutcome::Same { bytes_shared: len })
}

/// Compares real bytes but never changes the filesystem: report mode.
#[derive(Debug)]
pub struct DryRunDeduper {
    /// `false`: reads nothing, and the row is parked for want of verification.
    pub verify: bool,
}

impl DryRunDeduper {
    pub fn new(verify: bool) -> (r: Self)
        ensures
            r.verify == verify,
    {
        DryRunDeduper { verify }
    }
}

impl Deduper for DryRunDeduper {
    open spec fn compares_bytes(&self) -> bool {
        true
    }

    open spec fn writes_dest(&self) -> bool {
        false
    }

    fn dedupe<F: OpenedFile, G: IoGovernor, J: Journal>(
        &self,
        src: &F,
        dst: &F,
        len: u64,
        gov: &mut G,
        journal: &mut J,
    ) -> (r: Result<DedupeOutcome, DedupeError>)
        ensures
            !self.verify ==> r == Err::<DedupeOutcome, DedupeError>(DedupeError::Stopped),
            self.verify ==> (r matches Ok(o) ==> compare_result(
                src.content(),
                dst.content(),
                len as int,
                o,
            )),
            (self.verify && old(gov).keeps_account()) ==> (r matches Ok(DedupeOutcome::Same { .. }) ==> final(gov).grants() == old(gov).grants() + compare_grants(0, len as int)),
            (self.verify && old(gov).keeps_account() && old(gov).pausing() && len > 0) ==> r == Err::<DedupeOutcome, DedupeError>(DedupeError::Stopped)
                && final(gov).grants() == old(gov).grants().push(compare_grants(0, len as int)[0]),
            !self.verify ==> *final(gov) == *old(gov),
    {
        if !self.verify {
            return Err(DedupeError::Stopped);
        }
        compare_bytes(src, dst, len, gov)
    }

    fn name(&self) -> (r: &'static str)
        ensures
            r@ == "dry_run"@,
    {
        "dry_run"
    }

    fn dest_needs_write(&self) -> (r: bool)
        ensures
            !r,
    {
        false
    }

    fn shares_extents(&self) -> (r: bool)
        ensures
            !r,
    {
        false
    }
}

/// Always reports `Same` without reading anything; for tests only.
#[derive(Debug)]
pub struct NoopDeduper;

impl Deduper for NoopDeduper {
    open spec fn compares_bytes(&self) -> bool {
        false
    }

    open spec fn writes_dest(&self) -> bool {
        false
    }

    fn dedupe<F: OpenedFile, G: IoGovernor, J: Journal>(
        &self,
        src: &F,
        dst: &F,
        len: u64,
        gov: &mut G,
        journal: &mut J,
    ) -> (r: Result<DedupeOutcome, DedupeError>)
        ensures
            r == Ok::<DedupeOutcome, DedupeError>(DedupeOutcome::Same { bytes_shared: len }),
    {
        Ok(DedupeOutcome::Same { bytes_shared: len })
    }

    fn name(&self) -> (r: &'static str)
        ensures
            r@ == "dry_run"@,
    {
        "dry_run"
    }

    fn dest_needs_write(&self) -> (r: bool)
        ensures
            !r,
    {
        false
    }

    fn shares_extents(&self) -> (r: bool)
        ensures
            !r,
    {
        false
    }
}

} // verus!
