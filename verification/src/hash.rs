//! The sparse hash: a sample of a file's contents. It is a filter, never a
//! proof: two files with the same sparse hash are only worth comparing byte
//! by byte. The first and the last chunk are always sampled, since that is
//! where container headers live and where a cut upload shows.

use vstd::prelude::*;

use crate::config::HashCfg;
use crate::digest::{blake3_digest, blake3_hash};
use crate::fs::{FsError, ReadAt};
use crate::model::{le_bytes, le_bytes_of};
use crate::throttle::IoGovernor;

verus! {

/// Version of the formula, stored in the `hash_version` column.
pub const HASH_VERSION: u32 = 1;

/// Error of the sparse hash.
#[derive(Debug, PartialEq, Eq)]
pub enum HashError {
    Io(FsError),
    Stopped,
    ThamSoSai(&'static str),
}

/// Parameters of the formula: `chunks` samples of `chunk_len` bytes. At least
/// two chunks, so that both the first and the last one are taken.
#[derive(Clone, Copy, Debug, PartialEq, Eq)]
pub struct HashParams {
    chunks: u32,
    chunk_len: u64,
}

impl View for HashParams {
    type V = (u32, u64);

    closed spec fn view(&self) -> (u32, u64) {
        (self.chunks, self.chunk_len)
    }
}

impl HashParams {
    #[verifier::type_invariant]
    spec fn wf(self) -> bool {
        self.chunks >= 2 && self.chunk_len > 0
    }

    /// `chunks` = n, `chunk_len` = L; refused when n < 2 or L = 0.
    pub fn new(chunks: u32, chunk_len: u64) -> (r: Result<Self, HashError>)
        ensures
            match r {
                Ok(p) => chunks >= 2 && chunk_len > 0 && p@ == (chunks, chunk_len),
                Err(e) => (chunks < 2 || chunk_len == 0) && e is ThamSoSai,
            },
    {
        if chunks < 2 {
            return Err(HashError::ThamSoSai("chunks phải >= 2 để lấy được cả đầu lẫn cuối"));
        }
        if chunk_len == 0 {
            return Err(HashError::ThamSoSai("chunk_len phải > 0"));
        }
        Ok(HashParams { chunks, chunk_len })
    }

    /// The parameters of the `[hash]` section.
    pub fn from_config(c: &HashCfg) -> (r: Result<Self, HashError>)
        ensures
            match r {
                Ok(p) => c.chunks >= 2 && c.chunk_len.0 > 0 && p@ == (c.chunks, c.chunk_len.0),
                Err(e) => (c.chunks < 2 || c.chunk_len.0 == 0) && e is ThamSoSai,
            },
    {
        Self::new(c.chunks, c.chunk_len.0)
    }

    pub fn chunks(self) -> (r: u32)
        ensures
            r == self@.0,
            r >= 2,
    {
        proof {
            use_type_invariant(&self);
        }
        self.chunks
    }

    pub fn chunk_len(self) -> (r: u64)
        ensures
            r == self@.1,
            r > 0,
    {
        proof {
            use_type_invariant(&self);
        }
        self.chunk_len
    }
}

/// One range to read.
#[derive(Clone, Copy, Debug, PartialEq, Eq, Structural)]
pub struct Doan {
    pub offset: u64,
    pub len: u64,
}

/// `x` rounded down to a multiple of 4 KiB.
pub open spec fn aligned(x: int) -> int {
    x - x % 4096
}

/// Offset of the `i`-th of the first `n - 1` chunks: spread evenly over
/// `[0, span]` (the product saturating like `u64::saturating_mul`), then
/// rounded down to 4 KiB.
pub open spec fn raw_off(n: int, span: int, i: int) -> int {
    let prod = if i * span > u64::MAX {
        u64::MAX as int
    } else {
        i * span
    };
    aligned(prod / (n - 1))
}

/// Appends `d` unless the last range already starts where it does.
pub open spec fn push_dedup(s: Seq<Doan>, d: Doan) -> Seq<Doan> {
    if s.len() > 0 && s.last().offset == d.offset {
        s
    } else {
        s.push(d)
    }
}

/// The first `k` evenly spread chunks, duplicates of offset removed.
pub open spec fn spread(n: int, span: int, l: u64, k: int) -> Seq<Doan>
    decreases k,
{
    if k <= 0 {
        Seq::empty()
    } else {
        push_dedup(spread(n, span, l, k - 1), Doan { offset: raw_off(n, span, k - 1) as u64, len: l })
    }
}

/// The ranges read for a file of `size` bytes: the whole file when it is no
/// larger than `n·L`, else `n − 1` chunks spread from the start and one chunk
/// ending exactly at the end, duplicates of offset removed.
pub open spec fn doans_spec(n: int, l: u64, size: u64) -> Seq<Doan> {
    if size <= n * l {
        seq![Doan { offset: 0, len: size }]
    } else {
        let span = size - l;
        push_dedup(spread(n, span, l, n - 1), Doan { offset: span as u64, len: l })
    }
}

/// The ranges lie inside the file, start at 0, end at `size`, come in
/// strictly increasing order, are never empty, and number at most `n`.
pub open spec fn doans_ok(d: Seq<Doan>, n: int, size: int) -> bool {
    &&& d.len() > 0
    &&& d.len() <= n
    &&& forall|k: int| 0 <= k < d.len() ==> #[trigger] d[k].offset + d[k].len <= size && d[k].len > 0
    &&& forall|a: int, b: int| 0 <= a < b < d.len() ==> d[a].offset < d[b].offset
    &&& d[0].offset == 0
    &&& d.last().offset + d.last().len == size
}

proof fn lemma_aligned(x: u64)
    ensures
        (x & !0xFFFu64) == aligned(x as int),
        aligned(x as int) <= x,
        aligned(x as int) >= 0,
{
    assert((x & !0xFFFu64) == x - x % 4096) by (bit_vector);
}

proof fn lemma_raw_off(n: int, span: int, i: int, j: int)
    requires
        n >= 2,
        0 <= span <= u64::MAX,
        0 <= i <= j <= n - 1,
    ensures
        0 <= raw_off(n, span, i) <= raw_off(n, span, j),
        raw_off(n, span, j) <= span,
        raw_off(n, span, 0) == 0,
{
    let pi = if i * span > u64::MAX {
        u64::MAX as int
    } else {
        i * span
    };
    let pj = if j * span > u64::MAX {
        u64::MAX as int
    } else {
        j * span
    };
    assert(i * span <= j * span) by (nonlinear_arith)
        requires
            0 <= i <= j,
            span >= 0,
    ;
    assert(j * span <= (n - 1) * span) by (nonlinear_arith)
        requires
            0 <= j <= n - 1,
            span >= 0,
    ;
    assert(0 <= pi <= pj);
    assert(pi / (n - 1) <= pj / (n - 1)) by (nonlinear_arith)
        requires
            0 <= pi <= pj,
            n - 1 >= 1,
    ;
    assert(pj / (n - 1) <= span) by (nonlinear_arith)
        requires
            0 <= pj <= (n - 1) * span,
            n - 1 >= 1,
            span >= 0,
    ;
    assert(0 <= pi / (n - 1)) by (nonlinear_arith)
        requires
            0 <= pi,
            n - 1 >= 1,
    ;
    let a = pi / (n - 1);
    let b = pj / (n - 1);
    assert(aligned(a) <= aligned(b)) by (nonlinear_arith)
        requires
            0 <= a <= b,
    {
        assert(a % 4096 >= 0);
    }
    assert(aligned(b) <= b);
    assert(aligned(a) >= 0) by (nonlinear_arith)
        requires
            a >= 0,
    ;
    assert(0 * span == 0);
}

fn aligned_exec(x: u64) -> (r: u64)
    ensures
        r == aligned(x as int),
{
    proof {
        lemma_aligned(x);
    }
    x & !0xFFF
}

/// The ranges to read for a file of `size` bytes.
pub fn cac_doan(p: HashParams, size: u64) -> (r: Vec<Doan>)
    ensures
        r@ == doans_spec(p@.0 as int, p@.1, size),
        size > 0 ==> doans_ok(r@, p@.0 as int, size as int),
{
    proof {
        use_type_invariant(&p);
    }
    let n: u64 = p.chunks as u64;
    let l: u64 = p.chunk_len;
    let total: u64 = match n.checked_mul(l) {
        Some(t) => t,
        None => u64::MAX,
    };
    assert(n * l >= l) by (nonlinear_arith)
        requires
            n >= 2,
            l > 0,
    ;
    assert(size > total ==> size > n * l);
    if size <= total {
        let mut v: Vec<Doan> = Vec::new();
        v.push(Doan { offset: 0, len: size });
        assert(size <= n * l);
        assert(v@ =~= seq![Doan { offset: 0, len: size }]);
        return v;
    }
    let span = size - l;
    let mut out: Vec<Doan> = Vec::new();
    let mut i: u64 = 0;
    while i < n - 1
        invariant
            n >= 2,
            l > 0,
            size > n * l,
            span == size - l,
            i <= n - 1,
            out@ == spread(n as int, span as int, l, i as int),
            out@.len() <= i,
            i > 0 ==> out@.len() > 0 && out@.last().offset == raw_off(n as int, span as int, i - 1),
            i > 0 ==> out@[0].offset == 0,
            forall|k: int| 0 <= k < out@.len() ==> #[trigger] out@[k].len == l && out@[k].offset <= raw_off(n as int, span as int, i - 1),
            forall|a: int, b: int| 0 <= a < b < out@.len() ==> out@[a].offset < out@[b].offset,
        decreases n - 1 - i,
    {
        let prod: u64 = match i.checked_mul(span) {
            Some(x) => x,
            None => u64::MAX,
        };
        let off = aligned_exec(prod / (n - 1));
        proof {
            lemma_raw_off(n as int, span as int, i as int, i as int);
            if i > 0 {
                lemma_raw_off(n as int, span as int, (i - 1) as int, i as int);
            }
        }
        assert(off == raw_off(n as int, span as int, i as int));
        let d = Doan { offset: off, len: l };
        let ghost before = out@;
        if out.len() > 0 && out[out.len() - 1].offset == off {
        } else {
            out.push(d);
            proof {
                assert forall|a: int, b: int| 0 <= a < b < out@.len() implies out@[a].offset < out@[b].offset by {
                    if b == out@.len() - 1 && a < before.len() {
                        assert(out@[a] == before[a]);
                        if i > 0 {
                            assert(before[a].offset <= raw_off(n as int, span as int, i - 1));
                        }
                    }
                }
            }
        }
        proof {
            if i > 0 {
                lemma_raw_off(n as int, span as int, (i - 1) as int, i as int);
            }
            lemma_raw_off(n as int, span as int, 0, i as int);
        }
        i = i + 1;
    }
    proof {
        lemma_raw_off(n as int, span as int, (n - 2) as int, (n - 1) as int);
    }
    let last = Doan { offset: span, len: l };
    let ghost before = out@;
    if out.len() > 0 && out[out.len() - 1].offset == span {
    } else {
        out.push(last);
        proof {
            assert forall|a: int, b: int| 0 <= a < b < out@.len() implies out@[a].offset < out@[b].offset by {
                if b == out@.len() - 1 && a < before.len() {
                    assert(out@[a] == before[a]);
                }
            }
        }
    }
    proof {
        assert(size <= n * l ==> false);
        assert forall|k: int| 0 <= k < out@.len() implies #[trigger] out@[k].offset + out@[k].len <= size && out@[k].len > 0 by {
            if k < before.len() {
                assert(out@[k] == before[k]);
            }
        }
    }
    out
}

/// Little-endian bytes of a `u32`.
pub open spec fn le32(x: u32) -> Seq<u8> {
    le_bytes(x as u64).subrange(0, 4)
}

/// Domain tag of the digest: `NASDEDUP-SPARSE-v1`.
pub open spec fn domain_tag() -> Seq<u8> {
    seq![0x4Eu8, 0x41, 0x53, 0x44, 0x45, 0x44, 0x55, 0x50, 0x2D, 0x53, 0x50, 0x41, 0x52, 0x53, 0x45, 0x2D, 0x76, 0x31]
}

/// What the digest covers before the samples: tag, parameters, size and count.
pub open spec fn hash_header(n: u32, l: u64, size: u64, count: u32) -> Seq<u8> {
    domain_tag() + le32(n) + le_bytes(l) + le_bytes(size) + le32(count)
}

/// The samples: for each range, its offset then its bytes.
pub open spec fn hash_body(d: Seq<Doan>, content: Seq<u8>) -> Seq<u8>
    decreases d.len(),
{
    if d.len() == 0 {
        Seq::empty()
    } else {
        hash_body(d.drop_last(), content) + le_bytes(d.last().offset) + content.subrange(
            d.last().offset as int,
            d.last().offset + d.last().len,
        )
    }
}

fn push_bytes(out: &mut Vec<u8>, b: &Vec<u8>)
    ensures
        final(out)@ == old(out)@ + b@,
{
    let mut i: usize = 0;
    while i < b.len()
        invariant
            i <= b@.len(),
            out@ == old(out)@ + b@.subrange(0, i as int),
        decreases b@.len() - i,
    {
        out.push(b[i]);
        assert(old(out)@ + b@.subrange(0, i + 1) =~= (old(out)@ + b@.subrange(0, i as int)).push(b@[i as int]));
        i = i + 1;
    }
    assert(b@.subrange(0, b@.len() as int) =~= b@);
}

fn le32_of(x: u32) -> (r: Vec<u8>)
    ensures
        r@ == le32(x),
{
    let mut v = le_bytes_of(x as u64);
    v.truncate(4);
    v
}

fn header_bytes(n: u32, l: u64, size: u64, count: u32) -> (r: Vec<u8>)
    ensures
        r@ == hash_header(n, l, size, count),
{
    let mut msg: Vec<u8> = Vec::new();
    let tag: [u8; 18] = [
        0x4E,
        0x41,
        0x53,
        0x44,
        0x45,
        0x44,
        0x55,
        0x50,
        0x2D,
        0x53,
        0x50,
        0x41,
        0x52,
        0x53,
        0x45,
        0x2D,
        0x76,
        0x31,
    ];
    let mut k: usize = 0;
    while k < 18
        invariant
            k <= 18,
            msg@ == tag@.subrange(0, k as int),
        decreases 18 - k,
    {
        msg.push(tag[k]);
        k = k + 1;
    }
    assert(tag@ =~= domain_tag());
    assert(msg@ =~= domain_tag());
    push_bytes(&mut msg, &le32_of(n));
    push_bytes(&mut msg, &le_bytes_of(l));
    push_bytes(&mut msg, &le_bytes_of(size));
    push_bytes(&mut msg, &le32_of(count));
    msg
}

/// The lengths of the ranges, in order: what the governor is asked for.
pub open spec fn range_lens(d: Seq<Doan>) -> Seq<u64> {
    d.map_values(|x: Doan| x.len)
}

/// The sparse hash of an opened file of `size` bytes: BLAKE3 of the header
/// and of every sampled range with its offset. The governor is asked before
/// each read, and a pause stops the hash at once.
pub fn sparse_hash<F: ReadAt, G: IoGovernor>(p: HashParams, f: &F, size: u64, gov: &mut G) -> (r:
    Result<[u8; 32], HashError>)
    ensures
        r matches Ok(h) ==> {
            let d = doans_spec(p@.0 as int, p@.1, size);
            h@ == blake3_digest(hash_header(p@.0, p@.1, size, d.len() as u32) + hash_body(d, f.content()))
        },
        old(gov).keeps_account() ==> final(gov).keeps_account() && final(gov).pausing() == old(gov).pausing(),
        old(gov).keeps_account() ==> (r is Ok ==> final(gov).grants() == old(gov).grants() + range_lens(doans_spec(p@.0 as int, p@.1, size))),
        (old(gov).keeps_account() && old(gov).pausing()) ==> (r == Err::<[u8; 32], HashError>(HashError::Stopped)
            && final(gov).grants() == old(gov).grants().push(doans_spec(p@.0 as int, p@.1, size)[0].len)),
{
    let doans = cac_doan(p, size);
    let ghost d = doans@;
    let count: u32 = if doans.len() <= 4294967295usize {
        doans.len() as u32
    } else {
        4294967295u32
    };
    proof {
        use_type_invariant(&p);
        if size > 0 {
            assert(d.len() <= p@.0);
        } else {
            assert(d.len() == 1);
        }
    }
    let mut msg = header_bytes(p.chunks(), p.chunk_len(), size, count);
    let ghost head = msg@;
    let ghost g0 = old(gov).grants();
    assert(head =~= hash_header(p@.0, p@.1, size, count));
    assert(range_lens(d.subrange(0, 0)) =~= Seq::<u64>::empty());
    assert(g0 + Seq::<u64>::empty() =~= g0);
    let mut i: usize = 0;
    while i < doans.len()
        invariant
            i <= d.len(),
            d.len() >= 1,
            d == doans@,
            d == doans_spec(p@.0 as int, p@.1, size),
            msg@ == head + hash_body(d.subrange(0, i as int), f.content()),
            g0 == old(gov).grants(),
            old(gov).keeps_account() ==> gov.keeps_account() && gov.pausing() == old(gov).pausing()
                && gov.grants() == g0 + range_lens(d.subrange(0, i as int)),
            (old(gov).keeps_account() && old(gov).pausing()) ==> i == 0,
        decreases d.len() - i,
    {
        let seg = doans[i];
        gov.acquire(seg.len);
        proof {
            if old(gov).keeps_account() {
                assert(range_lens(d.subrange(0, i + 1)) =~= range_lens(d.subrange(0, i as int)).push(seg.len));
                assert(g0 + range_lens(d.subrange(0, i + 1)) =~= (g0 + range_lens(d.subrange(0, i as int))).push(seg.len));
            }
        }
        if gov.should_pause() {
            proof {
                if old(gov).keeps_account() && old(gov).pausing() {
                    assert(range_lens(d.subrange(0, 1)) =~= seq![d[0].len]);
                    assert(g0 + seq![d[0].len] =~= g0.push(d[0].len));
                }
            }
            return Err(HashError::Stopped);
        }
        if seg.len > usize::MAX as u64 {
            return Err(HashError::ThamSoSai("chunk_len quá lớn"));
        }
        let mut buf: Vec<u8> = vec![0u8; seg.len as usize];
        match f.read_exact_at(&mut buf, seg.offset) {
            Ok(()) => {},
            Err(e) => {
                return Err(HashError::Io(e));
            },
        }
        push_bytes(&mut msg, &le_bytes_of(seg.offset));
        push_bytes(&mut msg, &buf);
        proof {
            let s = d.subrange(0, i + 1);
            assert(s.drop_last() =~= d.subrange(0, i as int));
            assert(s.last() == seg);
        }
        i = i + 1;
    }
    assert(d.subrange(0, d.len() as int) =~= d);
    Ok(blake3_hash(msg.as_slice()))
}


/// The digest sees only the sampled ranges: two contents that agree on every
/// range give the same samples, whatever lies between the ranges. This is why
/// the hash is a filter and never a proof of equality.
pub proof fn lemma_hash_sees_only_ranges(d: Seq<Doan>, c1: Seq<u8>, c2: Seq<u8>)
    requires
        forall|k: int|
            0 <= k < d.len() ==> c1.subrange(
                #[trigger] d[k].offset as int,
                d[k].offset + d[k].len,
            ) == c2.subrange(d[k].offset as int, d[k].offset + d[k].len),
    ensures
        hash_body(d, c1) == hash_body(d, c2),
    decreases d.len(),
{
    if d.len() > 0 {
        let e = d.drop_last();
        assert forall|k: int| 0 <= k < e.len() implies c1.subrange(
            #[trigger] e[k].offset as int,
            e[k].offset + e[k].len,
        ) == c2.subrange(e[k].offset as int, e[k].offset + e[k].len) by {
            assert(e[k] == d[k]);
        }
        lemma_hash_sees_only_ranges(e, c1, c2);
        assert(d.last() == d[d.len() - 1]);
    }
}

} // verus!
