//! Magic bytes of video formats. The aim is not to identify formats exactly
//! but to drop quickly what carries a video extension without being one: a
//! misnamed file, a broken download, the zero fill of a cut upload. Unknown
//! extensions always pass.

use vstd::prelude::*;

use crate::fs::{FsError, ReadAt};
use crate::text::{chars_of, lower_char, lower_seq};

verus! {

/// Bytes read for most formats.
pub const DAU_DOC: usize = 8192;

/// MXF: its key may lie deeper in the header.
pub const DAU_DOC_MXF: usize = 65536;

/// Result of the magic check.
#[derive(Clone, Copy, Debug, PartialEq, Eq, Structural)]
pub enum MagicVerdict {
    /// The header matches the extension's format.
    Hop,
    /// It does not: the file is not what its extension claims.
    Sai,
    /// No stable magic for this format (`r3d`, `braw`, unknown): passes.
    KhongKiem,
}

impl MagicVerdict {
    /// Whether the file goes on in the pipeline.
    pub fn cho_qua(self) -> (r: bool)
        ensures
            r == (self != MagicVerdict::Sai),
    {
        match self {
            MagicVerdict::Sai => false,
            _ => true,
        }
    }
}

fn lower_of(s: &str) -> (r: Vec<char>)
    ensures
        r@ == lower_seq(s@),
{
    let v = chars_of(s);
    let mut l: Vec<char> = Vec::new();
    let mut i: usize = 0;
    while i < v.len()
        invariant
            i <= v@.len(),
            v@ == s@,
            l@ == lower_seq(v@.subrange(0, i as int)),
        decreases v@.len() - i,
    {
        l.push(lower_char(v[i]));
        assert(lower_seq(v@.subrange(0, i + 1)) =~= lower_seq(v@.subrange(0, i as int)).push(
            crate::text::ascii_lower(v@[i as int]),
        ));
        i = i + 1;
    }
    assert(v@.subrange(0, v@.len() as int) =~= v@);
    l
}

fn is_one_of(v: &Vec<char>, lit: &str) -> (r: bool)
    ensures
        r == (v@ == lit@),
{
    let w = chars_of(lit);
    crate::text::seq_eq(v, &w)
}

/// Bytes to read for an extension.
pub open spec fn bytes_needed(ext: Seq<char>) -> int {
    if lower_seq(ext) == "mxf"@ {
        DAU_DOC_MXF as int
    } else {
        DAU_DOC as int
    }
}

pub fn so_byte_can_doc(ext: &str) -> (r: usize)
    ensures
        r == bytes_needed(ext@),
{
    let l = lower_of(ext);
    if is_one_of(&l, "mxf") {
        DAU_DOC_MXF
    } else {
        DAU_DOC
    }
}

/// `buf[off..off + mau.len()]` is exactly `mau`.
pub open spec fn bytes_at(buf: Seq<u8>, off: int, mau: Seq<u8>) -> bool {
    off + mau.len() <= buf.len() && buf.subrange(off, off + mau.len()) == mau
}

fn bytes_at_exec(buf: &[u8], off: usize, mau: &[u8]) -> (r: bool)
    ensures
        r == bytes_at(buf@, off as int, mau@),
{
    if off > buf.len() || mau.len() > buf.len() - off {
        return false;
    }
    let mut i: usize = 0;
    while i < mau.len()
        invariant
            off + mau.len() <= buf.len(),
            i <= mau@.len(),
            forall|k: int| 0 <= k < i ==> buf@[off + k] == mau@[k],
        decreases mau@.len() - i,
    {
        if buf[off + i] != mau[i] {
            assert(buf@.subrange(off as int, off + mau@.len())[i as int] != mau@[i as int]);
            return false;
        }
        i = i + 1;
    }
    assert(buf@.subrange(off as int, off + mau@.len()) =~= mau@);
    true
}

pub open spec fn verdict_of(b: bool) -> MagicVerdict {
    if b {
        MagicVerdict::Hop
    } else {
        MagicVerdict::Sai
    }
}

pub open spec fn ebml() -> Seq<u8> {
    seq![0x1Au8, 0x45, 0xDF, 0xA3]
}

pub open spec fn mpeg_ps() -> Seq<u8> {
    seq![0x00u8, 0x00, 0x01, 0xBA]
}

pub open spec fn asf_guid() -> Seq<u8> {
    seq![0x30u8, 0x26, 0xB2, 0x75, 0x8E, 0x66, 0xCF, 0x11]
}

pub open spec fn mxf_key() -> Seq<u8> {
    seq![0x06u8, 0x0E, 0x2B, 0x34, 0x02, 0x05, 0x01, 0x01, 0x0D, 0x01, 0x02]
}

/// The first box types of an ISO base media file: `ftyp`, `moov`, `mdat`,
/// `wide`, `free`, `skip`, `pnot`.
pub open spec fn iso_box(k: Seq<u8>) -> bool {
    k == seq![0x66u8, 0x74, 0x79, 0x70] || k == seq![0x6Du8, 0x6F, 0x6F, 0x76] || k == seq![
        0x6Du8,
        0x64,
        0x61,
        0x74,
    ] || k == seq![0x77u8, 0x69, 0x64, 0x65] || k == seq![0x66u8, 0x72, 0x65, 0x65] || k
        == seq![0x73u8, 0x6B, 0x69, 0x70] || k == seq![0x70u8, 0x6E, 0x6F, 0x74]
}

/// ISO base media (mp4, mov...): a 4-byte box size, then a known box type.
pub open spec fn isobmff_spec(buf: Seq<u8>) -> bool {
    buf.len() >= 8 && iso_box(buf.subrange(4, 8))
}

/// A RIFF container of type `AVI `.
pub open spec fn avi_spec(buf: Seq<u8>) -> bool {
    bytes_at(buf, 0, seq![0x52u8, 0x49, 0x46, 0x46]) && bytes_at(buf, 8, seq![0x41u8, 0x56, 0x49, 0x20])
}

/// The sync byte `0x47` at packet `i` of 188 bytes from offset `dau`.
pub open spec fn ts_at(buf: Seq<u8>, dau: int, i: int) -> bool {
    dau + i * 188 < buf.len() && buf[dau + i * 188] == 0x47
}

/// MPEG-TS: the sync byte at four consecutive packets of 188 bytes, from
/// offset `dau` (4 for BDAV, whose packets carry a timestamp first).
pub open spec fn ts_spec(buf: Seq<u8>, dau: int) -> bool {
    ts_at(buf, dau, 0) && ts_at(buf, dau, 1) && ts_at(buf, dau, 2) && ts_at(buf, dau, 3)
}

/// MXF: the SMPTE partition key anywhere in the header.
pub open spec fn mxf_spec(buf: Seq<u8>) -> bool {
    exists|i: int| 0 <= i && #[trigger] bytes_at(buf, i, mxf_key())
}

/// The verdict for the header `buf` of a file with extension `ext`.
pub open spec fn header_spec(ext: Seq<char>, buf: Seq<u8>) -> MagicVerdict {
    let e = lower_seq(ext);
    if e == "mp4"@ || e == "m4v"@ || e == "mov"@ || e == "3gp"@ || e == "insv"@ {
        verdict_of(isobmff_spec(buf))
    } else if e == "mkv"@ || e == "webm"@ {
        verdict_of(bytes_at(buf, 0, ebml()))
    } else if e == "avi"@ {
        verdict_of(avi_spec(buf))
    } else if e == "ts"@ {
        verdict_of(ts_spec(buf, 0))
    } else if e == "mts"@ || e == "m2ts"@ {
        verdict_of(ts_spec(buf, 4))
    } else if e == "mpg"@ || e == "mpeg"@ || e == "vob"@ {
        verdict_of(bytes_at(buf, 0, mpeg_ps()))
    } else if e == "wmv"@ {
        verdict_of(bytes_at(buf, 0, asf_guid()))
    } else if e == "mxf"@ {
        verdict_of(mxf_spec(buf))
    } else {
        MagicVerdict::KhongKiem
    }
}

fn isobmff(buf: &[u8]) -> (r: bool)
    ensures
        r == isobmff_spec(buf@),
{
    if buf.len() < 8 {
        return false;
    }
    let kinds: [[u8; 4]; 7] = [
        [0x66, 0x74, 0x79, 0x70],
        [0x6D, 0x6F, 0x6F, 0x76],
        [0x6D, 0x64, 0x61, 0x74],
        [0x77, 0x69, 0x64, 0x65],
        [0x66, 0x72, 0x65, 0x65],
        [0x73, 0x6B, 0x69, 0x70],
        [0x70, 0x6E, 0x6F, 0x74],
    ];
    proof {
        assert(kinds[0]@ =~= seq![0x66u8, 0x74, 0x79, 0x70]);
        assert(kinds[1]@ =~= seq![0x6Du8, 0x6F, 0x6F, 0x76]);
        assert(kinds[2]@ =~= seq![0x6Du8, 0x64, 0x61, 0x74]);
        assert(kinds[3]@ =~= seq![0x77u8, 0x69, 0x64, 0x65]);
        assert(kinds[4]@ =~= seq![0x66u8, 0x72, 0x65, 0x65]);
        assert(kinds[5]@ =~= seq![0x73u8, 0x6B, 0x69, 0x70]);
        assert(kinds[6]@ =~= seq![0x70u8, 0x6E, 0x6F, 0x74]);
    }
    assert(iso_box(buf@.subrange(4, 8)) <==> (exists|k: int| 0 <= k < 7 && buf@.subrange(4, 8) == kinds[k]@)) by {
        if iso_box(buf@.subrange(4, 8)) {
            let b = buf@.subrange(4, 8);
            if b == kinds[0]@ { assert(b == kinds[0]@); }
            else if b == kinds[1]@ { assert(b == kinds[1]@); }
            else if b == kinds[2]@ { assert(b == kinds[2]@); }
            else if b == kinds[3]@ { assert(b == kinds[3]@); }
            else if b == kinds[4]@ { assert(b == kinds[4]@); }
            else if b == kinds[5]@ { assert(b == kinds[5]@); }
            else { assert(b == kinds[6]@); }
        }
    }
    let mut i: usize = 0;
    while i < 7
        invariant
            i <= 7,
            buf@.len() >= 8,
            forall|k: int| 0 <= k < i ==> buf@.subrange(4, 8) != kinds[k]@,
            iso_box(buf@.subrange(4, 8)) <==> (exists|k: int| 0 <= k < 7 && buf@.subrange(4, 8) == kinds[k]@),
        decreases 7 - i,
    {
        if bytes_at_exec(buf, 4, &kinds[i]) {
            assert(buf@.subrange(4, 8) == kinds[i as int]@);
            return true;
        }
        i = i + 1;
    }
    false
}

fn ts_at_exec(buf: &[u8], at: usize) -> (r: bool)
    ensures
        r == (at < buf@.len() && buf@[at as int] == 0x47),
{
    at < buf.len() && buf[at] == 0x47
}

fn ts_check(buf: &[u8], dau: usize) -> (r: bool)
    requires
        dau <= 4,
    ensures
        r == ts_spec(buf@, dau as int),
{
    ts_at_exec(buf, dau) && ts_at_exec(buf, dau + 188) && ts_at_exec(buf, dau + 376)
        && ts_at_exec(buf, dau + 564)
}

fn mxf_check(buf: &[u8]) -> (r: bool)
    ensures
        r == mxf_spec(buf@),
{
    let key: [u8; 11] = [0x06, 0x0E, 0x2B, 0x34, 0x02, 0x05, 0x01, 0x01, 0x0D, 0x01, 0x02];
    assert(key@ =~= mxf_key());
    let mut i: usize = 0;
    while buf.len() >= 11 && i <= buf.len() - 11
        invariant
            key@ == mxf_key(),
            forall|k: int| 0 <= k < i ==> !bytes_at(buf@, k, mxf_key()),
        decreases buf@.len() - i,
    {
        if bytes_at_exec(buf, i, &key) {
            return true;
        }
        i = i + 1;
    }
    assert forall|k: int| 0 <= k implies !#[trigger] bytes_at(buf@, k, mxf_key()) by {
        if k >= i {
            assert(k + 11 > buf@.len());
        }
    }
    false
}

/// Checks a header already read; `ext` is the extension without its dot,
/// in any case.
pub fn kiem_header(ext: &str, buf: &[u8]) -> (r: MagicVerdict)
    ensures
        r == header_spec(ext@, buf@),
{
    let e = lower_of(ext);
    if is_one_of(&e, "mp4") || is_one_of(&e, "m4v") || is_one_of(&e, "mov") || is_one_of(&e, "3gp")
        || is_one_of(&e, "insv") {
        if isobmff(buf) {
            MagicVerdict::Hop
        } else {
            MagicVerdict::Sai
        }
    } else if is_one_of(&e, "mkv") || is_one_of(&e, "webm") {
        let m: [u8; 4] = [0x1A, 0x45, 0xDF, 0xA3];
        assert(m@ =~= ebml());
        if bytes_at_exec(buf, 0, &m) {
            MagicVerdict::Hop
        } else {
            MagicVerdict::Sai
        }
    } else if is_one_of(&e, "avi") {
        let riff: [u8; 4] = [0x52, 0x49, 0x46, 0x46];
        let kind: [u8; 4] = [0x41, 0x56, 0x49, 0x20];
        assert(riff@ =~= seq![0x52u8, 0x49, 0x46, 0x46]);
        assert(kind@ =~= seq![0x41u8, 0x56, 0x49, 0x20]);
        if bytes_at_exec(buf, 0, &riff) && bytes_at_exec(buf, 8, &kind) {
            MagicVerdict::Hop
        } else {
            MagicVerdict::Sai
        }
    } else if is_one_of(&e, "ts") {
        if ts_check(buf, 0) {
            MagicVerdict::Hop
        } else {
            MagicVerdict::Sai
        }
    } else if is_one_of(&e, "mts") || is_one_of(&e, "m2ts") {
        if ts_check(buf, 4) {
            MagicVerdict::Hop
        } else {
            MagicVerdict::Sai
        }
    } else if is_one_of(&e, "mpg") || is_one_of(&e, "mpeg") || is_one_of(&e, "vob") {
        let m: [u8; 4] = [0x00, 0x00, 0x01, 0xBA];
        assert(m@ =~= mpeg_ps());
        if bytes_at_exec(buf, 0, &m) {
            MagicVerdict::Hop
        } else {
            MagicVerdict::Sai
        }
    } else if is_one_of(&e, "wmv") {
        let m: [u8; 8] = [0x30, 0x26, 0xB2, 0x75, 0x8E, 0x66, 0xCF, 0x11];
        assert(m@ =~= asf_guid());
        if bytes_at_exec(buf, 0, &m) {
            MagicVerdict::Hop
        } else {
            MagicVerdict::Sai
        }
    } else if is_one_of(&e, "mxf") {
        if mxf_check(buf) {
            MagicVerdict::Hop
        } else {
            MagicVerdict::Sai
        }
    } else {
        MagicVerdict::KhongKiem
    }
}

/// Reads the header through `ReadAt` (up to the end of a shorter file) and
/// checks it. Whatever bytes the file gives back, the verdict is that of a
/// header of that many bytes.
pub fn kiem_file<F: ReadAt>(ext: &str, f: &F) -> (r: Result<MagicVerdict, FsError>)
    ensures
        r is Ok ==> exists|b: Seq<u8>|
            b.len() <= bytes_needed(ext@) && r == Ok::<MagicVerdict, FsError>(
                #[trigger] header_spec(ext@, b),
            ),
{
    let can = so_byte_can_doc(ext);
    let len = f.len();
    let n: usize = if len < can as u64 {
        len as usize
    } else {
        can
    };
    let mut buf: Vec<u8> = Vec::new();
    let mut i: usize = 0;
    while i < n
        invariant
            i <= n,
            buf@.len() == i,
        decreases n - i,
    {
        buf.push(0);
        i = i + 1;
    }
    f.read_exact_at(&mut buf, 0)?;
    let v = kiem_header(ext, buf.as_slice());
    assert(buf@.len() <= bytes_needed(ext@));
    Ok(v)
}


proof fn reveal_ext_names()
    ensures
        "mp4"@.len() == 3,
        "mp4"@[0] == 'm',
        "mp4"@[1] == 'p',
        "mp4"@[2] == '4',
        "m4v"@.len() == 3,
        "m4v"@[0] == 'm',
        "m4v"@[1] == '4',
        "m4v"@[2] == 'v',
        "mov"@.len() == 3,
        "mov"@[0] == 'm',
        "mov"@[1] == 'o',
        "mov"@[2] == 'v',
        "3gp"@.len() == 3,
        "3gp"@[0] == '3',
        "3gp"@[1] == 'g',
        "3gp"@[2] == 'p',
        "insv"@.len() == 4,
        "insv"@[0] == 'i',
        "insv"@[1] == 'n',
        "insv"@[2] == 's',
        "insv"@[3] == 'v',
        "mkv"@.len() == 3,
        "mkv"@[0] == 'm',
        "mkv"@[1] == 'k',
        "mkv"@[2] == 'v',
        "webm"@.len() == 4,
        "webm"@[0] == 'w',
        "webm"@[1] == 'e',
        "webm"@[2] == 'b',
        "webm"@[3] == 'm',
        "avi"@.len() == 3,
        "avi"@[0] == 'a',
        "avi"@[1] == 'v',
        "avi"@[2] == 'i',
        "ts"@.len() == 2,
        "ts"@[0] == 't',
        "ts"@[1] == 's',
        "mts"@.len() == 3,
        "mts"@[0] == 'm',
        "mts"@[1] == 't',
        "mts"@[2] == 's',
        "m2ts"@.len() == 4,
        "m2ts"@[0] == 'm',
        "m2ts"@[1] == '2',
        "m2ts"@[2] == 't',
        "m2ts"@[3] == 's',
        "mpg"@.len() == 3,
        "mpg"@[0] == 'm',
        "mpg"@[1] == 'p',
        "mpg"@[2] == 'g',
        "mpeg"@.len() == 4,
        "mpeg"@[0] == 'm',
        "mpeg"@[1] == 'p',
        "mpeg"@[2] == 'e',
        "mpeg"@[3] == 'g',
        "vob"@.len() == 3,
        "vob"@[0] == 'v',
        "vob"@[1] == 'o',
        "vob"@[2] == 'b',
        "wmv"@.len() == 3,
        "wmv"@[0] == 'w',
        "wmv"@[1] == 'm',
        "wmv"@[2] == 'v',
        "mxf"@.len() == 3,
        "mxf"@[0] == 'm',
        "mxf"@[1] == 'x',
        "mxf"@[2] == 'f',
{
    reveal_strlit("mp4");
    reveal_strlit("m4v");
    reveal_strlit("mov");
    reveal_strlit("3gp");
    reveal_strlit("insv");
    reveal_strlit("mkv");
    reveal_strlit("webm");
    reveal_strlit("avi");
    reveal_strlit("ts");
    reveal_strlit("mts");
    reveal_strlit("m2ts");
    reveal_strlit("mpg");
    reveal_strlit("mpeg");
    reveal_strlit("vob");
    reveal_strlit("wmv");
    reveal_strlit("mxf");
}

/// `buf` holds the bytes `m` at offset `off`, byte by byte.
proof fn lemma_bytes_at_each(buf: Seq<u8>, off: int, m: Seq<u8>)
    requires
        0 <= off,
    ensures
        bytes_at(buf, off, m) <==> (off + m.len() <= buf.len() && forall|k: int| 0 <= k < m.len() ==> #[trigger] buf[off + k] == m[k]),
{
    if off + m.len() <= buf.len() && (forall|k: int| 0 <= k < m.len() ==> #[trigger] buf[off + k] == m[k]) {
        assert forall|k: int| 0 <= k < m.len() implies buf.subrange(off, off + m.len())[k] == m[k] by {
            assert(buf[off + k] == m[k]);
        }
        assert(buf.subrange(off, off + m.len()) =~= m);
    }
    if bytes_at(buf, off, m) {
        assert forall|k: int| 0 <= k < m.len() implies #[trigger] buf[off + k] == m[k] by {
            assert(buf.subrange(off, off + m.len())[k] == buf[off + k]);
        }
    }
}

/// MPEG program streams (`mpg`, `mpeg`, `vob`, in any case) pass exactly
/// when they start with the pack start code `00 00 01 BA`.
pub proof fn lemma_magic_mpeg_ps(ext: Seq<char>, buf: Seq<u8>)
    requires
        lower_seq(ext) == "mpg"@ || lower_seq(ext) == "mpeg"@ || lower_seq(ext) == "vob"@,
    ensures
        header_spec(ext, buf) == MagicVerdict::Hop <==> (buf.len() >= 4 && buf[0] == 0x00u8 && buf[1] == 0x00u8 && buf[2] == 0x01u8
            && buf[3] == 0xBAu8),
        header_spec(ext, buf) != MagicVerdict::KhongKiem,
{
    reveal_ext_names();
    assert(header_spec(ext, buf) == verdict_of(bytes_at(buf, 0, mpeg_ps())));
    lemma_bytes_at_each(buf, 0, mpeg_ps());
    let m = mpeg_ps();
    assert(m[0] == 0x00u8 && m[1] == 0x00u8 && m[2] == 0x01u8 && m[3] == 0xBAu8);
    if buf.len() >= 4 && buf[0] == 0x00u8 && buf[1] == 0x00u8 && buf[2] == 0x01u8 && buf[3] == 0xBAu8 {
        assert forall|k: int| 0 <= k < m.len() implies #[trigger] buf[0int + k] == m[k] by {
            assert(k == 0 || k == 1 || k == 2 || k == 3);
        }
    }
    if bytes_at(buf, 0, m) {
        assert(buf[0int + 0] == m[0]);
        assert(buf[0int + 1] == m[1]);
        assert(buf[0int + 2] == m[2]);
        assert(buf[0int + 3] == m[3]);
    }
}


/// Matroska and WebM (`mkv`, `webm`, in any case) pass exactly when they
/// start with the EBML magic `1A 45 DF A3`.
pub proof fn lemma_magic_ebml(ext: Seq<char>, buf: Seq<u8>)
    requires
        lower_seq(ext) == "mkv"@ || lower_seq(ext) == "webm"@,
    ensures
        header_spec(ext, buf) == MagicVerdict::Hop <==> (buf.len() >= 4 && buf[0] == 0x1Au8 && buf[1] == 0x45u8 && buf[2] == 0xDFu8 && buf[3] == 0xA3u8),
        header_spec(ext, buf) != MagicVerdict::KhongKiem,
{
    reveal_ext_names();
    assert(header_spec(ext, buf) == verdict_of(bytes_at(buf, 0, ebml())));
    let m = ebml();
    lemma_bytes_at_each(buf, 0, m);
    assert(m[0] == 0x1Au8);
    assert(m[1] == 0x45u8);
    assert(m[2] == 0xDFu8);
    assert(m[3] == 0xA3u8);
    if buf.len() >= 4 && buf[0] == 0x1Au8 && buf[1] == 0x45u8 && buf[2] == 0xDFu8 && buf[3] == 0xA3u8 {
        assert forall|k: int| 0 <= k < m.len() implies #[trigger] buf[0int + k] == m[k] by {
            assert(k == 0 || k == 1 || k == 2 || k == 3);
        }
    }
    if bytes_at(buf, 0, m) {
        assert(buf[0int + 0] == m[0]);
        assert(buf[0int + 1] == m[1]);
        assert(buf[0int + 2] == m[2]);
        assert(buf[0int + 3] == m[3]);
    }
}

/// ASF (`wmv`, in any case) passes exactly when it starts with the ASF
/// header GUID `30 26 B2 75 8E 66 CF 11`.
pub proof fn lemma_magic_asf(ext: Seq<char>, buf: Seq<u8>)
    requires
        lower_seq(ext) == "wmv"@,
    ensures
        header_spec(ext, buf) == MagicVerdict::Hop <==> (buf.len() >= 8 && buf[0] == 0x30u8 && buf[1] == 0x26u8 && buf[2] == 0xB2u8 && buf[3] == 0x75u8 && buf[4] == 0x8Eu8 && buf[5] == 0x66u8 && buf[6] == 0xCFu8 && buf[7] == 0x11u8),
        header_spec(ext, buf) != MagicVerdict::KhongKiem,
{
    reveal_ext_names();
    assert(header_spec(ext, buf) == verdict_of(bytes_at(buf, 0, asf_guid())));
    let m = asf_guid();
    lemma_bytes_at_each(buf, 0, m);
    assert(m[0] == 0x30u8);
    assert(m[1] == 0x26u8);
    assert(m[2] == 0xB2u8);
    assert(m[3] == 0x75u8);
    assert(m[4] == 0x8Eu8);
    assert(m[5] == 0x66u8);
    assert(m[6] == 0xCFu8);
    assert(m[7] == 0x11u8);
    if buf.len() >= 8 && buf[0] == 0x30u8 && buf[1] == 0x26u8 && buf[2] == 0xB2u8 && buf[3] == 0x75u8 && buf[4] == 0x8Eu8 && buf[5] == 0x66u8 && buf[6] == 0xCFu8 && buf[7] == 0x11u8 {
        assert forall|k: int| 0 <= k < m.len() implies #[trigger] buf[0int + k] == m[k] by {
            assert(k == 0 || k == 1 || k == 2 || k == 3 || k == 4 || k == 5 || k == 6 || k == 7);
        }
    }
    if bytes_at(buf, 0, m) {
        assert(buf[0int + 0] == m[0]);
        assert(buf[0int + 1] == m[1]);
        assert(buf[0int + 2] == m[2]);
        assert(buf[0int + 3] == m[3]);
        assert(buf[0int + 4] == m[4]);
        assert(buf[0int + 5] == m[5]);
        assert(buf[0int + 6] == m[6]);
        assert(buf[0int + 7] == m[7]);
    }
}

/// AVI (in any case) passes exactly when it starts with `RIFF` and holds
/// `AVI ` at offset 8.
pub proof fn lemma_magic_avi(ext: Seq<char>, buf: Seq<u8>)
    requires
        lower_seq(ext) == "avi"@,
    ensures
        header_spec(ext, buf) == MagicVerdict::Hop <==> (buf.len() >= 12 && buf[0] == 0x52u8 && buf[1] == 0x49u8 && buf[2] == 0x46u8 && buf[3] == 0x46u8 && buf[8] == 0x41u8 && buf[9] == 0x56u8 && buf[10] == 0x49u8 && buf[11] == 0x20u8),
        header_spec(ext, buf) != MagicVerdict::KhongKiem,
{
    reveal_ext_names();
    let m1 = seq![0x52u8, 0x49, 0x46, 0x46];
    let m2 = seq![0x41u8, 0x56, 0x49, 0x20];
    assert(header_spec(ext, buf) == verdict_of(bytes_at(buf, 0, m1) && bytes_at(buf, 8, m2)));
    lemma_bytes_at_each(buf, 0, m1);
    lemma_bytes_at_each(buf, 8, m2);
    if buf.len() >= 12 && buf[0] == 0x52u8 && buf[1] == 0x49u8 && buf[2] == 0x46u8 && buf[3] == 0x46u8 && buf[8] == 0x41u8 && buf[9] == 0x56u8 && buf[10] == 0x49u8 && buf[11] == 0x20u8 {
        assert forall|k: int| 0 <= k < m1.len() implies #[trigger] buf[0int + k] == m1[k] by {
            assert(k == 0 || k == 1 || k == 2 || k == 3);
        }
        assert forall|k: int| 0 <= k < m2.len() implies #[trigger] buf[8int + k] == m2[k] by {
            assert(k == 0 || k == 1 || k == 2 || k == 3);
        }
    }
    if bytes_at(buf, 0, m1) && bytes_at(buf, 8, m2) {
        assert(buf[0int + 0] == m1[0]);
        assert(buf[0int + 1] == m1[1]);
        assert(buf[0int + 2] == m1[2]);
        assert(buf[0int + 3] == m1[3]);
        assert(buf[8int + 0] == m2[0]);
        assert(buf[8int + 1] == m2[1]);
        assert(buf[8int + 2] == m2[2]);
        assert(buf[8int + 3] == m2[3]);
    }
}

/// ISO base media files (`mp4`, `m4v`, `mov`, `3gp`, `insv`, in any case)
/// pass exactly when bytes 4 to 8 name one of the boxes `ftyp`, `moov`,
/// `mdat`, `wide`, `free`, `skip`, `pnot`.
pub proof fn lemma_magic_isobmff(ext: Seq<char>, buf: Seq<u8>)
    requires
        lower_seq(ext) == "mp4"@ || lower_seq(ext) == "m4v"@ || lower_seq(ext) == "mov"@ || lower_seq(ext) == "3gp"@ || lower_seq(ext) == "insv"@,
    ensures
        header_spec(ext, buf) == MagicVerdict::Hop <==> (buf.len() >= 8 && ((buf[4] == 0x66u8 && buf[5] == 0x74u8 && buf[6] == 0x79u8 && buf[7] == 0x70u8) || (buf[4] == 0x6Du8 && buf[5] == 0x6Fu8 && buf[6] == 0x6Fu8 && buf[7] == 0x76u8) || (buf[4] == 0x6Du8 && buf[5] == 0x64u8 && buf[6] == 0x61u8 && buf[7] == 0x74u8) || (buf[4] == 0x77u8 && buf[5] == 0x69u8 && buf[6] == 0x64u8 && buf[7] == 0x65u8) || (buf[4] == 0x66u8 && buf[5] == 0x72u8 && buf[6] == 0x65u8 && buf[7] == 0x65u8) || (buf[4] == 0x73u8 && buf[5] == 0x6Bu8 && buf[6] == 0x69u8 && buf[7] == 0x70u8) || (buf[4] == 0x70u8 && buf[5] == 0x6Eu8 && buf[6] == 0x6Fu8 && buf[7] == 0x74u8))),
        header_spec(ext, buf) != MagicVerdict::KhongKiem,
{
    reveal_ext_names();
    assert(header_spec(ext, buf) == verdict_of(isobmff_spec(buf)));
    if buf.len() >= 8 {
        assert(buf.subrange(4, 8).len() == 4);
        let k0 = seq![0x66u8, 0x74, 0x79, 0x70];
        lemma_bytes_at_each(buf, 4, k0);
        if buf[4] == 0x66u8 && buf[5] == 0x74u8 && buf[6] == 0x79u8 && buf[7] == 0x70u8 {
            assert forall|k: int| 0 <= k < 4 implies #[trigger] buf[4int + k] == k0[k] by {
                assert(k == 0 || k == 1 || k == 2 || k == 3);
            }
            assert(buf.subrange(4, 8) == k0);
        }
        if buf.subrange(4, 8) == k0 {
            assert(buf[4int + 0] == buf.subrange(4, 8)[0]);
            assert(buf[4int + 1] == buf.subrange(4, 8)[1]);
            assert(buf[4int + 2] == buf.subrange(4, 8)[2]);
            assert(buf[4int + 3] == buf.subrange(4, 8)[3]);
        }
        let k1 = seq![0x6Du8, 0x6F, 0x6F, 0x76];
        lemma_bytes_at_each(buf, 4, k1);
        if buf[4] == 0x6Du8 && buf[5] == 0x6Fu8 && buf[6] == 0x6Fu8 && buf[7] == 0x76u8 {
            assert forall|k: int| 0 <= k < 4 implies #[trigger] buf[4int + k] == k1[k] by {
                assert(k == 0 || k == 1 || k == 2 || k == 3);
            }
            assert(buf.subrange(4, 8) == k1);
        }
        if buf.subrange(4, 8) == k1 {
            assert(buf[4int + 0] == buf.subrange(4, 8)[0]);
            assert(buf[4int + 1] == buf.subrange(4, 8)[1]);
            assert(buf[4int + 2] == buf.subrange(4, 8)[2]);
            assert(buf[4int + 3] == buf.subrange(4, 8)[3]);
        }
        let k2 = seq![0x6Du8, 0x64, 0x61, 0x74];
        lemma_bytes_at_each(buf, 4, k2);
        if buf[4] == 0x6Du8 && buf[5] == 0x64u8 && buf[6] == 0x61u8 && buf[7] == 0x74u8 {
            assert forall|k: int| 0 <= k < 4 implies #[trigger] buf[4int + k] == k2[k] by {
                assert(k == 0 || k == 1 || k == 2 || k == 3);
            }
            assert(buf.subrange(4, 8) == k2);
        }
        if buf.subrange(4, 8) == k2 {
            assert(buf[4int + 0] == buf.subrange(4, 8)[0]);
            assert(buf[4int + 1] == buf.subrange(4, 8)[1]);
            assert(buf[4int + 2] == buf.subrange(4, 8)[2]);
            assert(buf[4int + 3] == buf.subrange(4, 8)[3]);
        }
        let k3 = seq![0x77u8, 0x69, 0x64, 0x65];
        lemma_bytes_at_each(buf, 4, k3);
        if buf[4] == 0x77u8 && buf[5] == 0x69u8 && buf[6] == 0x64u8 && buf[7] == 0x65u8 {
            assert forall|k: int| 0 <= k < 4 implies #[trigger] buf[4int + k] == k3[k] by {
                assert(k == 0 || k == 1 || k == 2 || k == 3);
            }
            assert(buf.subrange(4, 8) == k3);
        }
        if buf.subrange(4, 8) == k3 {
            assert(buf[4int + 0] == buf.subrange(4, 8)[0]);
            assert(buf[4int + 1] == buf.subrange(4, 8)[1]);
            assert(buf[4int + 2] == buf.subrange(4, 8)[2]);
            assert(buf[4int + 3] == buf.subrange(4, 8)[3]);
        }
        let k4 = seq![0x66u8, 0x72, 0x65, 0x65];
        lemma_bytes_at_each(buf, 4, k4);
        if buf[4] == 0x66u8 && buf[5] == 0x72u8 && buf[6] == 0x65u8 && buf[7] == 0x65u8 {
            assert forall|k: int| 0 <= k < 4 implies #[trigger] buf[4int + k] == k4[k] by {
                assert(k == 0 || k == 1 || k == 2 || k == 3);
            }
            assert(buf.subrange(4, 8) == k4);
        }
        if buf.subrange(4, 8) == k4 {
            assert(buf[4int + 0] == buf.subrange(4, 8)[0]);
            assert(buf[4int + 1] == buf.subrange(4, 8)[1]);
            assert(buf[4int + 2] == buf.subrange(4, 8)[2]);
            assert(buf[4int + 3] == buf.subrange(4, 8)[3]);
        }
        let k5 = seq![0x73u8, 0x6B, 0x69, 0x70];
        lemma_bytes_at_each(buf, 4, k5);
        if buf[4] == 0x73u8 && buf[5] == 0x6Bu8 && buf[6] == 0x69u8 && buf[7] == 0x70u8 {
            assert forall|k: int| 0 <= k < 4 implies #[trigger] buf[4int + k] == k5[k] by {
                assert(k == 0 || k == 1 || k == 2 || k == 3);
            }
            assert(buf.subrange(4, 8) == k5);
        }
        if buf.subrange(4, 8) == k5 {
            assert(buf[4int + 0] == buf.subrange(4, 8)[0]);
            assert(buf[4int + 1] == buf.subrange(4, 8)[1]);
            assert(buf[4int + 2] == buf.subrange(4, 8)[2]);
            assert(buf[4int + 3] == buf.subrange(4, 8)[3]);
        }
        let k6 = seq![0x70u8, 0x6E, 0x6F, 0x74];
        lemma_bytes_at_each(buf, 4, k6);
        if buf[4] == 0x70u8 && buf[5] == 0x6Eu8 && buf[6] == 0x6Fu8 && buf[7] == 0x74u8 {
            assert forall|k: int| 0 <= k < 4 implies #[trigger] buf[4int + k] == k6[k] by {
                assert(k == 0 || k == 1 || k == 2 || k == 3);
            }
            assert(buf.subrange(4, 8) == k6);
        }
        if buf.subrange(4, 8) == k6 {
            assert(buf[4int + 0] == buf.subrange(4, 8)[0]);
            assert(buf[4int + 1] == buf.subrange(4, 8)[1]);
            assert(buf[4int + 2] == buf.subrange(4, 8)[2]);
            assert(buf[4int + 3] == buf.subrange(4, 8)[3]);
        }
    }
}

/// MPEG-TS (`ts`, in any case) passes exactly when the sync byte `47` opens
/// the first four packets of 188 bytes.
pub proof fn lemma_magic_ts(ext: Seq<char>, buf: Seq<u8>)
    requires
        lower_seq(ext) == "ts"@,
    ensures
        header_spec(ext, buf) == MagicVerdict::Hop <==> (buf.len() > 564 && buf[0] == 0x47u8 && buf[188] == 0x47u8 && buf[376] == 0x47u8 && buf[564] == 0x47u8),
        header_spec(ext, buf) != MagicVerdict::KhongKiem,
{
    reveal_ext_names();
    assert(header_spec(ext, buf) == verdict_of(ts_spec(buf, 0)));
}

/// BDAV streams (`mts`, `m2ts`, in any case) pass exactly when the sync
/// byte `47` follows the 4-byte timestamp of each of the first four packets
/// of 192 bytes.
pub proof fn lemma_magic_bdav(ext: Seq<char>, buf: Seq<u8>)
    requires
        lower_seq(ext) == "mts"@ || lower_seq(ext) == "m2ts"@,
    ensures
        header_spec(ext, buf) == MagicVerdict::Hop <==> (buf.len() > 568 && buf[4] == 0x47u8 && buf[192] == 0x47u8 && buf[380] == 0x47u8 && buf[568] == 0x47u8),
        header_spec(ext, buf) != MagicVerdict::KhongKiem,
{
    reveal_ext_names();
    assert(header_spec(ext, buf) == verdict_of(ts_spec(buf, 4)));
}

/// MXF (in any case) passes exactly when the SMPTE partition key
/// `06 0E 2B 34 02 05 01 01 0D 01 02` lies somewhere in the header read.
pub proof fn lemma_magic_mxf(ext: Seq<char>, buf: Seq<u8>)
    requires
        lower_seq(ext) == "mxf"@,
    ensures
        header_spec(ext, buf) == MagicVerdict::Hop <==> (exists|i: int| 0 <= i && i + 11 <= buf.len()
            && #[trigger] buf.subrange(i, i + 11) == seq![0x06u8, 0x0E, 0x2B, 0x34, 0x02, 0x05, 0x01, 0x01, 0x0D, 0x01, 0x02]),
        header_spec(ext, buf) != MagicVerdict::KhongKiem,
{
    reveal_ext_names();
    assert(mxf_key() == seq![0x06u8, 0x0E, 0x2B, 0x34, 0x02, 0x05, 0x01, 0x01, 0x0D, 0x01, 0x02]);
    assert(header_spec(ext, buf) == verdict_of(mxf_spec(buf)));
    if mxf_spec(buf) {
        let i = choose|i: int| 0 <= i && #[trigger] bytes_at(buf, i, mxf_key());
        assert(buf.subrange(i, i + 11) == seq![0x06u8, 0x0E, 0x2B, 0x34, 0x02, 0x05, 0x01, 0x01, 0x0D, 0x01, 0x02]);
    }
    if exists|i: int| 0 <= i && i + 11 <= buf.len() && #[trigger] buf.subrange(i, i + 11) == seq![0x06u8, 0x0E, 0x2B, 0x34, 0x02, 0x05, 0x01, 0x01, 0x0D, 0x01, 0x02] {
        let i = choose|i: int| 0 <= i && i + 11 <= buf.len() && #[trigger] buf.subrange(i, i + 11) == seq![0x06u8, 0x0E, 0x2B, 0x34, 0x02, 0x05, 0x01, 0x01, 0x0D, 0x01, 0x02];
        assert(bytes_at(buf, i, mxf_key()));
    }
}

/// An extension outside the checked formats always passes, whatever the
/// header.
pub proof fn lemma_magic_unknown_passes(ext: Seq<char>, buf: Seq<u8>)
    requires
        lower_seq(ext) != "mp4"@ && lower_seq(ext) != "m4v"@ && lower_seq(ext) != "mov"@ && lower_seq(ext) != "3gp"@ && lower_seq(ext) != "insv"@ && lower_seq(ext) != "mkv"@ && lower_seq(ext) != "webm"@ && lower_seq(ext) != "avi"@ && lower_seq(ext) != "ts"@ && lower_seq(ext) != "mts"@ && lower_seq(ext) != "m2ts"@ && lower_seq(ext) != "mpg"@ && lower_seq(ext) != "mpeg"@ && lower_seq(ext) != "vob"@ && lower_seq(ext) != "wmv"@ && lower_seq(ext) != "mxf"@,
    ensures
        header_spec(ext, buf) == MagicVerdict::KhongKiem,
{
}
} // verus!
