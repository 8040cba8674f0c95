//! Core data model: identities of files and filesystems, the per-file lifecycle
//! state, and the rows the repository stores.

use vstd::prelude::*;

use crate::digest::{blake3_digest, blake3_hash};
use crate::text::{chars_of, seq_eq};
use vstd::string::StringSliceAdditionalSpecFns;

verus! {

/// Unix epoch milliseconds for every `*_at` / `ts` / `ready_at` column.
pub type Ts = i64;

/// Byte `i` (little-endian) of `x`.
pub open spec fn le_byte(x: u64, i: int) -> u8 {
    ((x >> ((8 * i) as u64)) & 0xff) as u8
}

/// The eight little-endian bytes of `x`.
pub open spec fn le_bytes(x: u64) -> Seq<u8> {
    Seq::new(8, |i: int| le_byte(x, i))
}

/// The `u64` whose little-endian bytes are `s[0..8]`.
pub open spec fn le_u64(s: Seq<u8>) -> u64 {
    (s[0] as u64) | ((s[1] as u64) << 8u64) | ((s[2] as u64) << 16u64) | ((s[3] as u64) << 24u64)
        | ((s[4] as u64) << 32u64) | ((s[5] as u64) << 40u64) | ((s[6] as u64) << 48u64) | ((
    s[7] as u64) << 56u64)
}

pub fn le_bytes_of(x: u64) -> (v: Vec<u8>)
    ensures
        v@ == le_bytes(x),
{
    let mut v: Vec<u8> = Vec::new();
    let mut i: u64 = 0;
    while i < 8
        invariant
            i <= 8,
            v@ == le_bytes(x).subrange(0, i as int),
        decreases 8 - i,
    {
        v.push(((x >> (8 * i)) & 0xff) as u8);
        i = i + 1;
    }
    assert(v@ =~= le_bytes(x));
    v
}

pub(crate) fn le_u64_of(s: &[u8]) -> (r: u64)
    requires
        s@.len() >= 8,
    ensures
        r == le_u64(s@),
{
    (s[0] as u64) | ((s[1] as u64) << 8u64) | ((s[2] as u64) << 16u64) | ((s[3] as u64) << 24u64)
        | ((s[4] as u64) << 32u64) | ((s[5] as u64) << 40u64) | ((s[6] as u64) << 48u64) | ((
    s[7] as u64) << 56u64)
}

/// Sixteen bytes made of the little-endian bytes of `hi` followed by those of `lo`.
pub open spec fn parts_bytes(hi: u64, lo: u64) -> Seq<u8> {
    le_bytes(hi) + le_bytes(lo)
}

fn bytes_from_parts(hi: u64, lo: u64) -> (out: [u8; 16])
    ensures
        out@ == parts_bytes(hi, lo),
{
    let mut out = [0u8; 16];
    let mut i: usize = 0;
    while i < 8
        invariant
            i <= 8,
            out@.len() == 16,
            forall|j: int| 0 <= j < i ==> out@[j] == le_byte(hi, j),
            forall|j: int| 0 <= j < i ==> out@[8 + j] == le_byte(lo, j),
        decreases 8 - i,
    {
        out[i] = ((hi >> (8 * i as u64)) & 0xff) as u8;
        out[8 + i] = ((lo >> (8 * i as u64)) & 0xff) as u8;
        i = i + 1;
    }
    assert(out@ =~= parts_bytes(hi, lo));
    out
}

/// A deduplication domain (one superblock). Two files can share extents only
/// when they carry the same `DomainId`.
#[derive(Clone, Copy, PartialEq, Eq, Hash, PartialOrd, Ord, Default, Debug)]
pub struct DomainId(pub [u8; 16]);

/// An inode namespace: `ino` is unique only inside one `SubId`.
#[derive(Clone, Copy, PartialEq, Eq, Hash, PartialOrd, Ord, Default, Debug)]
pub struct SubId(pub [u8; 16]);

impl DomainId {
    /// Built from two `u64` (for example `f_fsid` and `f_type`), little-endian.
    pub fn from_parts(hi: u64, lo: u64) -> (r: Self)
        ensures
            r.0@ == parts_bytes(hi, lo),
    {
        DomainId(bytes_from_parts(hi, lo))
    }

    pub fn as_bytes(&self) -> (r: &[u8; 16])
        ensures
            *r == self.0,
    {
        &self.0
    }
}

impl DomainId {
    pub fn same(&self, other: &DomainId) -> (r: bool)
        ensures
            r == (*self == *other),
    {
        let r = bytes16_eq(&self.0, &other.0);
        proof {
            if self.0@ == other.0@ {
                vstd::array::axiom_array_ext_equal(self.0, other.0);
            }
        }
        r
    }
}

impl SubId {
    pub fn same(&self, other: &SubId) -> (r: bool)
        ensures
            r == (*self == *other),
    {
        let r = bytes16_eq(&self.0, &other.0);
        proof {
            if self.0@ == other.0@ {
                vstd::array::axiom_array_ext_equal(self.0, other.0);
            }
        }
        r
    }

    /// Built from two `u64`, little-endian.
    pub fn from_parts(hi: u64, lo: u64) -> (r: Self)
        ensures
            r.0@ == parts_bytes(hi, lo),
    {
        SubId(bytes_from_parts(hi, lo))
    }

    pub fn as_bytes(&self) -> (r: &[u8; 16])
        ensures
            *r == self.0,
    {
        &self.0
    }
}

pub fn bytes16_eq(a: &[u8; 16], b: &[u8; 16]) -> (r: bool)
    ensures
        r == (a@ == b@),
{
    let mut i: usize = 0;
    while i < 16
        invariant
            i <= 16,
            a@.len() == 16,
            b@.len() == 16,
            forall|j: int| 0 <= j < i ==> a@[j] == b@[j],
        decreases 16 - i,
    {
        if a[i] != b[i] {
            return false;
        }
        i = i + 1;
    }
    assert(a@ =~= b@);
    true
}

pub fn bytes32_eq(a: &[u8; 32], b: &[u8; 32]) -> (r: bool)
    ensures
        r == (a@ == b@),
{
    let mut i: usize = 0;
    while i < 32
        invariant
            i <= 32,
            a@.len() == 32,
            b@.len() == 32,
            forall|j: int| 0 <= j < i ==> a@[j] == b@[j],
        decreases 32 - i,
    {
        if a[i] != b[i] {
            return false;
        }
        i = i + 1;
    }
    assert(a@ =~= b@);
    true
}

/// Two 32-byte digests are equal.
pub fn digest_eq(a: &[u8; 32], b: &[u8; 32]) -> (r: bool)
    ensures
        r == (*a == *b),
{
    let r = bytes32_eq(a, b);
    proof {
        if a@ == b@ {
            vstd::array::axiom_array_ext_equal(*a, *b);
        }
    }
    r
}

/// Identity of a file that survives reboots and renames.
#[derive(Clone, Copy, PartialEq, Eq, Hash, PartialOrd, Ord, Debug)]
pub struct FileKey {
    pub sub_id: SubId,
    pub ino: u64,
}

impl FileKey {
    pub fn same(&self, other: &FileKey) -> (r: bool)
        ensures
            r == (*self == *other),
    {
        self.ino == other.ino && self.sub_id.same(&other.sub_id)
    }
}

/// Location of a file: a configured root and a path relative to it (`/` separated).
#[derive(Debug, PartialEq, Eq, Hash, PartialOrd, Ord)]
pub struct FileLoc {
    pub root_id: i64,
    pub rel_path: String,
}

impl View for FileLoc {
    type V = (i64, Seq<char>);

    open spec fn view(&self) -> (i64, Seq<char>) {
        (self.root_id, self.rel_path@)
    }
}

impl Clone for FileLoc {
    fn clone(&self) -> (r: Self)
        ensures
            r == *self,
    {
        FileLoc { root_id: self.root_id, rel_path: self.rel_path.clone() }
    }
}

impl FileLoc {
    pub fn new(root_id: i64, rel_path: &str) -> (r: Self)
        ensures
            r.root_id == root_id,
            r.rel_path@ == rel_path@,
    {
        FileLoc { root_id, rel_path: rel_path.to_owned() }
    }

    /// Same root and same relative path.
    pub fn same_as(&self, other: &FileLoc) -> (r: bool)
        ensures
            r == (self@ == other@),
    {
        if self.root_id != other.root_id {
            return false;
        }
        let a = chars_of(self.rel_path.as_str());
        let b = chars_of(other.rel_path.as_str());
        seq_eq(&a, &b)
    }
}

/// Result of `fstat`/`statx`.
#[derive(Clone, Copy, Debug, PartialEq, Eq)]
pub struct Identity {
    pub key: FileKey,
    pub domain_id: DomainId,
    pub size: u64,
    pub mtime_ns: i64,
    pub ctime_ns: i64,
    pub atime_ns: i64,
    pub nlink: u32,
    pub uid: u32,
    pub mode: u32,
    pub blocks: u64,
    /// Live `st_dev`, never stored; only used to tell two open files apart.
    pub dev: u64,
}

/// The fingerprint that tells whether a file changed.
#[derive(Clone, Copy, Debug, PartialEq, Eq, Structural)]
pub struct Fingerprint {
    pub size: u64,
    pub mtime_ns: i64,
    pub ctime_ns: i64,
}

pub open spec fn fingerprint_of(id: Identity) -> Fingerprint {
    Fingerprint { size: id.size, mtime_ns: id.mtime_ns, ctime_ns: id.ctime_ns }
}

/// `S_ISUID | S_ISGID`.
pub open spec fn special_mode(mode: u32) -> bool {
    mode & 0o6000u32 != 0
}

impl Identity {
    pub fn fingerprint(&self) -> (r: Fingerprint)
        ensures
            r == fingerprint_of(*self),
    {
        Fingerprint { size: self.size, mtime_ns: self.mtime_ns, ctime_ns: self.ctime_ns }
    }

    /// setuid or setgid: such files are skipped because a clone strips these bits.
    pub fn has_special_mode(&self) -> (r: bool)
        ensures
            r == special_mode(self.mode),
    {
        self.mode & 0o6000 != 0
    }
}

/// Whether two fingerprints describe the same content for a root of this kind:
/// remote roots have no POSIX ctime, so only `(size, mtime)` are compared there.
pub open spec fn fingerprints_match(a: Fingerprint, b: Fingerprint, kind: RootKind) -> bool {
    a.size == b.size && a.mtime_ns == b.mtime_ns && (kind == RootKind::Remote || a.ctime_ns
        == b.ctime_ns)
}

impl Fingerprint {
    pub fn matches(&self, other: &Self, kind: RootKind) -> (r: bool)
        ensures
            r == fingerprints_match(*self, *other, kind),
    {
        self.size == other.size && self.mtime_ns == other.mtime_ns && (!kind.uses_ctime()
            || self.ctime_ns == other.ctime_ns)
    }
}

/// A system error number, independent of `libc`.
#[derive(Clone, Copy, Debug, PartialEq, Eq, Structural, Hash)]
pub struct Errno(pub i32);

/// Lifecycle state of a file row.
#[derive(Clone, Copy, Debug, PartialEq, Eq, Structural, Hash, PartialOrd, Ord)]
pub enum State {
    Settling,
    Sized,
    Hashed,
    Verified,
    Deduped,
    Distinct,
    Canonical,
    Skipped,
    Failed,
    Missing,
    Gone,
}

pub open spec fn state_name(s: State) -> Seq<char> {
    match s {
        State::Settling => "settling"@,
        State::Sized => "sized"@,
        State::Hashed => "hashed"@,
        State::Verified => "verified"@,
        State::Deduped => "deduped"@,
        State::Distinct => "distinct"@,
        State::Canonical => "canonical"@,
        State::Skipped => "skipped"@,
        State::Failed => "failed"@,
        State::Missing => "missing"@,
        State::Gone => "gone"@,
    }
}

/// The rows of the work queue.
pub open spec fn queued(s: State) -> bool {
    s == State::Settling || s == State::Sized || s == State::Hashed
}

impl State {
    pub fn as_str(self) -> (r: &'static str)
        ensures
            r@ == state_name(self),
    {
        match self {
            State::Settling => "settling",
            State::Sized => "sized",
            State::Hashed => "hashed",
            State::Verified => "verified",
            State::Deduped => "deduped",
            State::Distinct => "distinct",
            State::Canonical => "canonical",
            State::Skipped => "skipped",
            State::Failed => "failed",
            State::Missing => "missing",
            State::Gone => "gone",
        }
    }

    /// Part of the work queue; `verified` is not.
    pub fn is_queued(self) -> (r: bool)
        ensures
            r == queued(self),
    {
        matches!(self, State::Settling | State::Sized | State::Hashed)
    }

    /// Resting state: only an event or a scan wakes it.
    pub fn is_terminal(self) -> (r: bool)
        ensures
            r == !queued(self),
    {
        matches!(
            self,
            State::Verified | State::Deduped | State::Distinct | State::Canonical | State::Skipped
                | State::Failed | State::Missing | State::Gone
        )
    }

    /// May be chosen as a duplicate candidate.
    pub fn is_candidate(self) -> (r: bool)
        ensures
            r == (self == State::Sized || self == State::Distinct),
    {
        matches!(self, State::Sized | State::Distinct)
    }

    /// Currently a member of a content group.
    pub fn in_group(self) -> (r: bool)
        ensures
            r == (self == State::Hashed || self == State::Verified || self == State::Deduped
                || self == State::Canonical),
    {
        matches!(self, State::Hashed | State::Verified | State::Deduped | State::Canonical)
    }

    pub const ALL: [State; 11] = [
        State::Settling,
        State::Sized,
        State::Hashed,
        State::Verified,
        State::Deduped,
        State::Distinct,
        State::Canonical,
        State::Skipped,
        State::Failed,
        State::Missing,
        State::Gone,
    ];
}


/// Error when a stored enum value cannot be parsed.
#[derive(Debug)]
pub struct ParseEnumError {
    pub kind: &'static str,
    pub value: String,
}

impl State {
    /// Parses the name used in the `files.state` column.
    pub fn from_str(s: &str) -> (r: Result<State, ParseEnumError>)
        ensures
            r matches Ok(st) ==> state_name(st) == s@,
            r is Err <==> (forall|st: State| state_name(st) != s@),
    {
        let want = chars_of(s);
        let mut i: usize = 0;
        while i < 11
            invariant
                want@ == s@,
                i <= 11,
                forall|j: int| 0 <= j < i ==> state_name(#[trigger] State::ALL@[j]) != s@,
            decreases 11 - i,
        {
            let st = State::ALL[i];
            let name = chars_of(st.as_str());
            if seq_eq(&name, &want) {
                return Ok(st);
            }
            i = i + 1;
        }
        proof {
            assert forall|st: State| state_name(st) != s@ by {
                let k: int = match st {
                    State::Settling => 0,
                    State::Sized => 1,
                    State::Hashed => 2,
                    State::Verified => 3,
                    State::Deduped => 4,
                    State::Distinct => 5,
                    State::Canonical => 6,
                    State::Skipped => 7,
                    State::Failed => 8,
                    State::Missing => 9,
                    State::Gone => 10,
                };
                assert(State::ALL@[k] == st);
            }
        }
        Err(ParseEnumError { kind: "State", value: s.to_owned() })
    }
}

/// Why a row sits in `skipped`.
#[derive(Clone, Copy, Debug, PartialEq, Eq, Structural)]
pub enum SkipReason {
    NotVideo,
    TooSmall,
    BadMagic,
    Hardlink,
    SpecialMode,
    Excluded,
    Unsupported,
    UserUndo,
    Unstable,
    ReportNoVerify,
    TooLarge,
    SuspectPartial,
}

pub open spec fn skip_name(r: SkipReason) -> Seq<char> {
    match r {
        SkipReason::NotVideo => "not_video"@,
        SkipReason::TooSmall => "too_small"@,
        SkipReason::BadMagic => "bad_magic"@,
        SkipReason::Hardlink => "hardlink"@,
        SkipReason::SpecialMode => "special_mode"@,
        SkipReason::Excluded => "excluded"@,
        SkipReason::Unsupported => "unsupported"@,
        SkipReason::UserUndo => "user_undo"@,
        SkipReason::Unstable => "unstable"@,
        SkipReason::ReportNoVerify => "report_no_verify"@,
        SkipReason::TooLarge => "too_large"@,
        SkipReason::SuspectPartial => "suspect_partial"@,
    }
}

impl SkipReason {
    pub fn as_str(self) -> (r: &'static str)
        ensures
            r@ == skip_name(self),
    {
        match self {
            SkipReason::NotVideo => "not_video",
            SkipReason::TooSmall => "too_small",
            SkipReason::BadMagic => "bad_magic",
            SkipReason::Hardlink => "hardlink",
            SkipReason::SpecialMode => "special_mode",
            SkipReason::Excluded => "excluded",
            SkipReason::Unsupported => "unsupported",
            SkipReason::UserUndo => "user_undo",
            SkipReason::Unstable => "unstable",
            SkipReason::ReportNoVerify => "report_no_verify",
            SkipReason::TooLarge => "too_large",
            SkipReason::SuspectPartial => "suspect_partial",
        }
    }
}

/// Queue priority: the smaller number runs first.
#[derive(Clone, Copy, Debug, PartialEq, Eq, Structural, PartialOrd, Ord)]
pub enum Priority {
    /// Real-time watcher events.
    RealTime,
    /// Reconcile, backfill, deferrals.
    Background,
    /// Initial scan.
    InitialScan,
}

impl Priority {
    pub fn as_u8(self) -> (r: u8)
        ensures
            r == match self {
                Priority::RealTime => 0u8,
                Priority::Background => 1u8,
                Priority::InitialScan => 2u8,
            },
    {
        match self {
            Priority::RealTime => 0,
            Priority::Background => 1,
            Priority::InitialScan => 2,
        }
    }
}

pub fn clone_opt_string(o: &Option<String>) -> (r: Option<String>)
    ensures
        r == *o,
{
    match o {
        Some(s) => Some(s.clone()),
        None => None,
    }
}

/// One row of the `files` table.
#[derive(Debug, PartialEq, Eq)]
pub struct FileRecord {
    pub id: i64,
    pub key: FileKey,
    pub domain_id: DomainId,
    pub loc: FileLoc,
    pub owner_uid: u32,
    pub mode: u32,
    pub size: u64,
    pub mtime_ns: i64,
    pub ctime_ns: i64,
    pub nlink: u32,
    pub state: State,
    pub prev_state: Option<State>,
    pub ready_at: Option<Ts>,
    pub priority: u8,
    pub heavy_wait_since: Option<Ts>,
    pub attempts: u32,
    pub last_error: Option<String>,
    pub skip_reason: Option<String>,
    /// `statx` snapshot taken when queued; compared with the current one to tell
    /// whether the file has settled.
    pub enq: Option<Fingerprint>,
    pub magic_ok: Option<bool>,
    pub sparse_hash: Option<[u8; 32]>,
    pub hash_version: Option<u32>,
    pub full_hash: Option<[u8; 32]>,
    pub duration_ms: Option<u64>,
    pub probe_status: Option<String>,
    pub group_id: Option<i64>,
    pub first_seen_at: Ts,
    pub last_seen_at: Ts,
    pub updated_at: Ts,
}

pub open spec fn record_fingerprint(r: FileRecord) -> Fingerprint {
    Fingerprint { size: r.size, mtime_ns: r.mtime_ns, ctime_ns: r.ctime_ns }
}

impl Clone for FileRecord {
    fn clone(&self) -> (r: Self)
        ensures
            r == *self,
    {
        FileRecord {
            id: self.id,
            key: self.key,
            domain_id: self.domain_id,
            loc: self.loc.clone(),
            owner_uid: self.owner_uid,
            mode: self.mode,
            size: self.size,
            mtime_ns: self.mtime_ns,
            ctime_ns: self.ctime_ns,
            nlink: self.nlink,
            state: self.state,
            prev_state: self.prev_state,
            ready_at: self.ready_at,
            priority: self.priority,
            heavy_wait_since: self.heavy_wait_since,
            attempts: self.attempts,
            last_error: clone_opt_string(&self.last_error),
            skip_reason: clone_opt_string(&self.skip_reason),
            enq: self.enq,
            magic_ok: self.magic_ok,
            sparse_hash: self.sparse_hash,
            hash_version: self.hash_version,
            full_hash: self.full_hash,
            duration_ms: self.duration_ms,
            probe_status: clone_opt_string(&self.probe_status),
            group_id: self.group_id,
            first_seen_at: self.first_seen_at,
            last_seen_at: self.last_seen_at,
            updated_at: self.updated_at,
        }
    }
}

impl FileRecord {
    /// The stored fingerprint: the result of the latest processing.
    pub fn fingerprint(&self) -> (r: Fingerprint)
        ensures
            r == record_fingerprint(*self),
    {
        Fingerprint { size: self.size, mtime_ns: self.mtime_ns, ctime_ns: self.ctime_ns }
    }
}

/// One row of the `content_groups` table.
#[derive(Clone, Copy, Debug, PartialEq, Eq)]
pub struct Group {
    pub id: i64,
    pub domain_id: DomainId,
    pub size: u64,
    pub sparse_hash: [u8; 32],
    pub hash_version: u32,
    pub full_hash: Option<[u8; 32]>,
    pub canonical_file_id: Option<i64>,
    pub verified_at: Option<Ts>,
    pub created_at: Ts,
}

/// Deduplication backend probed for a domain.
#[derive(Clone, Copy, Debug, PartialEq, Eq, Structural)]
pub enum Backend {
    /// `FIDEDUPERANGE`: the kernel compares the bytes itself.
    KernelDedupe,
    /// Byte comparison in userspace under a lease, then `FICLONE`.
    VerifiedClone,
    /// The filesystem cannot share extents: report only.
    Unsupported,
    /// The probe did not conclude; retried on the reconcile tick.
    Unknown,
    /// Never probed.
    Unprobed,
}

pub open spec fn backend_name(b: Backend) -> Seq<char> {
    match b {
        Backend::KernelDedupe => "kernel_dedupe"@,
        Backend::VerifiedClone => "verified_clone"@,
        Backend::Unsupported => "unsupported"@,
        Backend::Unknown => "unknown"@,
        Backend::Unprobed => "unprobed"@,
    }
}

impl Backend {
    pub fn as_str(self) -> (r: &'static str)
        ensures
            r@ == backend_name(self),
    {
        match self {
            Backend::KernelDedupe => "kernel_dedupe",
            Backend::VerifiedClone => "verified_clone",
            Backend::Unsupported => "unsupported",
            Backend::Unknown => "unknown",
            Backend::Unprobed => "unprobed",
        }
    }

    /// The backend really shares extents.
    pub fn is_supported(self) -> (r: bool)
        ensures
            r == (self == Backend::KernelDedupe || self == Backend::VerifiedClone),
    {
        matches!(self, Backend::KernelDedupe | Backend::VerifiedClone)
    }

    pub const ALL: [Backend; 5] = [
        Backend::KernelDedupe,
        Backend::VerifiedClone,
        Backend::Unsupported,
        Backend::Unknown,
        Backend::Unprobed,
    ];

    pub fn from_str(s: &str) -> (r: Result<Backend, ParseEnumError>)
        ensures
            r matches Ok(b) ==> backend_name(b) == s@,
            r is Err <==> (forall|b: Backend| backend_name(b) != s@),
    {
        let want = chars_of(s);
        let mut i: usize = 0;
        while i < 5
            invariant
                want@ == s@,
                i <= 5,
                forall|j: int| 0 <= j < i ==> backend_name(#[trigger] Backend::ALL@[j]) != s@,
            decreases 5 - i,
        {
            let b = Backend::ALL[i];
            let name = chars_of(b.as_str());
            if seq_eq(&name, &want) {
                return Ok(b);
            }
            i = i + 1;
        }
        proof {
            assert forall|b: Backend| backend_name(b) != s@ by {
                let k: int = match b {
                    Backend::KernelDedupe => 0,
                    Backend::VerifiedClone => 1,
                    Backend::Unsupported => 2,
                    Backend::Unknown => 3,
                    Backend::Unprobed => 4,
                };
                assert(Backend::ALL@[k] == b);
            }
        }
        Err(ParseEnumError { kind: "Backend", value: s.to_owned() })
    }
}

/// One row of the `volumes` table.
#[derive(Debug, PartialEq, Eq)]
pub struct Volume {
    pub id: i64,
    pub domain_id: DomainId,
    pub fstype: String,
    pub mount: String,
    pub backend: Backend,
    /// Kernels before 4.20 without `CAP_SYS_ADMIN` need the destination `O_RDWR`.
    pub dest_needs_write: bool,
    pub supports_lease: Option<bool>,
    pub fs_version: Option<String>,
    pub kernel: Option<String>,
    pub probed_at: Option<Ts>,
    pub probe_error: Option<String>,
}

impl Clone for Volume {
    fn clone(&self) -> (r: Self)
        ensures
            r == *self,
    {
        Volume {
            id: self.id,
            domain_id: self.domain_id,
            fstype: self.fstype.clone(),
            mount: self.mount.clone(),
            backend: self.backend,
            dest_needs_write: self.dest_needs_write,
            supports_lease: self.supports_lease,
            fs_version: clone_opt_string(&self.fs_version),
            kernel: clone_opt_string(&self.kernel),
            probed_at: self.probed_at,
            probe_error: clone_opt_string(&self.probe_error),
        }
    }
}

/// Kind of a root.
#[derive(Clone, Copy, Debug, Default, PartialEq, Eq, Structural)]
pub enum RootKind {
    /// Local filesystem on the NAS: can really deduplicate.
    #[default]
    Local,
    /// CIFS/SMB or NFS mount of another machine: read-only, report-only.
    Remote,
}

pub open spec fn root_kind_name(k: RootKind) -> Seq<char> {
    match k {
        RootKind::Local => "local"@,
        RootKind::Remote => "remote"@,
    }
}

impl RootKind {
    pub fn as_str(self) -> (r: &'static str)
        ensures
            r@ == root_kind_name(self),
    {
        match self {
            RootKind::Local => "local",
            RootKind::Remote => "remote",
        }
    }

    /// The daemon may write on this root.
    pub fn is_writable(self) -> (r: bool)
        ensures
            r == (self == RootKind::Local),
    {
        matches!(self, RootKind::Local)
    }

    /// The root is watched with inotify.
    pub fn supports_watch(self) -> (r: bool)
        ensures
            r == (self == RootKind::Local),
    {
        matches!(self, RootKind::Local)
    }

    /// Fingerprints on this root include `ctime`.
    pub fn uses_ctime(self) -> (r: bool)
        ensures
            r == (self == RootKind::Local),
    {
        matches!(self, RootKind::Local)
    }

    pub const ALL: [RootKind; 2] = [RootKind::Local, RootKind::Remote];

    pub fn from_str(s: &str) -> (r: Result<RootKind, ParseEnumError>)
        ensures
            r matches Ok(k) ==> root_kind_name(k) == s@,
            r is Err <==> (forall|k: RootKind| root_kind_name(k) != s@),
    {
        let want = chars_of(s);
        if seq_eq(&chars_of("local"), &want) {
            assert(root_kind_name(RootKind::Local) == s@);
            return Ok(RootKind::Local);
        }
        if seq_eq(&chars_of("remote"), &want) {
            assert(root_kind_name(RootKind::Remote) == s@);
            return Ok(RootKind::Remote);
        }
        Err(ParseEnumError { kind: "RootKind", value: s.to_owned() })
    }
}

/// One row of the `roots` table.
#[derive(Debug, PartialEq, Eq)]
pub struct Root {
    pub id: i64,
    pub path: String,
    pub domain_id: DomainId,
    pub kind: RootKind,
    /// Label shown in reports, for example `windows-214`.
    pub label: Option<String>,
    /// UNC path of the share on the Windows machine; never guessed from the mount.
    pub windows_unc: Option<String>,
    pub active: bool,
    pub added_at: Ts,
}

impl Clone for Root {
    fn clone(&self) -> (r: Self)
        ensures
            r == *self,
    {
        Root {
            id: self.id,
            path: self.path.clone(),
            domain_id: self.domain_id,
            kind: self.kind,
            label: clone_opt_string(&self.label),
            windows_unc: clone_opt_string(&self.windows_unc),
            active: self.active,
            added_at: self.added_at,
        }
    }
}

/// Tag that separates the digest of a remote root id from any other digest.
pub open spec fn remote_root_input(root_id: i64) -> Seq<u8> {
    "nasdedup-remote-root".spec_bytes() + le_bytes(root_id as u64)
}

/// Key of a file on a remote root: a pure function of `(root_id, rel_path)`,
/// because CIFS does not keep inode numbers across mounts.
pub fn remote_key(root_id: i64, rel_path: &str) -> (k: FileKey)
    ensures
        k.sub_id.0@ == blake3_digest(remote_root_input(root_id)).subrange(0, 16),
        k.ino == le_u64(blake3_digest(rel_path.spec_bytes())),
{
    let mut input: Vec<u8> = Vec::new();
    let tag = "nasdedup-remote-root".as_bytes();
    let mut i: usize = 0;
    while i < tag.len()
        invariant
            i <= tag@.len(),
            tag@ == "nasdedup-remote-root".spec_bytes(),
            input@ == tag@.subrange(0, i as int),
        decreases tag@.len() - i,
    {
        input.push(tag[i]);
        i = i + 1;
    }
    let le = le_bytes_of(root_id as u64);
    let mut j: usize = 0;
    while j < 8
        invariant
            j <= 8,
            le@ == le_bytes(root_id as u64),
            input@ == tag@ + le@.subrange(0, j as int),
        decreases 8 - j,
    {
        input.push(le[j]);
        j = j + 1;
    }
    assert(input@ =~= remote_root_input(root_id));
    let sub_hash = blake3_hash(input.as_slice());
    let mut sub = [0u8; 16];
    let mut k: usize = 0;
    while k < 16
        invariant
            k <= 16,
            sub@.len() == 16,
            sub_hash@ == blake3_digest(remote_root_input(root_id)),
            forall|m: int| 0 <= m < k ==> sub@[m] == sub_hash@[m],
        decreases 16 - k,
    {
        sub[k] = sub_hash[k];
        k = k + 1;
    }
    assert(sub@ =~= sub_hash@.subrange(0, 16));
    let path_hash = blake3_hash(rel_path.as_bytes());
    let ino = le_u64_of(&path_hash);
    FileKey { sub_id: SubId(sub), ino }
}

/// Phase of the initial scan.
#[derive(Clone, Copy, Debug, PartialEq, Eq, Structural)]
pub enum ScanPhase {
    /// Metadata-only walk.
    A,
    /// Group by size.
    B,
    Done,
}

pub open spec fn scan_phase_name(p: ScanPhase) -> Seq<char> {
    match p {
        ScanPhase::A => "a"@,
        ScanPhase::B => "b"@,
        ScanPhase::Done => "done"@,
    }
}

impl ScanPhase {
    pub fn as_str(self) -> (r: &'static str)
        ensures
            r@ == scan_phase_name(self),
    {
        match self {
            ScanPhase::A => "a",
            ScanPhase::B => "b",
            ScanPhase::Done => "done",
        }
    }

    pub const ALL: [ScanPhase; 3] = [ScanPhase::A, ScanPhase::B, ScanPhase::Done];

    pub fn from_str(s: &str) -> (r: Result<ScanPhase, ParseEnumError>)
        ensures
            r matches Ok(p) ==> scan_phase_name(p) == s@,
            r is Err <==> (forall|p: ScanPhase| scan_phase_name(p) != s@),
    {
        let want = chars_of(s);
        if seq_eq(&chars_of("a"), &want) {
            assert(scan_phase_name(ScanPhase::A) == s@);
            return Ok(ScanPhase::A);
        }
        if seq_eq(&chars_of("b"), &want) {
            assert(scan_phase_name(ScanPhase::B) == s@);
            return Ok(ScanPhase::B);
        }
        if seq_eq(&chars_of("done"), &want) {
            assert(scan_phase_name(ScanPhase::Done) == s@);
            return Ok(ScanPhase::Done);
        }
        Err(ParseEnumError { kind: "ScanPhase", value: s.to_owned() })
    }
}

/// State of a multi-step operation in `dedup_journal`.
#[derive(Clone, Copy, Debug, PartialEq, Eq, Structural)]
pub enum JournalState {
    /// Intent recorded, no file touched yet.
    Planned,
    /// Bytes compared, not cloned yet.
    Compared,
    /// `FICLONE` has been called; written durably before the ioctl.
    Cloned,
    /// Finished, metadata restored.
    Done,
    /// Given up; the destination file is intact.
    Aborted,
}

pub open spec fn journal_state_name(j: JournalState) -> Seq<char> {
    match j {
        JournalState::Planned => "planned"@,
        JournalState::Compared => "compared"@,
        JournalState::Cloned => "cloned"@,
        JournalState::Done => "done"@,
        JournalState::Aborted => "aborted"@,
    }
}

impl JournalState {
    pub fn as_str(self) -> (r: &'static str)
        ensures
            r@ == journal_state_name(self),
    {
        match self {
            JournalState::Planned => "planned",
            JournalState::Compared => "compared",
            JournalState::Cloned => "cloned",
            JournalState::Done => "done",
            JournalState::Aborted => "aborted",
        }
    }

    /// Closed: nothing to recover at boot.
    pub fn is_closed(self) -> (r: bool)
        ensures
            r == (self == JournalState::Done || self == JournalState::Aborted),
    {
        matches!(self, JournalState::Done | JournalState::Aborted)
    }

    pub const ALL: [JournalState; 5] = [
        JournalState::Planned,
        JournalState::Compared,
        JournalState::Cloned,
        JournalState::Done,
        JournalState::Aborted,
    ];

    pub fn from_str(s: &str) -> (r: Result<JournalState, ParseEnumError>)
        ensures
            r matches Ok(j) ==> journal_state_name(j) == s@,
            r is Err <==> (forall|j: JournalState| journal_state_name(j) != s@),
    {
        let want = chars_of(s);
        let mut i: usize = 0;
        while i < 5
            invariant
                want@ == s@,
                i <= 5,
                forall|k: int| 0 <= k < i ==> journal_state_name(#[trigger] JournalState::ALL@[k])
                    != s@,
            decreases 5 - i,
        {
            let j = JournalState::ALL[i];
            let name = chars_of(j.as_str());
            if seq_eq(&name, &want) {
                return Ok(j);
            }
            i = i + 1;
        }
        proof {
            assert forall|j: JournalState| journal_state_name(j) != s@ by {
                let k: int = match j {
                    JournalState::Planned => 0,
                    JournalState::Compared => 1,
                    JournalState::Cloned => 2,
                    JournalState::Done => 3,
                    JournalState::Aborted => 4,
                };
                assert(JournalState::ALL@[k] == j);
            }
        }
        Err(ParseEnumError { kind: "JournalState", value: s.to_owned() })
    }
}

/// One row of the `scan_progress` table.
#[derive(Debug, PartialEq, Eq)]
pub struct ScanProgress {
    pub root_id: i64,
    pub phase: ScanPhase,
    pub last_completed_dir: Option<String>,
    pub started_at: Option<Ts>,
    pub finished_at: Option<Ts>,
    /// Start time of the latest completed delta reconcile.
    pub last_reconcile_done: Option<Ts>,
    pub last_presence_scan: Option<Ts>,
}

impl Clone for ScanProgress {
    fn clone(&self) -> (r: Self)
        ensures
            r == *self,
    {
        ScanProgress {
            root_id: self.root_id,
            phase: self.phase,
            last_completed_dir: clone_opt_string(&self.last_completed_dir),
            started_at: self.started_at,
            finished_at: self.finished_at,
            last_reconcile_done: self.last_reconcile_done,
            last_presence_scan: self.last_presence_scan,
        }
    }
}

} // verus!
