//! Filesystem abstraction: reading at absolute offsets, opened files with
//! their identity at open time, and the operations the pipeline needs.
//! `MemoryFs` is an in-memory filesystem for tests; the real ones live
//! outside the library.

use vstd::prelude::*;

use crate::model::{DomainId, FileKey, FileLoc, Identity, RootKind, SubId};
use crate::path::{path_starts_with, starts_with_path};
use vstd::string::StringSliceAdditionalSpecFns;

verus! {

/// The kind of an I/O error, as far as the library tells them apart.
#[derive(Clone, Copy, Debug, PartialEq, Eq, Structural)]
pub enum IoErrorKind {
    NotFound,
    UnexpectedEof,
    InvalidInput,
    PermissionDenied,
    Other,
    /// An error known only by its OS error number.
    Os(i32),
}

/// Error of a filesystem operation.
#[derive(Debug, PartialEq, Eq)]
pub enum FsError {
    NotFound(String),
    NotRegular(String),
    UnknownRoot(i64),
    /// Refused at the lowest level: a remote root is never written.
    ReadOnlyRoot(i64),
    Unsupported(&'static str),
    Io(IoErrorKind),
}

/// What `std::io::Error` prints for an error made of a kind alone.
pub open spec fn io_kind_text(k: IoErrorKind) -> Seq<char> {
    match k {
        IoErrorKind::NotFound => "entity not found"@,
        IoErrorKind::UnexpectedEof => "unexpected end of file"@,
        IoErrorKind::InvalidInput => "invalid input parameter"@,
        IoErrorKind::PermissionDenied => "permission denied"@,
        IoErrorKind::Other => "other error"@,
        IoErrorKind::Os(n) => "os error "@ + crate::config::parse::int_chars(n as int),
    }
}

/// The text of a filesystem error.
pub open spec fn fs_message(e: FsError) -> Seq<char> {
    match e {
        FsError::NotFound(p) => "không tìm thấy: "@ + p@,
        FsError::NotRegular(p) => "không phải file thường: "@ + p@,
        FsError::UnknownRoot(id) => "root "@ + crate::config::parse::int_chars(id as int) + " chưa được đăng ký"@,
        FsError::ReadOnlyRoot(id) => "root "@ + crate::config::parse::int_chars(id as int) + " là remote (chỉ đọc): daemon không ghi lên máy khác"@,
        FsError::Unsupported(s) => "thao tác không được hỗ trợ trên nền tảng này: "@ + s@,
        FsError::Io(k) => io_kind_text(k),
    }
}

impl FsError {
    /// The text of the error.
    pub fn message(&self) -> (r: String)
        ensures
            r@ == fs_message(*self),
    {
        match self {
            FsError::NotFound(p) => crate::text::concat_str("không tìm thấy: ", p.as_str()),
            FsError::NotRegular(p) => crate::text::concat_str("không phải file thường: ", p.as_str()),
            FsError::UnknownRoot(id) => crate::repo::memory::message_with_number("root ", *id, " chưa được đăng ký"),
            FsError::ReadOnlyRoot(id) => crate::repo::memory::message_with_number(
                "root ",
                *id,
                " là remote (chỉ đọc): daemon không ghi lên máy khác",
            ),
            FsError::Unsupported(s) => crate::text::concat_str("thao tác không được hỗ trợ trên nền tảng này: ", s),
            FsError::Io(k) => match k {
                IoErrorKind::NotFound => "entity not found".to_owned(),
                IoErrorKind::UnexpectedEof => "unexpected end of file".to_owned(),
                IoErrorKind::InvalidInput => "invalid input parameter".to_owned(),
                IoErrorKind::PermissionDenied => "permission denied".to_owned(),
                IoErrorKind::Other => "other error".to_owned(),
                IoErrorKind::Os(n) => {
                    let m = crate::repo::memory::message_with_number("os error ", *n as i64, "");
                    proof {
                        reveal_strlit("");
                        assert(m@ =~= "os error "@ + crate::config::parse::int_chars(*n as int));
                    }
                    m
                },
            },
        }
    }

    /// The file is gone.
    pub fn is_not_found(&self) -> (r: bool)
        ensures
            r == (self is NotFound || *self == FsError::Io(IoErrorKind::NotFound)),
    {
        match self {
            FsError::NotFound(_) => true,
            FsError::Io(k) => *k == IoErrorKind::NotFound,
            _ => false,
        }
    }
}

/// Reading at an absolute offset, without moving any file position.
pub trait ReadAt {
    /// The bytes of the file as this handle reads them. A handle written
    /// outside verified code (a real file) keeps this empty default: nothing
    /// is then known of its bytes, and its reads are not held to the promise
    /// below.
    open spec fn content(&self) -> Seq<u8> {
        Seq::empty()
    }

    /// Fills `buf` with the bytes at offset `off`.
    fn read_exact_at(&self, buf: &mut Vec<u8>, off: u64) -> (r: Result<(), FsError>)
        ensures
            r is Ok ==> off + old(buf)@.len() <= self.content().len() && final(buf)@
                == self.content().subrange(off as int, off + old(buf)@.len()),
    ;

    /// Size of the file when it was opened.
    fn len(&self) -> u64;
}

/// An opened file with its identity at open time.
pub trait OpenedFile: ReadAt {
    /// `fstat` at open time.
    fn identity(&self) -> &Identity;

    /// `fstat` again on the same descriptor.
    fn refresh_identity(&self) -> Result<Identity, FsError>;

    /// Whether the file has a hole (`SEEK_HOLE < size`): a sign of an unfinished upload.
    fn has_hole(&self) -> Result<bool, FsError>;

    /// Extent fast path: `Some(bytes)` when both files already share all
    /// their extents, `None` when nothing can be concluded.
    fn already_shared_with(&self, other: &Self) -> Result<Option<u64>, FsError>;
}

/// Opening files and reading metadata by location.
pub trait FileSystem {
    type File: OpenedFile;

    /// Opens read-only, without following symlinks or leaving the root.
    fn open(&self, loc: &FileLoc) -> Result<Self::File, FsError>;

    /// The root `root_id` is remote: nothing on it is opened for writing.
    open spec fn remote_root(&self, root_id: i64) -> bool {
        false
    }

    /// Opens read-write; refused on a remote root.
    fn open_rw(&self, loc: &FileLoc) -> (r: Result<Self::File, FsError>)
        ensures
            self.remote_root(loc.root_id) ==> (r matches Err(FsError::ReadOnlyRoot(id)) && id == loc.root_id),
    ;

    /// `statx` without opening the file.
    fn statx(&self, loc: &FileLoc) -> Result<Identity, FsError>;

    /// Whether the directory, or any parent up to the root, holds an opt-out marker.
    fn has_optout_marker(&self, root_id: i64, rel_dir: &str) -> bool;
}

/// Copies `data[start..start + buf.len()]` into `buf`.
fn copy_range(buf: &mut Vec<u8>, data: &Vec<u8>, start: usize)
    requires
        start + old(buf)@.len() <= data@.len(),
    ensures
        final(buf)@ == data@.subrange(start as int, start + old(buf)@.len()),
{
    let n = buf.len();
    let mut i: usize = 0;
    while i < n
        invariant
            n == buf@.len(),
            n == old(buf)@.len(),
            start + n <= data.len(),
            i <= n,
            forall|k: int| 0 <= k < i ==> buf@[k] == data@[start + k],
        decreases n - i,
    {
        buf.set(i, data[start + i]);
        i = i + 1;
    }
    assert(buf@ =~= data@.subrange(start as int, start + n));
}

/// Reads `buf.len()` bytes of `data` at `off`, or reports why it cannot.
pub fn read_slice_at(data: &Vec<u8>, buf: &mut Vec<u8>, off: u64) -> (r: Result<(), FsError>)
    ensures
        match r {
            Ok(()) => off + old(buf)@.len() <= data@.len() && final(buf)@ == data@.subrange(
                off as int,
                off + old(buf)@.len(),
            ),
            Err(e) => e == FsError::Io(IoErrorKind::UnexpectedEof) && off + old(buf)@.len()
                > data@.len() && final(buf)@ == old(buf)@,
        },
{
    if off > data.len() as u64 {
        return Err(FsError::Io(IoErrorKind::UnexpectedEof));
    }
    let start = off as usize;
    if buf.len() > data.len() - start {
        return Err(FsError::Io(IoErrorKind::UnexpectedEof));
    }
    copy_range(buf, data, start);
    Ok(())
}

/// A copy of a byte vector.
pub fn clone_bytes(v: &Vec<u8>) -> (r: Vec<u8>)
    ensures
        r@ == v@,
{
    let mut out: Vec<u8> = Vec::new();
    let mut i: usize = 0;
    while i < v.len()
        invariant
            i <= v@.len(),
            out@ == v@.subrange(0, i as int),
        decreases v@.len() - i,
    {
        out.push(v[i]);
        i = i + 1;
    }
    assert(out@ =~= v@);
    out
}

/// Contents and metadata of a file of `MemoryFs`.
#[derive(Debug)]
pub struct MemFile {
    pub data: Vec<u8>,
    pub identity: Identity,
    pub has_hole: bool,
}

/// The abstract file: its bytes, identity and whether it has a hole.
pub struct MemFileView {
    pub data: Seq<u8>,
    pub identity: Identity,
    pub has_hole: bool,
}

impl View for MemFile {
    type V = MemFileView;

    open spec fn view(&self) -> MemFileView {
        MemFileView { data: self.data@, identity: self.identity, has_hole: self.has_hole }
    }
}

impl Clone for MemFile {
    fn clone(&self) -> (r: Self)
        ensures
            r@ == self@,
    {
        MemFile { data: clone_bytes(&self.data), identity: self.identity, has_hole: self.has_hole }
    }
}

pub open spec fn zeros16() -> Seq<u8> {
    Seq::new(16, |i: int| 0u8)
}

pub open spec fn div_ceil_512(n: int) -> int {
    (n + 511) / 512
}

impl MemFile {
    /// A file with the given contents and a default identity.
    pub fn new(ino: u64, data: Vec<u8>) -> (r: Self)
        ensures
            r.data@ == data@,
            !r.has_hole,
            r.identity.key.sub_id.0@ == zeros16(),
            r.identity.key.ino == ino,
            r.identity.domain_id.0@ == zeros16(),
            r.identity.size == data@.len(),
            r.identity.mtime_ns == 1_000_000_000,
            r.identity.ctime_ns == 1_000_000_000,
            r.identity.atime_ns == 1_000_000_000,
            r.identity.nlink == 1,
            r.identity.uid == 1000,
            r.identity.mode == 0o100644,
            r.identity.blocks == div_ceil_512(data@.len() as int),
            r.identity.dev == 1,
    {
        let size = data.len() as u64;
        let blocks = size / 512 + if size % 512 == 0 {
            0
        } else {
            1
        };
        assert(blocks == div_ceil_512(size as int)) by (nonlinear_arith)
            requires
                blocks == size / 512 + if size % 512 == 0 {
                    0int
                } else {
                    1int
                },
        ;
        let z1 = [0u8; 16];
        let z2 = [0u8; 16];
        assert(z1@ =~= zeros16());
        assert(z2@ =~= zeros16());
        MemFile {
            data,
            identity: Identity {
                key: FileKey { sub_id: SubId(z1), ino },
                domain_id: DomainId(z2),
                size,
                mtime_ns: 1_000_000_000,
                ctime_ns: 1_000_000_000,
                atime_ns: 1_000_000_000,
                nlink: 1,
                uid: 1000,
                mode: 0o100644,
                blocks,
                dev: 1,
            },
            has_hole: false,
        }
    }
}

/// A file opened in `MemoryFs`: the contents and identity at open time, and
/// the identity the filesystem held then, which `refresh_identity` reports.
#[derive(Debug)]
pub struct MemOpened {
    pub data: Vec<u8>,
    pub identity: Identity,
    pub has_hole: bool,
    pub live: Identity,
}

impl ReadAt for MemOpened {
    open spec fn content(&self) -> Seq<u8> {
        self.data@
    }

    fn read_exact_at(&self, buf: &mut Vec<u8>, off: u64) -> (r: Result<(), FsError>)
        ensures
            match r {
                Ok(()) => off + old(buf)@.len() <= self.data@.len() && final(buf)@
                    == self.data@.subrange(off as int, off + old(buf)@.len()),
                Err(e) => e == FsError::Io(IoErrorKind::UnexpectedEof),
            },
    {
        read_slice_at(&self.data, buf, off)
    }

    fn len(&self) -> (r: u64)
        ensures
            r == self.identity.size,
    {
        self.identity.size
    }
}

impl OpenedFile for MemOpened {
    fn identity(&self) -> (r: &Identity)
        ensures
            *r == self.identity,
    {
        &self.identity
    }

    fn refresh_identity(&self) -> (r: Result<Identity, FsError>)
        ensures
            r == Ok::<Identity, FsError>(self.live),
    {
        Ok(self.live)
    }

    fn has_hole(&self) -> (r: Result<bool, FsError>)
        ensures
            r == Ok::<bool, FsError>(self.has_hole),
    {
        Ok(self.has_hole)
    }

    fn already_shared_with(&self, other: &Self) -> (r: Result<Option<u64>, FsError>)
        ensures
            r == Ok::<Option<u64>, FsError>(None),
    {
        Ok(None)
    }
}

/// The file held at `key`: the last entry stored under it.
pub open spec fn lookup(files: Seq<(FileLoc, MemFile)>, key: (i64, Seq<char>)) -> Option<MemFileView>
    decreases files.len(),
{
    if files.len() == 0 {
        None
    } else if files.last().0@ == key {
        Some(files.last().1@)
    } else {
        lookup(files.drop_last(), key)
    }
}

/// Entries not stored under `key`.
pub open spec fn without(files: Seq<(FileLoc, MemFile)>, key: (i64, Seq<char>)) -> Seq<(FileLoc, MemFile)>
    decreases files.len(),
{
    if files.len() == 0 {
        files
    } else if files.last().0@ == key {
        without(files.drop_last(), key)
    } else {
        without(files.drop_last(), key).push(files.last())
    }
}

proof fn lemma_without(files: Seq<(FileLoc, MemFile)>, key: (i64, Seq<char>), other: (i64, Seq<char>))
    ensures
        lookup(without(files, key), key) is None,
        other != key ==> lookup(without(files, key), other) == lookup(files, other),
    decreases files.len(),
{
    if files.len() > 0 {
        lemma_without(files.drop_last(), key, other);
        if files.last().0@ != key {
            assert(without(files, key).drop_last() =~= without(files.drop_last(), key));
        }
    }
}

/// An in-memory filesystem for tests.
#[derive(Debug)]
pub struct MemoryFs {
    files: Vec<(FileLoc, MemFile)>,
    optout_dirs: Vec<(i64, String)>,
    remote_roots: Vec<i64>,
}

/// The abstract filesystem: files by location, opt-out directories, remote roots.
pub struct MemoryFsView {
    pub files: Seq<(FileLoc, MemFile)>,
    pub optout_dirs: Seq<(i64, Seq<char>)>,
    pub remote_roots: Seq<i64>,
}

pub open spec fn optout_views(v: Seq<(i64, String)>) -> Seq<(i64, Seq<char>)> {
    v.map_values(|e: (i64, String)| (e.0, e.1@))
}

impl View for MemoryFs {
    type V = MemoryFsView;

    closed spec fn view(&self) -> MemoryFsView {
        MemoryFsView {
            files: self.files@,
            optout_dirs: optout_views(self.optout_dirs@),
            remote_roots: self.remote_roots@,
        }
    }
}

/// The directory, or one of its parents, is marked on that root.
pub open spec fn optout_spec(dirs: Seq<(i64, Seq<char>)>, root_id: i64, rel_dir: Seq<char>) -> bool {
    exists|k: int|
        0 <= k < dirs.len() && (#[trigger] dirs[k]).0 == root_id && path_starts_with(
            rel_dir,
            dirs[k].1,
        )
}

impl MemoryFs {
    pub fn new() -> (r: Self)
        ensures
            r@.files.len() == 0,
            r@.optout_dirs.len() == 0,
            r@.remote_roots.len() == 0,
    {
        MemoryFs { files: Vec::new(), optout_dirs: Vec::new(), remote_roots: Vec::new() }
    }

    /// Marks a root as remote.
    pub fn add_remote_root(&mut self, root_id: i64)
        ensures
            final(self)@.remote_roots == old(self)@.remote_roots.push(root_id),
            final(self)@.files == old(self)@.files,
            final(self)@.optout_dirs == old(self)@.optout_dirs,
    {
        self.remote_roots.push(root_id);
    }

    fn is_remote(&self, root_id: i64) -> (r: bool)
        ensures
            r == self@.remote_roots.contains(root_id),
    {
        let mut i: usize = 0;
        while i < self.remote_roots.len()
            invariant
                i <= self.remote_roots@.len(),
                forall|k: int| 0 <= k < i ==> self.remote_roots@[k] != root_id,
            decreases self.remote_roots@.len() - i,
        {
            if self.remote_roots[i] == root_id {
                assert(self.remote_roots@[i as int] == root_id);
                return true;
            }
            i = i + 1;
        }
        false
    }

    /// Adds or replaces a file.
    pub fn insert(&mut self, loc: FileLoc, file: MemFile)
        ensures
            lookup(final(self)@.files, loc@) == Some(file@),
            forall|k: (i64, Seq<char>)| k != loc@ ==> lookup(final(self)@.files, k) == lookup(
                old(self)@.files,
                k,
            ),
            final(self)@.optout_dirs == old(self)@.optout_dirs,
            final(self)@.remote_roots == old(self)@.remote_roots,
    {
        let ghost before = self.files@;
        self.files.push((loc, file));
        assert(self.files@.drop_last() =~= before);
    }

    /// Removes a file (the filesystem then answers "not found" for it).
    pub fn remove(&mut self, loc: &FileLoc)
        ensures
            lookup(final(self)@.files, loc@) is None,
            forall|k: (i64, Seq<char>)| k != loc@ ==> lookup(final(self)@.files, k) == lookup(
                old(self)@.files,
                k,
            ),
            final(self)@.optout_dirs == old(self)@.optout_dirs,
            final(self)@.remote_roots == old(self)@.remote_roots,
    {
        let mut rest: Vec<(FileLoc, MemFile)> = Vec::new();
        core::mem::swap(&mut rest, &mut self.files);
        let ghost before = rest@;
        let mut kept: Vec<(FileLoc, MemFile)> = Vec::new();
        let ghost mut i: int = 0;
        while rest.len() > 0
            invariant
                0 <= i <= before.len(),
                rest@ == before.subrange(i, before.len() as int),
                kept@ == without(before.subrange(0, i), loc@),
            decreases rest@.len(),
        {
            let e = rest.remove(0);
            proof {
                assert(e == before[i]);
                let pre = before.subrange(0, i + 1);
                assert(pre.drop_last() =~= before.subrange(0, i));
                assert(pre.last() == e);
                i = i + 1;
                assert(rest@ =~= before.subrange(i, before.len() as int));
            }
            if !e.0.same_as(loc) {
                kept.push(e);
            }
        }
        assert(before.subrange(0, before.len() as int) =~= before);
        self.files = kept;
        proof {
            assert forall|k: (i64, Seq<char>)| k != loc@ implies lookup(self.files@, k) == lookup(
                before,
                k,
            ) by {
                lemma_without(before, loc@, k);
            }
            lemma_without(before, loc@, loc@);
        }
    }

    /// The file at `loc`, copied.
    fn get(&self, loc: &FileLoc) -> (r: Result<MemFile, FsError>)
        ensures
            match lookup(self@.files, loc@) {
                Some(f) => r matches Ok(g) && g@ == f,
                None => r matches Err(FsError::NotFound(p)) && p@ == loc.rel_path@,
            },
    {
        let ghost all = self.files@;
        let mut i: usize = self.files.len();
        assert(all.subrange(0, i as int) =~= all);
        while i > 0 && !self.files[i - 1].0.same_as(loc)
            invariant
                i <= self.files@.len(),
                all == self.files@,
                lookup(all, loc@) == lookup(all.subrange(0, i as int), loc@),
            decreases i,
        {
            assert(all.subrange(0, i as int).drop_last() =~= all.subrange(0, i - 1));
            i = i - 1;
        }
        if i == 0 {
            return Err(FsError::NotFound(loc.rel_path.clone()));
        }
        assert(all.subrange(0, i as int).last() == all[i - 1]);
        Ok(self.files[i - 1].1.clone())
    }

    /// Changes the times of a file in place, as if it were written while
    /// being processed; a missing file is left missing.
    pub fn touch(&mut self, loc: &FileLoc, mtime_ns: i64, ctime_ns: i64)
        ensures
            match lookup(old(self)@.files, loc@) {
                Some(f) => lookup(final(self)@.files, loc@) == Some(
                    MemFileView {
                        identity: Identity { mtime_ns, ctime_ns, ..f.identity },
                        ..f
                    },
                ),
                None => lookup(final(self)@.files, loc@) is None,
            },
            forall|k: (i64, Seq<char>)| k != loc@ ==> lookup(final(self)@.files, k) == lookup(
                old(self)@.files,
                k,
            ),
            final(self)@.optout_dirs == old(self)@.optout_dirs,
            final(self)@.remote_roots == old(self)@.remote_roots,
    {
        match self.get(loc) {
            Ok(mut f) => {
                f.identity.mtime_ns = mtime_ns;
                f.identity.ctime_ns = ctime_ns;
                self.insert(loc.clone(), f);
            },
            Err(_) => {},
        }
    }

    /// Marks a directory as opted out on a root.
    pub fn add_optout(&mut self, root_id: i64, dir: &str)
        ensures
            final(self)@.optout_dirs == old(self)@.optout_dirs.push((root_id, dir@)),
            final(self)@.files == old(self)@.files,
            final(self)@.remote_roots == old(self)@.remote_roots,
    {
        let ghost before = self.optout_dirs@;
        self.optout_dirs.push((root_id, dir.to_owned()));
        assert(optout_views(self.optout_dirs@) =~= optout_views(before).push((root_id, dir@)));
    }
}

impl FileSystem for MemoryFs {
    open spec fn remote_root(&self, root_id: i64) -> bool {
        self@.remote_roots.contains(root_id)
    }

    type File = MemOpened;

    fn open(&self, loc: &FileLoc) -> (r: Result<MemOpened, FsError>)
        ensures
            match lookup(self@.files, loc@) {
                Some(f) => r matches Ok(o) && o.data@ == f.data && o.identity == f.identity
                    && o.live == f.identity && o.has_hole == f.has_hole,
                None => r matches Err(FsError::NotFound(p)) && p@ == loc.rel_path@,
            },
    {
        let f = self.get(loc)?;
        Ok(MemOpened { data: f.data, identity: f.identity, has_hole: f.has_hole, live: f.identity })
    }

    fn open_rw(&self, loc: &FileLoc) -> (r: Result<MemOpened, FsError>)
        ensures
            self@.remote_roots.contains(loc.root_id) ==> r == Err::<MemOpened, FsError>(
                FsError::ReadOnlyRoot(loc.root_id),
            ),
            !self@.remote_roots.contains(loc.root_id) ==> match lookup(self@.files, loc@) {
                Some(f) => r matches Ok(o) && o.data@ == f.data && o.identity == f.identity
                    && o.live == f.identity && o.has_hole == f.has_hole,
                None => r matches Err(FsError::NotFound(p)) && p@ == loc.rel_path@,
            },
    {
        if self.is_remote(loc.root_id) {
            return Err(FsError::ReadOnlyRoot(loc.root_id));
        }
        self.open(loc)
    }

    fn statx(&self, loc: &FileLoc) -> (r: Result<Identity, FsError>)
        ensures
            match lookup(self@.files, loc@) {
                Some(f) => r == Ok::<Identity, FsError>(f.identity),
                None => r matches Err(FsError::NotFound(p)) && p@ == loc.rel_path@,
            },
    {
        let f = self.get(loc)?;
        Ok(f.identity)
    }

    fn has_optout_marker(&self, root_id: i64, rel_dir: &str) -> (r: bool)
        ensures
            r == optout_spec(self@.optout_dirs, root_id, rel_dir@),
    {
        let ghost dirs = optout_views(self.optout_dirs@);
        let mut i: usize = 0;
        while i < self.optout_dirs.len()
            invariant
                i <= self.optout_dirs@.len(),
                dirs == optout_views(self.optout_dirs@),
                forall|k: int|
                    0 <= k < i ==> !((#[trigger] dirs[k]).0 == root_id && path_starts_with(
                        rel_dir@,
                        dirs[k].1,
                    )),
            decreases self.optout_dirs@.len() - i,
        {
            assert(dirs[i as int] == (self.optout_dirs@[i as int].0, self.optout_dirs@[i as int].1@));
            if self.optout_dirs[i].0 == root_id && starts_with_path(
                rel_dir,
                self.optout_dirs[i].1.as_str(),
            ) {
                return true;
            }
            i = i + 1;
        }
        false
    }
}


/// `Path::join`: an absolute `name` replaces `base`, otherwise they are
/// joined by one `/`.
pub open spec fn path_join(base: Seq<char>, name: Seq<char>) -> Seq<char> {
    if name.len() > 0 && name[0] == '/' {
        name
    } else if base.len() == 0 {
        name
    } else if base.last() == '/' {
        base + name
    } else {
        base + seq!['/'] + name
    }
}

pub fn join_path(base: &str, name: &str) -> (r: String)
    ensures
        r@ == path_join(base@, name@),
{
    let nv = crate::text::chars_of(name);
    if nv.len() > 0 && nv[0] == '/' {
        return crate::text::string_of(&nv);
    }
    let mut out = crate::text::chars_of(base);
    if out.len() > 0 && out[out.len() - 1] != '/' {
        out.push('/');
    }
    let ghost head = out@;
    let mut k: usize = 0;
    while k < nv.len()
        invariant
            k <= nv@.len(),
            nv@ == name@,
            out@ == head + nv@.subrange(0, k as int),
        decreases nv@.len() - k,
    {
        out.push(nv[k]);
        k = k + 1;
    }
    assert(nv@.subrange(0, nv@.len() as int) =~= nv@);
    proof {
        if base@.len() > 0 && base@.last() != '/' {
            assert(head =~= base@ + seq!['/']);
        }
        if base@.len() == 0 {
            assert(head =~= Seq::<char>::empty());
            assert(out@ =~= name@);
        }
    }
    crate::text::string_of(&out)
}

/// The last root registered under `root_id`.
pub open spec fn root_lookup(roots: Seq<(i64, Seq<char>)>, root_id: i64) -> Option<Seq<char>>
    decreases roots.len(),
{
    if roots.len() == 0 {
        None
    } else if roots.last().0 == root_id {
        Some(roots.last().1)
    } else {
        root_lookup(roots.drop_last(), root_id)
    }
}

/// The roots and their kinds of the filesystem backed by `std::fs`; the
/// library keeps its pure part, the reads themselves are made outside.
#[derive(Debug)]
pub struct StdFs {
    roots: Vec<(i64, String)>,
    kinds: Vec<(i64, RootKind)>,
}

/// Registered roots, and the roots marked remote.
pub struct StdFsView {
    pub roots: Seq<(i64, Seq<char>)>,
    pub remote: Seq<i64>,
}

impl View for StdFs {
    type V = StdFsView;

    closed spec fn view(&self) -> StdFsView {
        StdFsView {
            roots: optout_views(self.roots@),
            remote: self.kinds@.map_values(|e: (i64, RootKind)| e.0),
        }
    }
}

impl StdFs {
    /// A filesystem with the given roots, all local.
    pub fn new(roots: Vec<(i64, String)>) -> (r: Self)
        ensures
            r@.roots == optout_views(roots@),
            r@.remote.len() == 0,
    {
        let r = StdFs { roots, kinds: Vec::new() };
        assert(r@.remote =~= Seq::<i64>::empty());
        r
    }

    /// Marks a root as remote: every `open_rw` on it is refused.
    pub fn with_remote_root(self, root_id: i64) -> (r: Self)
        ensures
            r@.roots == self@.roots,
            r@.remote == self@.remote.push(root_id),
    {
        let mut s = self;
        let ghost before = s.kinds@;
        s.kinds.push((root_id, RootKind::Remote));
        assert(s.kinds@.map_values(|e: (i64, RootKind)| e.0) =~= before.map_values(
            |e: (i64, RootKind)| e.0,
        ).push(root_id));
        s
    }

    /// The kind of a root; an unmarked root is local.
    pub fn kind_of(&self, root_id: i64) -> (r: RootKind)
        ensures
            r == (if self@.remote.contains(root_id) {
                RootKind::Remote
            } else {
                RootKind::Local
            }),
    {
        let ghost ids = self.kinds@.map_values(|e: (i64, RootKind)| e.0);
        let mut i: usize = 0;
        while i < self.kinds.len()
            invariant
                i <= self.kinds@.len(),
                ids == self.kinds@.map_values(|e: (i64, RootKind)| e.0),
                forall|k: int| 0 <= k < i ==> ids[k] != root_id,
            decreases self.kinds@.len() - i,
        {
            if self.kinds[i].0 == root_id {
                assert(ids[i as int] == root_id);
                return RootKind::Remote;
            }
            i = i + 1;
        }
        RootKind::Local
    }

    /// The path of a registered root.
    pub fn root_path(&self, root_id: i64) -> (r: Option<String>)
        ensures
            match root_lookup(self@.roots, root_id) {
                Some(p) => r matches Some(s) && s@ == p,
                None => r is None,
            },
    {
        let ghost all = optout_views(self.roots@);
        let mut i: usize = self.roots.len();
        assert(all.subrange(0, i as int) =~= all);
        while i > 0 && self.roots[i - 1].0 != root_id
            invariant
                i <= self.roots@.len(),
                all == optout_views(self.roots@),
                root_lookup(all, root_id) == root_lookup(all.subrange(0, i as int), root_id),
            decreases i,
        {
            assert(all.subrange(0, i as int).drop_last() =~= all.subrange(0, i - 1));
            assert(all[i - 1] == (self.roots@[i - 1].0, self.roots@[i - 1].1@));
            i = i - 1;
        }
        if i == 0 {
            return None;
        }
        assert(all.subrange(0, i as int).last() == all[i - 1]);
        assert(all[i - 1] == (self.roots@[i - 1].0, self.roots@[i - 1].1@));
        Some(self.roots[i - 1].1.clone())
    }

    /// The absolute path of a location: its root joined with the relative path.
    pub fn abs(&self, loc: &FileLoc) -> (r: Result<String, FsError>)
        ensures
            match root_lookup(self@.roots, loc.root_id) {
                Some(p) => r matches Ok(s) && s@ == path_join(p, loc.rel_path@),
                None => r == Err::<String, FsError>(FsError::UnknownRoot(loc.root_id)),
            },
    {
        match self.root_path(loc.root_id) {
            Some(root) => Ok(join_path(root.as_str(), loc.rel_path.as_str())),
            None => Err(FsError::UnknownRoot(loc.root_id)),
        }
    }

    /// Whether a read-write open is allowed on the root of `loc`; the error
    /// names the root otherwise.
    pub fn check_writable(&self, loc: &FileLoc) -> (r: Result<(), FsError>)
        ensures
            self@.remote.contains(loc.root_id) ==> r == Err::<(), FsError>(
                FsError::ReadOnlyRoot(loc.root_id),
            ),
            !self@.remote.contains(loc.root_id) ==> r == Ok::<(), FsError>(()),
    {
        if !self.kind_of(loc.root_id).is_writable() {
            return Err(FsError::ReadOnlyRoot(loc.root_id));
        }
        Ok(())
    }

    /// For one file: its parent directory is root 0 and the location is its
    /// name (`.` when it has none).
    pub fn for_single_file(path: &str) -> (r: (Self, FileLoc))
        ensures
            r.0@.roots == seq![(0i64, parent_dir(path@))],
            r.0@.remote.len() == 0,
            r.1.root_id == 0,
            r.1.rel_path@ == match crate::path::file_name(path@) {
                Some(n) => n,
                None => seq!['.'],
            },
    {
        let parent = parent_dir_of(path);
        let name: String = match crate::path::file_name_of(path) {
            Some(n) => crate::text::string_of(&n),
            None => ".".to_owned(),
        };
        proof {
            reveal_strlit(".");
        }
        let mut roots: Vec<(i64, String)> = Vec::new();
        roots.push((0, parent));
        let fs = StdFs::new(roots);
        assert(optout_views(roots@) =~= seq![(0i64, parent_dir(path@))]);
        (fs, FileLoc { root_id: 0, rel_path: name })
    }
}

/// The error of a failed system call on `path`: "not found" names the path,
/// any other kind is kept as it is.
pub fn error_at(kind: IoErrorKind, path: &str) -> (r: FsError)
    ensures
        kind == IoErrorKind::NotFound ==> (r matches FsError::NotFound(p) && p@ == path@),
        kind != IoErrorKind::NotFound ==> r == FsError::Io(kind),
{
    match kind {
        IoErrorKind::NotFound => FsError::NotFound(path.to_owned()),
        _ => FsError::Io(kind),
    }
}

/// Key given to a file of `StdFs`, which has no stable inode: sub-id zero
/// and the first eight bytes of the BLAKE3 digest of its absolute path, read
/// little-endian.
pub fn synthetic_key(path: &str) -> (k: FileKey)
    ensures
        k.sub_id.0@ == zeros16(),
        k.ino == crate::model::le_u64(crate::digest::blake3_digest(path.spec_bytes())),
{
    let h = crate::digest::blake3_hash(path.as_bytes());
    let ino = crate::model::le_u64_of(&h);
    let z = [0u8; 16];
    assert(z@ =~= zeros16());
    FileKey { sub_id: SubId(z), ino }
}

/// The directory that holds `p`: what precedes its last `/`, the root itself
/// when that is the leading `/`, and `.` for a bare name.
pub open spec fn parent_dir(p: Seq<char>) -> Seq<char> {
    let d = crate::path::last_slash(p, p.len() as int);
    if d < 0 {
        seq!['.']
    } else if d == 0 {
        seq!['/']
    } else {
        p.subrange(0, d)
    }
}

pub fn parent_dir_of(p: &str) -> (r: String)
    ensures
        r@ == parent_dir(p@),
{
    let d = crate::path::dir_part_of(p);
    if d.unicode_len() > 0 {
        return d;
    }
    let cs = crate::text::chars_of(p);
    let mut i: usize = 0;
    let mut has_slash = false;
    while i < cs.len()
        invariant
            i <= cs@.len(),
            cs@ == p@,
            has_slash == exists|k: int| 0 <= k < i && cs@[k] == '/',
        decreases cs@.len() - i,
    {
        if cs[i] == '/' {
            has_slash = true;
        }
        i = i + 1;
    }
    proof {
        crate::path::lemma_last_slash_range(p@, p@.len() as int);
        reveal_strlit("/");
        reveal_strlit(".");
        let dd = crate::path::last_slash(p@, p@.len() as int);
        if has_slash {
            let k = choose|k: int| 0 <= k < p@.len() && cs@[k] == '/';
            assert(p@[k] == '/');
            assert(dd != -1);
            assert(dd == 0);
        } else {
            assert(forall|k: int| 0 <= k < p@.len() ==> p@[k] != '/');
        }
    }
    if has_slash {
        "/".to_owned()
    } else {
        ".".to_owned()
    }
}

} // verus!
