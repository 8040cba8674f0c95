//! The pre-filter: rules that cost no I/O (except the opt-out marker, asked
//! last), run on every filesystem event and during scans. The rules run from
//! the cheapest to the dearest.

use vstd::prelude::*;

use crate::config::{strs, Config};
use crate::fs::FileSystem;
use crate::model::FileLoc;
use crate::path::{comp_views, components, components_of, dir_part, dir_part_of, extension, extension_of, file_name, file_name_of};
use crate::text::{ascii_lower, lower_char, lower_seq, starts_with, str_eq, string_of};

use super::temp_names::{la_ten_tam, temp_name};

verus! {

#[verifier::external_type_specification]
#[verifier::external_body]
pub struct ExGlob(globset::Glob);

#[verifier::external_type_specification]
#[verifier::external_body]
pub struct ExGlobSetBuilder(globset::GlobSetBuilder);

#[verifier::external_type_specification]
#[verifier::external_body]
pub struct ExGlobSet(globset::GlobSet);

#[verifier::external_type_specification]
#[verifier::external_body]
pub struct ExGlobError(globset::Error);

/// Whether `globset::Glob::new` accepts the pattern.
pub uninterp spec fn glob_parses(pattern: Seq<char>) -> bool;

/// The pattern a `Glob` was built from (what `Glob::glob` returns).
pub uninterp spec fn glob_pattern(g: globset::Glob) -> Seq<char>;

/// The patterns added to a builder, in order.
pub uninterp spec fn builder_patterns(b: globset::GlobSetBuilder) -> Seq<Seq<char>>;

/// The patterns a set was built from, in order.
pub uninterp spec fn set_patterns(s: globset::GlobSet) -> Seq<Seq<char>>;

/// Whether a set of the globs `patterns` matches `path` (what
/// `GlobSet::is_match` answers).
pub uninterp spec fn globs_match(patterns: Seq<Seq<char>>, path: Seq<char>) -> bool;

/// Calls `globset::Glob::new(pattern)`. Claimed: it succeeds exactly when the
/// pattern parses, and the glob keeps the pattern (`Glob::glob` returns it).
#[verifier::external_body]
fn glob_new(pattern: &str) -> (r: Result<globset::Glob, globset::Error>)
    ensures
        r is Ok <==> glob_parses(pattern@),
        r matches Ok(g) ==> glob_pattern(g) == pattern@,
{
    globset::Glob::new(pattern)
}

/// Calls `globset::GlobSetBuilder::new()`. Claimed: the builder holds no glob.
#[verifier::external_body]
fn builder_new() -> (r: globset::GlobSetBuilder)
    ensures
        builder_patterns(r) == Seq::<Seq<char>>::empty(),
{
    globset::GlobSetBuilder::new()
}

/// Calls `globset::GlobSetBuilder::add`. Claimed: the glob is appended to the
/// builder's list.
#[verifier::external_body]
fn builder_add(b: &mut globset::GlobSetBuilder, g: globset::Glob)
    ensures
        builder_patterns(*final(b)) == builder_patterns(*old(b)).push(glob_pattern(g)),
{
    b.add(g);
}

/// Calls `globset::GlobSetBuilder::build`. Claimed: a built set holds the
/// builder's globs, and a builder without globs always builds (the empty
/// set). When the build of a non-empty builder fails (the compiled automaton
/// is too large) is not stated.
#[verifier::external_body]
fn builder_build(b: &globset::GlobSetBuilder) -> (r: Result<globset::GlobSet, globset::Error>)
    ensures
        r matches Ok(s) ==> set_patterns(s) == builder_patterns(*b),
        builder_patterns(*b).len() == 0 ==> r is Ok,
{
    b.build()
}

/// Calls `globset::GlobSet::is_match` on a relative path. Claimed: the answer
/// depends on the set's globs and the path alone.
#[verifier::external_body]
fn globset_is_match(s: &globset::GlobSet, path: &str) -> (r: bool)
    ensures
        r == globs_match(set_patterns(*s), path@),
{
    s.is_match(path)
}

/// The text of a `globset::Error` (its `Display`). Nothing is stated of it.
#[verifier::external_body]
fn glob_error_text(e: &globset::Error) -> String {
    format!("{e}")
}

/// Why a file is ruled out from the start.
#[derive(Debug, PartialEq, Eq)]
pub enum Reject {
    /// A path component is an excluded directory.
    ThuMucLoaiTru(String),
    /// The name is a temporary file of a sync tool.
    FileTam,
    /// The extension is not in `video_extensions`.
    KhongPhaiVideo,
    /// Smaller than `min_size`.
    QuaNho { size: u64, min: u64 },
    /// Matches a glob of `exclude_globs`.
    KhopGlob,
    /// A parent directory has an opt-out marker.
    NguoiDungTatDedup,
}

impl Clone for Reject {
    fn clone(&self) -> (r: Self)
        ensures
            r == *self,
    {
        match self {
            Reject::ThuMucLoaiTru(s) => Reject::ThuMucLoaiTru(s.clone()),
            Reject::FileTam => Reject::FileTam,
            Reject::KhongPhaiVideo => Reject::KhongPhaiVideo,
            Reject::QuaNho { size, min } => Reject::QuaNho { size: *size, min: *min },
            Reject::KhopGlob => Reject::KhopGlob,
            Reject::NguoiDungTatDedup => Reject::NguoiDungTatDedup,
        }
    }
}

pub open spec fn reject_label(r: Reject) -> Seq<char> {
    match r {
        Reject::ThuMucLoaiTru(_) => "thư mục loại trừ"@,
        Reject::FileTam => "file tạm của công cụ đồng bộ"@,
        Reject::KhongPhaiVideo => "không phải phần mở rộng video"@,
        Reject::QuaNho { .. } => "nhỏ hơn min_size"@,
        Reject::KhopGlob => "khớp exclude_globs"@,
        Reject::NguoiDungTatDedup => "thư mục có marker tắt dedup"@,
    }
}

impl Reject {
    /// A short label for logs and the CLI.
    pub fn as_str(&self) -> (r: &'static str)
        ensures
            r@ == reject_label(*self),
    {
        match self {
            Reject::ThuMucLoaiTru(_) => "thư mục loại trừ",
            Reject::FileTam => "file tạm của công cụ đồng bộ",
            Reject::KhongPhaiVideo => "không phải phần mở rộng video",
            Reject::QuaNho { .. } => "nhỏ hơn min_size",
            Reject::KhopGlob => "khớp exclude_globs",
            Reject::NguoiDungTatDedup => "thư mục có marker tắt dedup",
        }
    }
}

/// Error building the filter from the configuration.
#[derive(Debug)]
pub enum PrefilterError {
    GlobSai { mau: String, loi: String },
}

impl PrefilterError {
    /// The text of the error.
    pub fn message(&self) -> (r: String)
        ensures
            match self {
                PrefilterError::GlobSai { mau, loi } => r@ == "exclude_globs: mẫu "@ + crate::text::str_debug(mau@)
                    + " không hợp lệ: "@ + loi@,
            },
    {
        match self {
            PrefilterError::GlobSai { mau, loi } => {
                let q = crate::text::debug_quoted(mau.as_str());
                let a = crate::text::concat_str("exclude_globs: mẫu ", q.as_str());
                let b = crate::text::concat_str(a.as_str(), " không hợp lệ: ");
                crate::text::concat_str(b.as_str(), loi.as_str())
            },
        }
    }
}

/// The compiled filter.
pub struct Prefilter {
    /// Excluded directory names, compared whole.
    pub exclude_dirs: Vec<String>,
    /// Entries of `exclude_dirs` that end in `*`, without the stars: compared
    /// as prefixes (`.Trash-*` matches `.Trash-1000`).
    pub exclude_prefixes: Vec<String>,
    /// Lower-case, without the leading dots.
    pub video_extensions: Vec<String>,
    pub globs: globset::GlobSet,
    pub min_size: u64,
}

/// The component `c` is an excluded directory.
pub open spec fn excluded_dir(c: Seq<char>, exact: Seq<Seq<char>>, prefixes: Seq<Seq<char>>) -> bool {
    exact.contains(c) || exists|j: int| 0 <= j < prefixes.len() && starts_with(c, #[trigger] prefixes[j])
}

/// Index of the first excluded component of `cs` from `i`, or -1.
pub open spec fn first_excluded(cs: Seq<Seq<char>>, exact: Seq<Seq<char>>, prefixes: Seq<Seq<char>>, i: int) -> int
    decreases cs.len() - i,
{
    if i < 0 || i >= cs.len() {
        -1
    } else if excluded_dir(cs[i], exact, prefixes) {
        i
    } else {
        first_excluded(cs, exact, prefixes, i + 1)
    }
}

proof fn lemma_first_excluded(cs: Seq<Seq<char>>, exact: Seq<Seq<char>>, prefixes: Seq<Seq<char>>, i: int)
    requires
        0 <= i <= cs.len(),
    ensures
        -1 <= first_excluded(cs, exact, prefixes, i) < cs.len(),
    decreases cs.len() - i,
{
    if i < cs.len() {
        lemma_first_excluded(cs, exact, prefixes, i + 1);
    }
}

/// The file name of a path, empty when it has none.
pub open spec fn name_text(p: Seq<char>) -> Seq<char> {
    match file_name(p) {
        Some(n) => n,
        None => Seq::empty(),
    }
}

/// What the four pure rules and the globs say of a path and a size, given
/// whether the globs match it.
pub open spec fn path_verdict(
    exact: Seq<Seq<char>>,
    prefixes: Seq<Seq<char>>,
    exts: Seq<Seq<char>>,
    min_size: u64,
    glob_hit: bool,
    p: Seq<char>,
    size: u64,
) -> Option<Reject> {
    let cs = components(p);
    let k = first_excluded(cs, exact, prefixes, 0);
    if k >= 0 {
        Some(Reject::ThuMucLoaiTru(arbitrary()))
    } else if temp_name(name_text(p)) {
        Some(Reject::FileTam)
    } else if !(extension(p) matches Some(e) && exts.contains(lower_seq(e))) {
        Some(Reject::KhongPhaiVideo)
    } else if size < min_size {
        Some(Reject::QuaNho { size, min: min_size })
    } else if glob_hit {
        Some(Reject::KhopGlob)
    } else {
        None
    }
}

/// `r` is the verdict `v`, where an excluded-directory verdict carries the
/// name of the first excluded component of `p`.
pub open spec fn verdict_is(r: Option<Reject>, v: Option<Reject>, exact: Seq<Seq<char>>, prefixes: Seq<Seq<char>>, p: Seq<char>) -> bool {
    match v {
        Some(Reject::ThuMucLoaiTru(_)) => r matches Some(Reject::ThuMucLoaiTru(n)) && n@ == components(p)[first_excluded(components(p), exact, prefixes, 0)],
        _ => r == v,
    }
}

fn contains_str(v: &Vec<String>, s: &Vec<char>) -> (r: bool)
    ensures
        r == strs(v@).contains(s@),
{
    let ghost sv = strs(v@);
    let mut i: usize = 0;
    while i < v.len()
        invariant
            i <= v@.len(),
            sv == strs(v@),
            forall|k: int| 0 <= k < i ==> sv[k] != s@,
        decreases v@.len() - i,
    {
        let c = crate::text::chars_of(v[i].as_str());
        if crate::text::seq_eq(&c, s) {
            assert(sv[i as int] == s@);
            return true;
        }
        i = i + 1;
    }
    false
}

fn starts_with_chars(s: &Vec<char>, p: &Vec<char>) -> (r: bool)
    ensures
        r == starts_with(s@, p@),
{
    if p.len() > s.len() {
        return false;
    }
    let mut i: usize = 0;
    while i < p.len()
        invariant
            p@.len() <= s@.len(),
            i <= p@.len(),
            forall|k: int| 0 <= k < i ==> s@[k] == p@[k],
        decreases p@.len() - i,
    {
        if s[i] != p[i] {
            return false;
        }
        i = i + 1;
    }
    assert(s@.subrange(0, p@.len() as int) =~= p@);
    true
}

fn any_prefix(prefixes: &Vec<String>, c: &Vec<char>) -> (r: bool)
    ensures
        r == exists|j: int| 0 <= j < strs(prefixes@).len() && starts_with(c@, #[trigger] strs(prefixes@)[j]),
{
    let ghost pv = strs(prefixes@);
    let mut i: usize = 0;
    while i < prefixes.len()
        invariant
            i <= prefixes@.len(),
            pv == strs(prefixes@),
            forall|k: int| 0 <= k < i ==> !starts_with(c@, #[trigger] pv[k]),
        decreases prefixes@.len() - i,
    {
        let p = crate::text::chars_of(prefixes[i].as_str());
        if starts_with_chars(c, &p) {
            assert(starts_with(c@, pv[i as int]));
            return true;
        }
        i = i + 1;
    }
    false
}

fn lower_vec(v: &Vec<char>) -> (r: Vec<char>)
    ensures
        r@ == lower_seq(v@),
{
    let mut out: Vec<char> = Vec::new();
    let mut i: usize = 0;
    while i < v.len()
        invariant
            i <= v@.len(),
            out@ == lower_seq(v@.subrange(0, i as int)),
        decreases v@.len() - i,
    {
        out.push(lower_char(v[i]));
        assert(out@ =~= lower_seq(v@.subrange(0, i + 1)));
        i = i + 1;
    }
    assert(v@.subrange(0, v@.len() as int) =~= v@);
    out
}

impl Prefilter {
    /// The excluded names, the prefixes and the extensions as character sequences.
    pub open spec fn exact_view(&self) -> Seq<Seq<char>> {
        strs(self.exclude_dirs@)
    }

    pub open spec fn prefix_view(&self) -> Seq<Seq<char>> {
        strs(self.exclude_prefixes@)
    }

    pub open spec fn ext_view(&self) -> Seq<Seq<char>> {
        strs(self.video_extensions@)
    }

    /// The four pure rules on the path and the size, then the globs; no I/O.
    /// Used by scans, where the size is known from the walk.
    pub fn check_path(&self, rel_path: &str, size: u64) -> (r: Option<Reject>)
        ensures
            verdict_is(
                r,
                path_verdict(self.exact_view(), self.prefix_view(), self.ext_view(), self.min_size,
                    globs_match(set_patterns(self.globs), rel_path@), rel_path@, size),
                self.exact_view(),
                self.prefix_view(),
                rel_path@,
            ),
    {
        let cs = components_of(rel_path);
        let ghost cv = comp_views(cs@);
        proof {
            lemma_first_excluded(cv, self.exact_view(), self.prefix_view(), 0);
        }
        let mut i: usize = 0;
        while i < cs.len()
            invariant
                i <= cs@.len(),
                cv == comp_views(cs@),
                cv == components(rel_path@),
                first_excluded(cv, self.exact_view(), self.prefix_view(), 0) == first_excluded(cv, self.exact_view(), self.prefix_view(), i as int),
            decreases cs@.len() - i,
        {
            assert(cv[i as int] == cs@[i as int]@);
            if contains_str(&self.exclude_dirs, &cs[i]) || any_prefix(&self.exclude_prefixes, &cs[i]) {
                return Some(Reject::ThuMucLoaiTru(string_of(&cs[i])));
            }
            i = i + 1;
        }
        let ten = match file_name_of(rel_path) {
            Some(v) => string_of(&v),
            None => String::new(),
        };
        if la_ten_tam(ten.as_str()) {
            return Some(Reject::FileTam);
        }
        let hop_le = match extension_of(rel_path) {
            Some(e) => {
                let low = lower_vec(&e);
                contains_str(&self.video_extensions, &low)
            },
            None => false,
        };
        if !hop_le {
            return Some(Reject::KhongPhaiVideo);
        }
        if size < self.min_size {
            return Some(Reject::QuaNho { size, min: self.min_size });
        }
        if globset_is_match(&self.globs, rel_path) {
            return Some(Reject::KhopGlob);
        }
        None
    }

    /// All six rules: the pure ones first, then the opt-out marker of the
    /// directory and its parents (the only rule that may touch the disk).
    pub fn check<F: FileSystem>(&self, fs: &F, loc: &FileLoc, size: u64) -> (r: Option<Reject>)
        ensures
            ({
                let v = path_verdict(self.exact_view(), self.prefix_view(), self.ext_view(), self.min_size,
                    globs_match(set_patterns(self.globs), loc.rel_path@), loc.rel_path@, size);
                if v is Some {
                    verdict_is(r, v, self.exact_view(), self.prefix_view(), loc.rel_path@)
                } else {
                    r is None || r == Some(Reject::NguoiDungTatDedup)
                }
            }),
    {
        match self.check_path(loc.rel_path.as_str(), size) {
            Some(r) => {
                return Some(r);
            },
            None => {},
        }
        let dir = dir_part_of(loc.rel_path.as_str());
        if fs.has_optout_marker(loc.root_id, dir.as_str()) {
            return Some(Reject::NguoiDungTatDedup);
        }
        None
    }

    /// Compiles the filter from a validated configuration: the globs of
    /// `exclude_globs`, the effective excluded directories split into exact
    /// names and `*`-prefixes, and the extensions lower-cased without dots.
    pub fn from_config(cfg: &Config) -> (r: Result<Prefilter, PrefilterError>)
        ensures
            r matches Ok(p) ==> set_patterns(p.globs) == strs(cfg.watch.exclude_globs@) && p.min_size == cfg.watch.min_size.0
                && p.exact_view() == exact_dirs(cfg.effective_dirs()) && p.prefix_view() == prefix_dirs(cfg.effective_dirs())
                && p.ext_view() == ext_norm_all(cfg.watch.video_extensions@),
            (forall|k: int| 0 <= k < cfg.watch.exclude_globs@.len() ==> glob_parses(#[trigger] cfg.watch.exclude_globs@[k]@)) || r is Err,
            (exists|k: int| 0 <= k < cfg.watch.exclude_globs@.len() && !glob_parses(#[trigger] cfg.watch.exclude_globs@[k]@)) ==> (r matches Err(PrefilterError::GlobSai { mau, .. })
                && exists|k: int| 0 <= k < cfg.watch.exclude_globs@.len() && #[trigger] cfg.watch.exclude_globs@[k]@ == mau@ && !glob_parses(mau@)
                    && forall|j: int| 0 <= j < k ==> glob_parses(#[trigger] cfg.watch.exclude_globs@[j]@)),
            cfg.watch.exclude_globs@.len() == 0 ==> r is Ok,
    {
        let mut b = builder_new();
        let mut i: usize = 0;
        while i < cfg.watch.exclude_globs.len()
            invariant
                i <= cfg.watch.exclude_globs@.len(),
                builder_patterns(b) == strs(cfg.watch.exclude_globs@.subrange(0, i as int)),
                forall|k: int| 0 <= k < i ==> glob_parses(#[trigger] cfg.watch.exclude_globs@[k]@),
            decreases cfg.watch.exclude_globs@.len() - i,
        {
            let mau = &cfg.watch.exclude_globs[i];
            match glob_new(mau.as_str()) {
                Ok(g) => {
                    builder_add(&mut b, g);
                    assert(strs(cfg.watch.exclude_globs@.subrange(0, i + 1)) =~= strs(cfg.watch.exclude_globs@.subrange(0, i as int)).push(mau@));
                },
                Err(e) => {
                    return Err(PrefilterError::GlobSai { mau: mau.clone(), loi: glob_error_text(&e) });
                },
            }
            i = i + 1;
        }
        assert(cfg.watch.exclude_globs@.subrange(0, cfg.watch.exclude_globs@.len() as int) =~= cfg.watch.exclude_globs@);
        let globs = match builder_build(&b) {
            Ok(s) => s,
            Err(e) => {
                return Err(PrefilterError::GlobSai { mau: "<tập hợp>".to_owned(), loi: glob_error_text(&e) });
            },
        };
        let dirs = cfg.effective_exclude_dirs();
        let ghost dv = strs(dirs@);
        let mut exact: Vec<String> = Vec::new();
        let mut prefixes: Vec<String> = Vec::new();
        let mut j: usize = 0;
        while j < dirs.len()
            invariant
                j <= dirs@.len(),
                dv == strs(dirs@),
                strs(exact@) == exact_dirs(dv.subrange(0, j as int)),
                strs(prefixes@) == prefix_dirs(dv.subrange(0, j as int)),
            decreases dirs@.len() - j,
        {
            let d = crate::text::chars_of(dirs[j].as_str());
            proof {
                assert(dv.subrange(0, j + 1).drop_last() =~= dv.subrange(0, j as int));
                assert(dv.subrange(0, j + 1).last() == d@);
            }
            if d.len() > 0 && d[d.len() - 1] == '*' {
                let mut n = d.len();
                assert(d@.subrange(0, n as int) =~= d@);
                while n > 0 && d[n - 1] == '*'
                    invariant
                        n <= d@.len(),
                        trim_stars(d@) == trim_stars(d@.subrange(0, n as int)),
                    decreases n,
                {
                    assert(d@.subrange(0, n as int).drop_last() =~= d@.subrange(0, n - 1));
                    n = n - 1;
                }
                let ghost t = d@.subrange(0, n as int);
                assert(!ends_star(t));
                if n > 0 {
                    let mut p = String::new();
                    let mut k: usize = 0;
                    while k < n
                        invariant
                            k <= n,
                            n <= d@.len(),
                            p@ == d@.subrange(0, k as int),
                        decreases n - k,
                    {
                        p.push(d[k]);
                        assert(p@ =~= d@.subrange(0, k + 1));
                        k = k + 1;
                    }
                    let ghost before = prefixes@;
                    prefixes.push(p);
                    assert(strs(prefixes@) =~= strs(before).push(t));
                }
            } else {
                let ghost before = exact@;
                exact.push(dirs[j].clone());
                assert(strs(exact@) =~= strs(before).push(d@));
            }
            j = j + 1;
        }
        assert(dv.subrange(0, dv.len() as int) =~= dv);
        let mut exts: Vec<String> = Vec::new();
        let mut m: usize = 0;
        while m < cfg.watch.video_extensions.len()
            invariant
                m <= cfg.watch.video_extensions@.len(),
                strs(exts@) == ext_norm_all(cfg.watch.video_extensions@.subrange(0, m as int)),
            decreases cfg.watch.video_extensions@.len() - m,
        {
            let e = crate::text::chars_of(cfg.watch.video_extensions[m].as_str());
            let t = trim_dots_vec(&e);
            let low = lower_vec(&t);
            let ns = string_of(&low);
            let ghost before = exts@;
            exts.push(ns);
            proof {
                let src = cfg.watch.video_extensions@;
                assert(strs(exts@) =~= strs(before).push(ns@));
                assert(ext_norm_all(src.subrange(0, m + 1)) =~= ext_norm_all(src.subrange(0, m as int)).push(lower_seq(trim_dots(src[m as int]@))));
            }
            m = m + 1;
        }
        assert(cfg.watch.video_extensions@.subrange(0, cfg.watch.video_extensions@.len() as int) =~= cfg.watch.video_extensions@);
        Ok(Prefilter { exclude_dirs: exact, exclude_prefixes: prefixes, video_extensions: exts, globs, min_size: cfg.watch.min_size.0 })
    }
}

/// The entry ends with `*`: a prefix pattern.
pub open spec fn ends_star(d: Seq<char>) -> bool {
    d.len() > 0 && d.last() == '*'
}

/// `d` without its trailing stars.
pub open spec fn trim_stars(d: Seq<char>) -> Seq<char>
    decreases d.len(),
{
    if ends_star(d) {
        trim_stars(d.drop_last())
    } else {
        d
    }
}

/// The excluded names compared whole: the entries that do not end with `*`.
pub open spec fn exact_dirs(ds: Seq<Seq<char>>) -> Seq<Seq<char>>
    decreases ds.len(),
{
    if ds.len() == 0 {
        ds
    } else if ends_star(ds.last()) {
        exact_dirs(ds.drop_last())
    } else {
        exact_dirs(ds.drop_last()).push(ds.last())
    }
}

/// The prefixes: the entries that end with `*`, without the stars, except
/// those left empty.
pub open spec fn prefix_dirs(ds: Seq<Seq<char>>) -> Seq<Seq<char>>
    decreases ds.len(),
{
    if ds.len() == 0 {
        ds
    } else if ends_star(ds.last()) && trim_stars(ds.last()).len() > 0 {
        prefix_dirs(ds.drop_last()).push(trim_stars(ds.last()))
    } else {
        prefix_dirs(ds.drop_last())
    }
}

/// The configured extensions, without leading dots, lower-cased.
pub open spec fn ext_norm_all(v: Seq<String>) -> Seq<Seq<char>> {
    v.map_values(|s: String| lower_seq(trim_dots(s@)))
}

/// `s` without its leading dots.
pub open spec fn trim_dots(s: Seq<char>) -> Seq<char>
    decreases s.len(),
{
    if s.len() > 0 && s[0] == '.' {
        trim_dots(s.subrange(1, s.len() as int))
    } else {
        s
    }
}

fn trim_dots_vec(v: &Vec<char>) -> (r: Vec<char>)
    ensures
        r@ == trim_dots(v@),
{
    let mut i: usize = 0;
    assert(v@.subrange(0, v@.len() as int) =~= v@);
    while i < v.len() && v[i] == '.'
        invariant
            i <= v@.len(),
            trim_dots(v@) == trim_dots(v@.subrange(i as int, v@.len() as int)),
        decreases v@.len() - i,
    {
        let ghost t = v@.subrange(i as int, v@.len() as int);
        assert(t.subrange(1, t.len() as int) =~= v@.subrange(i + 1, v@.len() as int));
        i = i + 1;
    }
    let mut out: Vec<char> = Vec::new();
    let start = i;
    while i < v.len()
        invariant
            start <= i <= v@.len(),
            out@ == v@.subrange(start as int, i as int),
        decreases v@.len() - i,
    {
        out.push(v[i]);
        assert(out@ =~= v@.subrange(start as int, i + 1));
        i = i + 1;
    }
    proof {
        let t = v@.subrange(start as int, v@.len() as int);
        if t.len() > 0 {
            assert(t[0] == v@[start as int]);
        }
    }
    out
}

} // verus!
