//! The configuration file and its pure checks.
//!
//! Paths are POSIX strings: the configuration always describes paths on the
//! NAS, whatever machine checks it.

pub mod parse;
pub mod presets;

use vstd::prelude::*;

use crate::path::{path_starts_with, starts_with_path};

use self::parse::ParseError;
use self::presets::{flavor_extra, merge_unique, views, NasFlavor, COMMON, DEFAULT_VIDEO_EXTENSIONS};

verus! {

/// Why a configuration is refused.
#[derive(Debug, PartialEq, Eq)]
pub enum ConfigError {
    NoRoots,
    NestedRoots { parent: String, child: String },
    RootNotAbsolute(String),
    AllowPathOutsideRoots(String),
    AllowPathOnRemoteRoot(String),
    BadWindow(String),
    BadValue { field: &'static str, source: ParseError },
    DedupWithoutAllowPaths,
    DedupWithoutLocalRoot,
    BadChunks(u32),
    BurstTooSmall { burst: u64 },
    BadMaxSizeGroup,
}

/// The text of a configuration error.
pub open spec fn config_message(e: ConfigError) -> Seq<char> {
    match e {
        ConfigError::NoRoots => "[watch] roots không được rỗng"@,
        ConfigError::NestedRoots { parent, child } => "root "@ + child@ + " nằm trong root "@ + parent@
            + ": các root không được lồng nhau"@,
        ConfigError::RootNotAbsolute(p) => "root phải là đường dẫn tuyệt đối: "@ + p@,
        ConfigError::AllowPathOutsideRoots(p) => "allow_paths "@ + p@ + " không nằm trong bất kỳ root nào"@,
        ConfigError::AllowPathOnRemoteRoot(p) => "allow_paths "@ + p@
            + " nằm trên root remote: daemon không bao giờ ghi lên máy khác"@,
        ConfigError::BadWindow(w) => "khung giờ không hợp lệ "@ + crate::text::str_debug(w@)
            + ": cần dạng \"HH:MM-HH:MM\""@,
        ConfigError::BadValue { field, source } => field@ + ": "@ + self::parse::parse_message(source),
        ConfigError::DedupWithoutAllowPaths => "mode = \"dedup\" nhưng allow_paths rỗng: sẽ không dedup gì cả"@,
        ConfigError::DedupWithoutLocalRoot => "mode = \"dedup\" nhưng không có root cục bộ: root remote chỉ báo cáo được"@,
        ConfigError::BadChunks(n) => "[hash] chunks phải trong khoảng 2..=64, nhận "@ + self::parse::dec_chars(
            n as nat,
        ),
        ConfigError::BurstTooSmall { burst } => "[io] read_burst ("@ + self::parse::dec_chars(burst as nat)
            + " B) phải ≥ 16 MiB để VerifiedClone không giữ lease quá lâu"@,
        ConfigError::BadMaxSizeGroup => "[policy] max_size_group phải ≥ 1"@,
    }
}

impl ConfigError {
    /// The text of the error.
    pub fn message(&self) -> (r: String)
        ensures
            r@ == config_message(*self),
    {
        match self {
            ConfigError::NoRoots => "[watch] roots không được rỗng".to_owned(),
            ConfigError::NestedRoots { parent, child } => {
                let a = crate::text::concat3("root ", child.as_str(), " nằm trong root ");
                crate::text::concat3(a.as_str(), parent.as_str(), ": các root không được lồng nhau")
            },
            ConfigError::RootNotAbsolute(p) => crate::text::concat_str("root phải là đường dẫn tuyệt đối: ", p.as_str()),
            ConfigError::AllowPathOutsideRoots(p) => crate::text::concat3(
                "allow_paths ",
                p.as_str(),
                " không nằm trong bất kỳ root nào",
            ),
            ConfigError::AllowPathOnRemoteRoot(p) => crate::text::concat3(
                "allow_paths ",
                p.as_str(),
                " nằm trên root remote: daemon không bao giờ ghi lên máy khác",
            ),
            ConfigError::BadWindow(w) => crate::text::concat3(
                "khung giờ không hợp lệ ",
                crate::text::debug_quoted(w.as_str()).as_str(),
                ": cần dạng \"HH:MM-HH:MM\"",
            ),
            ConfigError::BadValue { field, source } => crate::text::concat3(field, ": ", source.message().as_str()),
            ConfigError::DedupWithoutAllowPaths => "mode = \"dedup\" nhưng allow_paths rỗng: sẽ không dedup gì cả".to_owned(),
            ConfigError::DedupWithoutLocalRoot => "mode = \"dedup\" nhưng không có root cục bộ: root remote chỉ báo cáo được".to_owned(),
            ConfigError::BadChunks(n) => {
                let r = self::parse::with_u64("[hash] chunks phải trong khoảng 2..=64, nhận ", *n as u64, "");
                proof {
                    reveal_strlit("");
                    assert(r@ =~= "[hash] chunks phải trong khoảng 2..=64, nhận "@ + self::parse::dec_chars(*n as nat));
                }
                r
            },
            ConfigError::BurstTooSmall { burst } => self::parse::with_u64(
                "[io] read_burst (",
                *burst,
                " B) phải ≥ 16 MiB để VerifiedClone không giữ lease quá lâu",
            ),
            ConfigError::BadMaxSizeGroup => "[policy] max_size_group phải ≥ 1".to_owned(),
        }
    }
}

/// A size in bytes, written `"64MiB"` in the file.
#[derive(Clone, Copy, Debug, PartialEq, Eq, Structural, PartialOrd, Ord)]
pub struct ByteSize(pub u64);

/// A duration in milliseconds, written `"15m"` in the file.
#[derive(Clone, Copy, Debug, PartialEq, Eq, Structural, PartialOrd, Ord)]
pub struct DurationMs(pub i64);

/// `[general] mode`.
#[derive(Clone, Copy, Debug, Default, PartialEq, Eq, Structural)]
pub enum Mode {
    /// Runs the whole pipeline without changing the filesystem.
    #[default]
    Report,
    /// Acts inside `allow_paths` only.
    Dedup,
}

/// `[policy] scope`: where duplicate candidates are looked for.
#[derive(Clone, Copy, Debug, Default, PartialEq, Eq, Structural)]
pub enum ScopeCfg {
    #[default]
    Owner,
    Share,
    SameDomain,
}

/// `[policy] prefer_origin`: how the canonical file of a group is chosen.
#[derive(Clone, Copy, Debug, Default, PartialEq, Eq, Structural)]
pub enum PreferOrigin {
    #[default]
    Oldest,
}

/// `[watch] backend`.
#[derive(Clone, Copy, Debug, Default, PartialEq, Eq, Structural)]
pub enum WatchBackend {
    #[default]
    Auto,
    Inotify,
    Fanotify,
}

/// `[log] format`.
#[derive(Clone, Copy, Debug, Default, PartialEq, Eq, Structural)]
pub enum LogFormat {
    #[default]
    Text,
    Json,
}

/// `[log] paths`.
#[derive(Clone, Copy, Debug, Default, PartialEq, Eq, Structural)]
pub enum LogPaths {
    #[default]
    Full,
    Hashed,
}

/// `[policy] remote_verify`: how a pair with a remote side is confirmed.
#[derive(Clone, Copy, Debug, Default, PartialEq, Eq, Structural)]
pub enum RemoteVerify {
    /// Each file is read once and the full hashes are compared.
    #[default]
    HashOnly,
    /// Byte-for-byte comparison.
    Full,
}

/// A time window in minutes of the day, for example `01:00-06:00`; a window
/// may cross midnight.
#[derive(Clone, Copy, Debug, PartialEq, Eq, Structural)]
pub struct TimeWindow {
    pub start_min: u16,
    pub end_min: u16,
}

pub open spec fn window_contains(w: TimeWindow, min: int) -> bool {
    if w.start_min <= w.end_min {
        w.start_min <= min < w.end_min
    } else {
        min >= w.start_min || min < w.end_min
    }
}

impl TimeWindow {
    /// Whether minute `min` of the day lies in the window.
    pub fn contains(&self, min: u16) -> (r: bool)
        ensures
            r == window_contains(*self, min as int),
    {
        if self.start_min <= self.end_min {
            min >= self.start_min && min < self.end_min
        } else {
            min >= self.start_min || min < self.end_min
        }
    }
}

/// The characters of each string.
pub open spec fn strs(v: Seq<String>) -> Seq<Seq<char>> {
    v.map_values(|s: String| s@)
}

/// Absolute in the POSIX sense, whatever machine runs the check.
pub open spec fn is_posix_absolute(p: Seq<char>) -> bool {
    p.len() > 0 && p[0] == '/'
}

pub fn posix_absolute(p: &str) -> (r: bool)
    ensures
        r == is_posix_absolute(p@),
{
    let n = p.unicode_len();
    n > 0 && p.get_char(0) == '/'
}

/// `[general]`
#[derive(Debug, PartialEq, Eq)]
pub struct GeneralCfg {
    pub mode: Mode,
    pub allow_paths: Vec<String>,
    /// Whether report mode also compares bytes to measure false positives.
    pub report_verify: bool,
    pub state_dir: String,
    pub nas_flavor: NasFlavor,
}

impl GeneralCfg {
    pub open spec fn is_default(&self) -> bool {
        &&& self.mode == Mode::Report
        &&& self.allow_paths@.len() == 0
        &&& self.report_verify
        &&& self.state_dir@ == "/var/lib/nasdedup"@
        &&& self.nas_flavor == NasFlavor::Generic
    }
}

impl Default for GeneralCfg {
    fn default() -> (r: Self)
        ensures
            r.is_default(),
    {
        GeneralCfg {
            mode: Mode::Report,
            allow_paths: Vec::new(),
            report_verify: true,
            state_dir: "/var/lib/nasdedup".to_owned(),
            nas_flavor: NasFlavor::Generic,
        }
    }
}

/// A remote root: the CIFS/SMB mount point of another machine, scanned and
/// reported on, never written.
#[derive(Debug, PartialEq, Eq)]
pub struct RemoteRootCfg {
    pub path: String,
    pub label: Option<String>,
    pub windows_unc: Option<String>,
}

pub open spec fn remote_paths(v: Seq<RemoteRootCfg>) -> Seq<Seq<char>> {
    v.map_values(|r: RemoteRootCfg| r.path@)
}

/// `[watch]`
#[derive(Debug, PartialEq, Eq)]
pub struct WatchCfg {
    /// Local roots on the NAS: these can really be deduplicated.
    pub roots: Vec<String>,
    /// Remote roots: scanned and reported on only.
    pub remote_roots: Vec<RemoteRootCfg>,
    pub video_extensions: Vec<String>,
    /// Added to the preset of `nas_flavor`.
    pub exclude_dirs: Vec<String>,
    pub exclude_globs: Vec<String>,
    pub min_size: ByteSize,
    pub backend: WatchBackend,
    pub max_pending: u64,
    pub max_pending_per_uid: u64,
}

impl WatchCfg {
    pub open spec fn is_default(&self) -> bool {
        &&& self.roots@.len() == 0
        &&& self.remote_roots@.len() == 0
        &&& strs(self.video_extensions@) == views(DEFAULT_VIDEO_EXTENSIONS@)
        &&& self.exclude_dirs@.len() == 0
        &&& self.exclude_globs@.len() == 0
        &&& self.min_size.0 == 64 * 1024 * 1024
        &&& self.backend == WatchBackend::Auto
        &&& self.max_pending == 20_000
        &&& self.max_pending_per_uid == 500
    }
}

impl Default for WatchCfg {
    fn default() -> (r: Self)
        ensures
            r.is_default(),
    {
        let mut exts: Vec<String> = Vec::new();
        let mut i: usize = 0;
        while i < 18
            invariant
                i <= 18,
                strs(exts@) == views(DEFAULT_VIDEO_EXTENSIONS@).subrange(0, i as int),
            decreases 18 - i,
        {
            let ghost before = exts@;
            exts.push(DEFAULT_VIDEO_EXTENSIONS[i].to_owned());
            assert(strs(exts@) =~= strs(before).push(DEFAULT_VIDEO_EXTENSIONS@[i as int]@));
            assert(views(DEFAULT_VIDEO_EXTENSIONS@).subrange(0, i + 1) =~= views(
                DEFAULT_VIDEO_EXTENSIONS@,
            ).subrange(0, i as int).push(DEFAULT_VIDEO_EXTENSIONS@[i as int]@));
            i = i + 1;
        }
        assert(views(DEFAULT_VIDEO_EXTENSIONS@).subrange(0, 18) =~= views(
            DEFAULT_VIDEO_EXTENSIONS@,
        ));
        WatchCfg {
            roots: Vec::new(),
            remote_roots: Vec::new(),
            video_extensions: exts,
            exclude_dirs: Vec::new(),
            exclude_globs: Vec::new(),
            min_size: ByteSize(64 * 1024 * 1024),
            backend: WatchBackend::Auto,
            max_pending: 20_000,
            max_pending_per_uid: 500,
        }
    }
}

/// `[policy]`
#[derive(Debug, PartialEq, Eq)]
pub struct PolicyCfg {
    pub scope: ScopeCfg,
    pub prefer_origin: PreferOrigin,
    /// Most candidates or backfill rows per round.
    pub max_size_group: usize,
    /// 0 = no limit on the size of a verified file.
    pub verify_max_size: ByteSize,
    pub remote_verify: RemoteVerify,
}

impl PolicyCfg {
    pub open spec fn is_default(&self) -> bool {
        &&& self.scope == ScopeCfg::Owner
        &&& self.prefer_origin == PreferOrigin::Oldest
        &&& self.max_size_group == 50
        &&& self.verify_max_size.0 == 0
        &&& self.remote_verify == RemoteVerify::HashOnly
    }
}

impl Default for PolicyCfg {
    fn default() -> (r: Self)
        ensures
            r.is_default(),
    {
        PolicyCfg {
            scope: ScopeCfg::Owner,
            prefer_origin: PreferOrigin::Oldest,
            max_size_group: 50,
            verify_max_size: ByteSize(0),
            remote_verify: RemoteVerify::HashOnly,
        }
    }
}

/// `[timing]`
#[derive(Debug, PartialEq, Eq)]
pub struct TimingCfg {
    pub settle_delay: DurationMs,
    /// Empty = at any time.
    pub heavy_windows: Vec<TimeWindow>,
    pub timezone: String,
    pub reconcile_interval: DurationMs,
    pub presence_interval: DurationMs,
    pub max_wait: DurationMs,
    /// Remote roots have no watcher: they are only scanned periodically.
    pub remote_scan_interval: DurationMs,
    /// File contents on remote roots are read inside `heavy_windows` only.
    pub remote_heavy_only: bool,
}

impl TimingCfg {
    pub open spec fn is_default(&self) -> bool {
        &&& self.settle_delay.0 == 15 * 60 * 1000
        &&& self.heavy_windows@ == seq![TimeWindow { start_min: 60, end_min: 360 }]
        &&& self.timezone@ == "Asia/Ho_Chi_Minh"@
        &&& self.reconcile_interval.0 == 6 * 60 * 60 * 1000
        &&& self.presence_interval.0 == 7 * 24 * 60 * 60 * 1000
        &&& self.max_wait.0 == 6 * 60 * 60 * 1000
        &&& self.remote_scan_interval.0 == 60 * 60 * 1000
        &&& self.remote_heavy_only
    }
}

impl Default for TimingCfg {
    fn default() -> (r: Self)
        ensures
            r.is_default(),
    {
        let mut w: Vec<TimeWindow> = Vec::new();
        w.push(TimeWindow { start_min: 60, end_min: 360 });
        TimingCfg {
            settle_delay: DurationMs(15 * 60 * 1000),
            heavy_windows: w,
            timezone: "Asia/Ho_Chi_Minh".to_owned(),
            reconcile_interval: DurationMs(6 * 60 * 60 * 1000),
            presence_interval: DurationMs(7 * 24 * 60 * 60 * 1000),
            max_wait: DurationMs(6 * 60 * 60 * 1000),
            remote_scan_interval: DurationMs(60 * 60 * 1000),
            remote_heavy_only: true,
        }
    }
}

/// `[io]`
#[derive(Debug, PartialEq, Eq)]
pub struct IoCfg {
    /// Bytes per second on local roots.
    pub read_rate: ByteSize,
    pub read_burst: ByteSize,
    /// Bytes per second on remote roots: reads there use another machine's network.
    pub remote_read_rate: ByteSize,
    pub diskstats_interval: DurationMs,
    pub busy_threshold_pct: u8,
    pub busy_window: DurationMs,
    pub idle_threshold_pct: u8,
    pub idle_window: DurationMs,
    /// Overrides the detected devices, for example `["sda", "sdb"]`.
    pub throttle_devices: Vec<String>,
    pub hdd_standby_aware: bool,
}

impl IoCfg {
    pub open spec fn is_default(&self) -> bool {
        &&& self.read_rate.0 == 40 * 1024 * 1024
        &&& self.read_burst.0 == 64 * 1024 * 1024
        &&& self.remote_read_rate.0 == 20 * 1024 * 1024
        &&& self.diskstats_interval.0 == 2000
        &&& self.busy_threshold_pct == 30
        &&& self.busy_window.0 == 10_000
        &&& self.idle_threshold_pct == 10
        &&& self.idle_window.0 == 30_000
        &&& self.throttle_devices@.len() == 0
        &&& !self.hdd_standby_aware
    }
}

impl Default for IoCfg {
    fn default() -> (r: Self)
        ensures
            r.is_default(),
    {
        IoCfg {
            read_rate: ByteSize(40 * 1024 * 1024),
            read_burst: ByteSize(64 * 1024 * 1024),
            remote_read_rate: ByteSize(20 * 1024 * 1024),
            diskstats_interval: DurationMs(2000),
            busy_threshold_pct: 30,
            busy_window: DurationMs(10_000),
            idle_threshold_pct: 10,
            idle_window: DurationMs(30_000),
            throttle_devices: Vec::new(),
            hdd_standby_aware: false,
        }
    }
}

/// `[hash]`
#[derive(Debug, PartialEq, Eq)]
pub struct HashCfg {
    /// Changing this needs a database rebuild.
    pub chunks: u32,
    pub chunk_len: ByteSize,
    pub sample_secret: bool,
}

impl HashCfg {
    pub open spec fn is_default(&self) -> bool {
        &&& self.chunks == 16
        &&& self.chunk_len.0 == 1024 * 1024
        &&& !self.sample_secret
    }
}

impl Default for HashCfg {
    fn default() -> (r: Self)
        ensures
            r.is_default(),
    {
        HashCfg { chunks: 16, chunk_len: ByteSize(1024 * 1024), sample_secret: false }
    }
}

/// `[probe]`
#[derive(Debug, PartialEq, Eq)]
pub struct ProbeCfg {
    pub enabled: bool,
    /// Empty = in-process parser only.
    pub ffprobe_path: String,
    pub ffprobe_uid: String,
    pub timeout: DurationMs,
}

impl ProbeCfg {
    pub open spec fn is_default(&self) -> bool {
        &&& !self.enabled
        &&& self.ffprobe_path@.len() == 0
        &&& self.ffprobe_uid@ == "nobody"@
        &&& self.timeout.0 == 60_000
    }
}

impl Default for ProbeCfg {
    fn default() -> (r: Self)
        ensures
            r.is_default(),
    {
        ProbeCfg {
            enabled: false,
            ffprobe_path: String::new(),
            ffprobe_uid: "nobody".to_owned(),
            timeout: DurationMs(60_000),
        }
    }
}

/// `[db]`
#[derive(Debug, PartialEq, Eq)]
pub struct DbCfg {
    pub retention_days: u32,
}

impl Default for DbCfg {
    fn default() -> (r: Self)
        ensures
            r.retention_days == 365,
    {
        DbCfg { retention_days: 365 }
    }
}

/// `[log]`
#[derive(Debug, PartialEq, Eq)]
pub struct LogCfg {
    pub level: String,
    pub format: LogFormat,
    pub paths: LogPaths,
    pub file: String,
}

impl LogCfg {
    pub open spec fn is_default(&self) -> bool {
        &&& self.level@ == "info"@
        &&& self.format == LogFormat::Text
        &&& self.paths == LogPaths::Full
        &&& self.file@ == "/var/log/nasdedup/nasdedup.log"@
    }
}

impl Default for LogCfg {
    fn default() -> (r: Self)
        ensures
            r.is_default(),
    {
        LogCfg {
            level: "info".to_owned(),
            format: LogFormat::Text,
            paths: LogPaths::Full,
            file: "/var/log/nasdedup/nasdedup.log".to_owned(),
        }
    }
}

/// `[notify]`
#[derive(Debug, PartialEq, Eq)]
pub struct NotifyCfg {
    pub webhook_url: String,
    pub exec_hook: String,
    pub daily_digest: bool,
}

impl NotifyCfg {
    pub open spec fn is_default(&self) -> bool {
        &&& self.webhook_url@.len() == 0
        &&& self.exec_hook@.len() == 0
        &&& self.daily_digest
    }
}

impl Default for NotifyCfg {
    fn default() -> (r: Self)
        ensures
            r.is_default(),
    {
        NotifyCfg { webhook_url: String::new(), exec_hook: String::new(), daily_digest: true }
    }
}

/// The whole configuration file.
#[derive(Debug, PartialEq, Eq)]
pub struct Config {
    pub general: GeneralCfg,
    pub watch: WatchCfg,
    pub policy: PolicyCfg,
    pub timing: TimingCfg,
    pub io: IoCfg,
    pub hash: HashCfg,
    pub probe: ProbeCfg,
    pub db: DbCfg,
    pub log: LogCfg,
    pub notify: NotifyCfg,
}

impl Config {
    /// Every section holds its default values.
    pub open spec fn is_default(&self) -> bool {
        &&& self.general.is_default()
        &&& self.watch.is_default()
        &&& self.policy.is_default()
        &&& self.timing.is_default()
        &&& self.io.is_default()
        &&& self.hash.is_default()
        &&& self.probe.is_default()
        &&& self.db.retention_days == 365
        &&& self.log.is_default()
        &&& self.notify.is_default()
    }
}

impl Default for Config {
    fn default() -> (r: Self)
        ensures
            r.is_default(),
    {
        Config {
            general: GeneralCfg::default(),
            watch: WatchCfg::default(),
            policy: PolicyCfg::default(),
            timing: TimingCfg::default(),
            io: IoCfg::default(),
            hash: HashCfg::default(),
            probe: ProbeCfg::default(),
            db: DbCfg::default(),
            log: LogCfg::default(),
            notify: NotifyCfg::default(),
        }
    }
}


/// Every root, local then remote.
pub open spec fn all_roots(c: &Config) -> Seq<Seq<char>> {
    strs(c.watch.roots@) + remote_paths(c.watch.remote_roots@)
}

/// Index of the first root at or after `i` that is not absolute, or `all.len()`.
pub open spec fn first_relative(all: Seq<Seq<char>>, i: int) -> int
    decreases all.len() - i,
{
    if i < 0 || i >= all.len() {
        all.len() as int
    } else if !is_posix_absolute(all[i]) {
        i
    } else {
        first_relative(all, i + 1)
    }
}

/// Root `j` lies inside another root `i`.
pub open spec fn nests(all: Seq<Seq<char>>, i: int, j: int) -> bool {
    i != j && path_starts_with(all[j], all[i])
}

/// Index of the first root at or after `j` nested in root `i`, or `all.len()`.
pub open spec fn first_child(all: Seq<Seq<char>>, i: int, j: int) -> int
    decreases all.len() - j,
{
    if j < 0 || j >= all.len() {
        all.len() as int
    } else if nests(all, i, j) {
        j
    } else {
        first_child(all, i, j + 1)
    }
}

/// Index of the first root at or after `i` that holds another root, or `all.len()`.
pub open spec fn first_parent(all: Seq<Seq<char>>, i: int) -> int
    decreases all.len() - i,
{
    if i < 0 || i >= all.len() {
        all.len() as int
    } else if first_child(all, i, 0) < all.len() {
        i
    } else {
        first_parent(all, i + 1)
    }
}

/// `p` lies on one of `bases`.
pub open spec fn under_any(p: Seq<char>, bases: Seq<Seq<char>>) -> bool {
    exists|k: int| 0 <= k < bases.len() && path_starts_with(p, #[trigger] bases[k])
}

/// An allowed path that lies on a remote root or on no local root.
pub open spec fn allow_refused(c: &Config, p: Seq<char>) -> bool {
    under_any(p, remote_paths(c.watch.remote_roots@)) || !under_any(p, strs(c.watch.roots@))
}

/// Index of the first refused allowed path at or after `k`, or their count.
pub open spec fn first_refused_allow(c: &Config, k: int) -> int
    decreases c.general.allow_paths@.len() - k,
{
    let a = strs(c.general.allow_paths@);
    if k < 0 || k >= a.len() {
        a.len() as int
    } else if allow_refused(c, a[k]) {
        k
    } else {
        first_refused_allow(c, k + 1)
    }
}

/// What `validate` finds first, the indices pointing into `all_roots` or
/// into `allow_paths`.
pub enum Verdict {
    NoRoots,
    NotAbsolute(int),
    Nested(int, int),
    OnRemote(int),
    Outside(int),
    DedupNoAllow,
    DedupNoLocal,
    BadChunks,
    BadMaxSizeGroup,
    BurstTooSmall,
    Valid,
}

pub open spec fn verdict(c: &Config) -> Verdict {
    let all = all_roots(c);
    let allow = strs(c.general.allow_paths@);
    let k = first_refused_allow(c, 0);
    if c.watch.roots@.len() == 0 && c.watch.remote_roots@.len() == 0 {
        Verdict::NoRoots
    } else if first_relative(all, 0) < all.len() {
        Verdict::NotAbsolute(first_relative(all, 0))
    } else if first_parent(all, 0) < all.len() {
        Verdict::Nested(first_parent(all, 0), first_child(all, first_parent(all, 0), 0))
    } else if k < allow.len() {
        if under_any(allow[k], remote_paths(c.watch.remote_roots@)) {
            Verdict::OnRemote(k)
        } else {
            Verdict::Outside(k)
        }
    } else if c.general.mode == Mode::Dedup && allow.len() == 0 {
        Verdict::DedupNoAllow
    } else if c.general.mode == Mode::Dedup && c.watch.roots@.len() == 0 {
        Verdict::DedupNoLocal
    } else if c.hash.chunks < 2 || c.hash.chunks > 64 {
        Verdict::BadChunks
    } else if c.policy.max_size_group == 0 {
        Verdict::BadMaxSizeGroup
    } else if c.io.read_burst.0 < 16 * 1024 * 1024 {
        Verdict::BurstTooSmall
    } else {
        Verdict::Valid
    }
}

/// `validate` returns what the verdict names, with the offending paths.
pub open spec fn validate_result(c: &Config, r: Result<(), ConfigError>) -> bool {
    let all = all_roots(c);
    let allow = strs(c.general.allow_paths@);
    match verdict(c) {
        Verdict::NoRoots => r == Err::<(), ConfigError>(ConfigError::NoRoots),
        Verdict::NotAbsolute(i) => r matches Err(ConfigError::RootNotAbsolute(x)) && x@ == all[i],
        Verdict::Nested(i, j) => r matches Err(ConfigError::NestedRoots { parent, child })
            && parent@ == all[i] && child@ == all[j],
        Verdict::OnRemote(k) => r matches Err(ConfigError::AllowPathOnRemoteRoot(x)) && x@
            == allow[k],
        Verdict::Outside(k) => r matches Err(ConfigError::AllowPathOutsideRoots(x)) && x@
            == allow[k],
        Verdict::DedupNoAllow => r == Err::<(), ConfigError>(ConfigError::DedupWithoutAllowPaths),
        Verdict::DedupNoLocal => r == Err::<(), ConfigError>(ConfigError::DedupWithoutLocalRoot),
        Verdict::BadChunks => r == Err::<(), ConfigError>(ConfigError::BadChunks(c.hash.chunks)),
        Verdict::BadMaxSizeGroup => r == Err::<(), ConfigError>(ConfigError::BadMaxSizeGroup),
        Verdict::BurstTooSmall => r == Err::<(), ConfigError>(
            ConfigError::BurstTooSmall { burst: c.io.read_burst.0 },
        ),
        Verdict::Valid => r == Ok::<(), ConfigError>(()),
    }
}

/// Whether `p` lies on one of the strings of `bases`.
fn under_any_of(p: &str, bases: &Vec<String>) -> (r: bool)
    ensures
        r == under_any(p@, strs(bases@)),
{
    let mut k: usize = 0;
    while k < bases.len()
        invariant
            k <= bases@.len(),
            forall|q: int| 0 <= q < k ==> !path_starts_with(p@, #[trigger] strs(bases@)[q]),
        decreases bases@.len() - k,
    {
        if starts_with_path(p, bases[k].as_str()) {
            assert(path_starts_with(p@, strs(bases@)[k as int]));
            return true;
        }
        k = k + 1;
    }
    false
}

/// Whether `p` lies on one of the remote roots.
fn under_any_remote(p: &str, bases: &Vec<RemoteRootCfg>) -> (r: bool)
    ensures
        r == under_any(p@, remote_paths(bases@)),
{
    let mut k: usize = 0;
    while k < bases.len()
        invariant
            k <= bases@.len(),
            forall|q: int| 0 <= q < k ==> !path_starts_with(p@, #[trigger] remote_paths(bases@)[q]),
        decreases bases@.len() - k,
    {
        if starts_with_path(p, bases[k].path.as_str()) {
            assert(path_starts_with(p@, remote_paths(bases@)[k as int]));
            return true;
        }
        k = k + 1;
    }
    false
}

impl Config {
    /// Every root, local then remote.
    fn root_list(&self) -> (r: Vec<String>)
        ensures
            strs(r@) == all_roots(self),
    {
        let mut out: Vec<String> = Vec::new();
        let mut i: usize = 0;
        while i < self.watch.roots.len()
            invariant
                i <= self.watch.roots@.len(),
                strs(out@) == strs(self.watch.roots@).subrange(0, i as int),
            decreases self.watch.roots@.len() - i,
        {
            let ghost before = out@;
            out.push(self.watch.roots[i].clone());
            assert(strs(out@) =~= strs(before).push(self.watch.roots@[i as int]@));
            assert(strs(self.watch.roots@).subrange(0, i + 1) =~= strs(
                self.watch.roots@,
            ).subrange(0, i as int).push(self.watch.roots@[i as int]@));
            i = i + 1;
        }
        let ghost local = strs(self.watch.roots@);
        assert(local.subrange(0, local.len() as int) =~= local);
        let mut j: usize = 0;
        while j < self.watch.remote_roots.len()
            invariant
                j <= self.watch.remote_roots@.len(),
                local == strs(self.watch.roots@),
                strs(out@) == local + remote_paths(self.watch.remote_roots@).subrange(0, j as int),
            decreases self.watch.remote_roots@.len() - j,
        {
            let ghost before = out@;
            out.push(self.watch.remote_roots[j].path.clone());
            assert(strs(out@) =~= strs(before).push(self.watch.remote_roots@[j as int].path@));
            assert(local + remote_paths(self.watch.remote_roots@).subrange(0, j + 1) =~= (local
                + remote_paths(self.watch.remote_roots@).subrange(0, j as int)).push(
                self.watch.remote_roots@[j as int].path@,
            ));
            j = j + 1;
        }
        let ghost rem = remote_paths(self.watch.remote_roots@);
        assert(rem.subrange(0, rem.len() as int) =~= rem);
        out
    }

    /// Pure check of the configuration, touching no filesystem: roots present,
    /// absolute and not nested, allowed paths on local roots only, dedup mode
    /// with something to act on, and sane hash, policy and I/O limits.
    pub fn validate(&self) -> (r: Result<(), ConfigError>)
        ensures
            validate_result(self, r),
    {
        if self.watch.roots.len() == 0 && self.watch.remote_roots.len() == 0 {
            return Err(ConfigError::NoRoots);
        }
        let all = self.root_list();
        let ghost av = all_roots(self);
        let n = all.len();
        let mut i: usize = 0;
        while i < n
            invariant
                n == all@.len(),
                !(self.watch.roots@.len() == 0 && self.watch.remote_roots@.len() == 0),
                strs(all@) == av,
                av == all_roots(self),
                i <= n,
                first_relative(av, 0) == first_relative(av, i as int),
            decreases n - i,
        {
            if !posix_absolute(all[i].as_str()) {
                assert(av[i as int] == all@[i as int]@);
                assert(!is_posix_absolute(av[i as int]));
                assert(first_relative(av, i as int) == i);
                return Err(ConfigError::RootNotAbsolute(all[i].clone()));
            }
            assert(av[i as int] == all@[i as int]@);
            i = i + 1;
        }
        let mut a: usize = 0;
        while a < n
            invariant
                n == all@.len(),
                !(self.watch.roots@.len() == 0 && self.watch.remote_roots@.len() == 0),
                strs(all@) == av,
                av == all_roots(self),
                a <= n,
                first_relative(av, 0) == n,
                first_parent(av, 0) == first_parent(av, a as int),
            decreases n - a,
        {
            let mut b: usize = 0;
            while b < n
                invariant
                    n == all@.len(),
                    !(self.watch.roots@.len() == 0 && self.watch.remote_roots@.len() == 0),
                    strs(all@) == av,
                    av == all_roots(self),
                av == all_roots(self),
                    first_relative(av, 0) == n,
                    first_parent(av, 0) == first_parent(av, a as int),
                    a < n,
                    b <= n,
                    first_child(av, a as int, 0) == first_child(av, a as int, b as int),
                decreases n - b,
            {
                if a != b && starts_with_path(all[b].as_str(), all[a].as_str()) {
                    assert(av[a as int] == all@[a as int]@);
                    assert(av[b as int] == all@[b as int]@);
                    assert(nests(av, a as int, b as int));
                    assert(first_child(av, a as int, b as int) == b);
                    assert(first_child(av, a as int, 0) == b);
                    assert(first_parent(av, a as int) == a);
                    return Err(
                        ConfigError::NestedRoots { parent: all[a].clone(), child: all[b].clone() },
                    );
                }
                assert(av[a as int] == all@[a as int]@);
                assert(av[b as int] == all@[b as int]@);
                b = b + 1;
            }
            a = a + 1;
        }
        let ghost allow = strs(self.general.allow_paths@);
        let m = self.general.allow_paths.len();
        let mut k: usize = 0;
        while k < m
            invariant
                m == self.general.allow_paths@.len(),
                !(self.watch.roots@.len() == 0 && self.watch.remote_roots@.len() == 0),
                allow == strs(self.general.allow_paths@),
                k <= m,
                first_relative(av, 0) == n,
                first_parent(av, 0) == n,
                n == av.len(),
                av == all_roots(self),
                first_refused_allow(self, 0) == first_refused_allow(self, k as int),
            decreases m - k,
        {
            let p = self.general.allow_paths[k].as_str();
            assert(allow[k as int] == p@);
            if under_any_remote(p, &self.watch.remote_roots) {
                return Err(ConfigError::AllowPathOnRemoteRoot(self.general.allow_paths[k].clone()));
            }
            if !under_any_of(p, &self.watch.roots) {
                return Err(ConfigError::AllowPathOutsideRoots(self.general.allow_paths[k].clone()));
            }
            k = k + 1;
        }
        if self.general.mode == Mode::Dedup {
            if self.general.allow_paths.len() == 0 {
                return Err(ConfigError::DedupWithoutAllowPaths);
            }
            if self.watch.roots.len() == 0 {
                return Err(ConfigError::DedupWithoutLocalRoot);
            }
        }
        if self.hash.chunks < 2 || self.hash.chunks > 64 {
            return Err(ConfigError::BadChunks(self.hash.chunks));
        }
        if self.policy.max_size_group == 0 {
            return Err(ConfigError::BadMaxSizeGroup);
        }
        if self.io.read_burst.0 < 16 * 1024 * 1024 {
            return Err(ConfigError::BurstTooSmall { burst: self.io.read_burst.0 });
        }
        Ok(())
    }
}


/// `a` followed by the strings of `extra` that it does not hold yet.
fn merge_strings(out: &mut Vec<String>, extra: &Vec<String>)
    ensures
        strs(final(out)@) == merge_unique(strs(old(out)@), strs(extra@)),
{
    let ghost start = strs(out@);
    let mut i: usize = 0;
    while i < extra.len()
        invariant
            i <= extra@.len(),
            strs(out@) == merge_unique(start, strs(extra@.subrange(0, i as int))),
        decreases extra@.len() - i,
    {
        let d = &extra[i];
        let mut found = false;
        let mut k: usize = 0;
        while k < out.len()
            invariant
                k <= out@.len(),
                found == (exists|j: int| 0 <= j < k && out@[j]@ == d@),
            decreases out@.len() - k,
        {
            if !found && out[k] == *d {
                found = true;
            }
            k = k + 1;
        }
        proof {
            let b = strs(extra@.subrange(0, i + 1));
            assert(b.drop_last() =~= strs(extra@.subrange(0, i as int)));
            assert(b.last() == d@);
            if found {
                let j = choose|j: int| 0 <= j < out@.len() && out@[j]@ == d@;
                assert(strs(out@)[j] == d@);
            }
            if strs(out@).contains(d@) {
                let j = choose|j: int| 0 <= j < strs(out@).len() && strs(out@)[j] == d@;
                assert(out@[j]@ == d@);
            }
        }
        if !found {
            let ghost before = out@;
            out.push(d.clone());
            assert(strs(out@) =~= strs(before).push(d@));
        }
        i = i + 1;
    }
    assert(extra@.subrange(0, extra@.len() as int) =~= extra@);
}

/// `PathBuf::join` of a relative name onto `base`.
pub open spec fn join_spec(base: Seq<char>, name: Seq<char>) -> Seq<char> {
    if base.len() == 0 {
        name
    } else if base.last() == '/' {
        base + name
    } else {
        base + seq!['/'] + name
    }
}

/// Whether `p` lies on a remote root.
pub open spec fn on_remote(c: &Config, p: Seq<char>) -> bool {
    under_any(p, remote_paths(c.watch.remote_roots@))
}

impl Config {
    /// Whether a path lies on a remote (CIFS/SMB) root.
    pub fn is_remote_path(&self, abs_path: &str) -> (r: bool)
        ensures
            r == on_remote(self, abs_path@),
    {
        under_any_remote(abs_path, &self.watch.remote_roots)
    }

    /// Whether a path may be acted on: dedup mode, inside `allow_paths`, and
    /// never on a remote root.
    pub fn is_allowed(&self, abs_path: &str) -> (r: bool)
        ensures
            r == (!on_remote(self, abs_path@) && self.general.mode == Mode::Dedup && under_any(
                abs_path@,
                strs(self.general.allow_paths@),
            )),
    {
        if self.is_remote_path(abs_path) {
            return false;
        }
        self.general.mode == Mode::Dedup && under_any_of(abs_path, &self.general.allow_paths)
    }

    /// The excluded directories: the preset of `nas_flavor`, then the
    /// configured ones that the preset does not hold.
    /// The excluded directories in force: the common preset, the one of the
    /// NAS flavour, then the configured ones, each once.
    pub open spec fn effective_dirs(&self) -> Seq<Seq<char>> {
        merge_unique(
            merge_unique(views(COMMON@), flavor_extra(self.general.nas_flavor)),
            strs(self.watch.exclude_dirs@),
        )
    }

    pub fn effective_exclude_dirs(&self) -> (r: Vec<String>)
        ensures
            strs(r@) == self.effective_dirs(),
    {
        let preset = self.general.nas_flavor.exclude_dirs();
        let mut out: Vec<String> = Vec::new();
        let mut i: usize = 0;
        while i < preset.len()
            invariant
                i <= preset@.len(),
                strs(out@) == views(preset@).subrange(0, i as int),
            decreases preset@.len() - i,
        {
            let ghost before = out@;
            out.push(preset[i].to_owned());
            assert(strs(out@) =~= strs(before).push(preset@[i as int]@));
            assert(views(preset@).subrange(0, i + 1) =~= views(preset@).subrange(0, i as int).push(
                preset@[i as int]@,
            ));
            i = i + 1;
        }
        assert(views(preset@).subrange(0, preset@.len() as int) =~= views(preset@));
        merge_strings(&mut out, &self.watch.exclude_dirs);
        out
    }

    /// The database file: `state_dir/nasdedup.db`.
    pub fn db_path(&self) -> (r: String)
        ensures
            r@ == join_spec(self.general.state_dir@, "nasdedup.db"@),
    {
        let base = self.general.state_dir.as_str();
        let n = base.unicode_len();
        let mut out: Vec<char> = crate::text::chars_of(base);
        if n > 0 && base.get_char(n - 1) != '/' {
            out.push('/');
        }
        let name = crate::text::chars_of("nasdedup.db");
        let ghost head = out@;
        let mut k: usize = 0;
        while k < name.len()
            invariant
                k <= name@.len(),
                out@ == head + name@.subrange(0, k as int),
            decreases name@.len() - k,
        {
            out.push(name[k]);
            k = k + 1;
        }
        assert(name@.subrange(0, name@.len() as int) =~= name@);
        assert(n > 0 ==> base@.last() == base@[n - 1]);
        proof {
            if n > 0 && base@.last() != '/' {
                assert(head =~= base@ + seq!['/']);
            }
        }
        crate::text::string_of(&out)
    }

    /// Retention of dedup events in milliseconds.
    pub fn retention_ms(&self) -> (r: i64)
        ensures
            r == self.db.retention_days * 86_400_000,
    {
        (self.db.retention_days as i64) * 86_400_000
    }
}

/// `m` written with at least two digits.
pub open spec fn pad2(m: nat) -> Seq<char> {
    if m < 10 {
        seq!['0'] + self::parse::dec_chars(m)
    } else {
        self::parse::dec_chars(m)
    }
}

/// A window written `HH:MM-HH:MM`.
pub open spec fn window_text(w: TimeWindow) -> Seq<char> {
    pad2((w.start_min / 60) as nat) + seq![':'] + pad2((w.start_min % 60) as nat) + seq!['-']
        + pad2((w.end_min / 60) as nat) + seq![':'] + pad2((w.end_min % 60) as nat)
}

fn push_pad2(out: &mut Vec<char>, m: u16)
    ensures
        final(out)@ == old(out)@ + pad2(m as nat),
{
    if m < 10 {
        out.push('0');
    }
    let d = self::parse::dec_vec(m as u64);
    let ghost head = out@;
    let mut k: usize = 0;
    while k < d.len()
        invariant
            k <= d@.len(),
            out@ == head + d@.subrange(0, k as int),
        decreases d@.len() - k,
    {
        out.push(d[k]);
        k = k + 1;
    }
    assert(d@.subrange(0, d@.len() as int) =~= d@);
    proof {
        if m < 10 {
            assert(head =~= old(out)@ + seq!['0']);
        }
    }
}

impl TimeWindow {
    /// The window as the configuration file writes it.
    pub fn to_text(&self) -> (r: String)
        ensures
            r@ == window_text(*self),
    {
        let mut out: Vec<char> = Vec::new();
        push_pad2(&mut out, self.start_min / 60);
        out.push(':');
        push_pad2(&mut out, self.start_min % 60);
        out.push('-');
        push_pad2(&mut out, self.end_min / 60);
        out.push(':');
        push_pad2(&mut out, self.end_min % 60);
        assert(out@ =~= window_text(*self));
        crate::text::string_of(&out)
    }
}


proof fn lemma_first_relative_none(all: Seq<Seq<char>>, i: int)
    requires
        0 <= i <= all.len(),
        first_relative(all, i) >= all.len(),
    ensures
        forall|k: int| i <= k < all.len() ==> is_posix_absolute(#[trigger] all[k]),
    decreases all.len() - i,
{
    if i < all.len() {
        lemma_first_relative_none(all, i + 1);
    }
}

proof fn lemma_first_child_none(all: Seq<Seq<char>>, i: int, j: int)
    requires
        0 <= j <= all.len(),
        first_child(all, i, j) >= all.len(),
    ensures
        forall|k: int| j <= k < all.len() ==> !nests(all, i, k),
    decreases all.len() - j,
{
    if j < all.len() {
        lemma_first_child_none(all, i, j + 1);
    }
}

proof fn lemma_first_parent_none(all: Seq<Seq<char>>, i: int)
    requires
        0 <= i <= all.len(),
        first_parent(all, i) >= all.len(),
    ensures
        forall|a: int, b: int| i <= a < all.len() && 0 <= b < all.len() ==> !nests(all, a, b),
    decreases all.len() - i,
{
    if i < all.len() {
        lemma_first_parent_none(all, i + 1);
        lemma_first_child_none(all, i, 0);
    }
}

proof fn lemma_first_refused_none(c: &Config, k: int)
    requires
        0 <= k <= c.general.allow_paths@.len(),
        first_refused_allow(c, k) >= c.general.allow_paths@.len(),
    ensures
        forall|j: int|
            k <= j < c.general.allow_paths@.len() ==> !allow_refused(
                c,
                #[trigger] strs(c.general.allow_paths@)[j],
            ),
    decreases c.general.allow_paths@.len() - k,
{
    if k < c.general.allow_paths@.len() {
        lemma_first_refused_none(c, k + 1);
    }
}

/// A configuration that `validate` accepts has at least one root, every root
/// absolute, no root inside another, every allowed path on a local root and
/// none on a remote root, and a dedup mode only with something to act on.
pub proof fn lemma_valid_config(c: &Config)
    requires
        verdict(c) == Verdict::Valid,
    ensures
        all_roots(c).len() > 0,
        forall|i: int| 0 <= i < all_roots(c).len() ==> is_posix_absolute(#[trigger] all_roots(c)[i]),
        forall|i: int, j: int|
            0 <= i < all_roots(c).len() && 0 <= j < all_roots(c).len() && i != j
                ==> !path_starts_with(all_roots(c)[j], all_roots(c)[i]),
        forall|k: int|
            0 <= k < c.general.allow_paths@.len() ==> {
                let p = #[trigger] strs(c.general.allow_paths@)[k];
                !under_any(p, remote_paths(c.watch.remote_roots@)) && under_any(
                    p,
                    strs(c.watch.roots@),
                )
            },
        c.general.mode == Mode::Dedup ==> c.general.allow_paths@.len() > 0
            && c.watch.roots@.len() > 0,
{
    let all = all_roots(c);
    lemma_first_relative_none(all, 0);
    lemma_first_parent_none(all, 0);
    lemma_first_refused_none(c, 0);
    assert forall|i: int, j: int|
        0 <= i < all.len() && 0 <= j < all.len() && i != j implies !path_starts_with(
        all[j],
        all[i],
    ) by {
        assert(!nests(all, i, j));
    }
}

} // verus!
