//! The pipeline: from a ready row to its next state, one step at a time.
//!
//! A step never writes to the repository: it returns the transition that the
//! worker applies with a compare-and-swap. Each step reads the repository and
//! the filesystem, then hands what it saw to a decision function whose
//! contract states the outcome exactly.

pub mod errno;
pub mod group;
pub mod settle;
pub mod sized;
pub mod verify;

use vstd::prelude::*;

use crate::config::{HashCfg, PolicyCfg, TimingCfg};
use crate::dedupe::{DedupeError, Deduper};
use crate::fs::{FileSystem, FsError};
use crate::hash::HashError;
use crate::model::{FileRecord, State, Ts};
use crate::repo::types::{empty_patch, Patch};
use crate::repo::{RepoError, Repository, Transition};
use crate::throttle::IoGovernor;

pub use group::bau_lai_canonical;

verus! {

/// What the worker does after a step.
#[derive(Debug, PartialEq, Eq)]
pub enum StepOutcome {
    /// Apply this transition (CAS).
    Apply(Box<Transition>),
    /// Nothing can be done yet; try again at `until`. `reason` goes to the log.
    Defer { until: Ts, reason: &'static str },
    /// Nothing to do (another worker handled the row).
    Noop,
}

impl StepOutcome {
    /// Wraps a transition into `Apply`.
    pub fn apply(t: Transition) -> (r: Self)
        ensures
            r == StepOutcome::Apply(Box::new(t)),
    {
        StepOutcome::Apply(Box::new(t))
    }
}

/// An error that stops a step and is not a decision of the pipeline: the
/// worker backs off and tries again.
#[derive(Debug)]
pub enum StepError {
    Fs(FsError),
    Repo(RepoError),
    Hash(HashError),
    Dedupe(DedupeError),
}

/// Everything a step needs. The I/O governor is passed next to it, since
/// taking a token changes it.
pub struct StepCtx<'a, R: Repository, F: FileSystem, D: Deduper> {
    pub repo: &'a R,
    pub fs: &'a F,
    pub deduper: &'a D,
    pub policy: &'a PolicyCfg,
    pub hash: &'a HashCfg,
    pub timing: &'a TimingCfg,
    pub now: Ts,
    /// Heavy work (reading contents) is allowed in this round: inside
    /// `heavy_windows`, or the row waited longer than `max_wait`.
    pub allow_heavy: bool,
    /// Start of the next heavy window; `None` when every time is allowed.
    pub next_heavy_at: Option<Ts>,
}

/// The largest `now` and settle delay a step works with: `i64::MAX` less the
/// largest modification time in milliseconds that an `i64` of nanoseconds can
/// hold. A step adds to `now` the delay, a day at most, or subtracts such a
/// modification time, and adds the delay to one: with both bounds and their
/// sum within an `i64`, every such sum fits.
pub const TIME_SPAN: i64 = 9223362813482738953;

/// `now` and the settle delay are within `TIME_SPAN`, and so is their sum
/// within an `i64`.
pub open spec fn times_fit(now: Ts, settle_delay: i64) -> bool {
    0 <= now <= TIME_SPAN && 0 <= settle_delay <= TIME_SPAN && now + settle_delay <= i64::MAX
}

/// One minute, the fallback wait when no heavy window is configured.
pub const ONE_MINUTE_MS: i64 = 60000;

/// One day.
pub const ONE_DAY_MS: i64 = 86400000;

/// When the next heavy window opens: its start, or a minute from now when
/// heavy work is allowed at any time (then the disk is merely busy).
pub open spec fn next_heavy(next_heavy_at: Option<Ts>, now: Ts) -> Ts {
    match next_heavy_at {
        Some(t) => t,
        None => (now + ONE_MINUTE_MS) as Ts,
    }
}

impl<'a, R: Repository, F: FileSystem, D: Deduper> StepCtx<'a, R, F, D> {
    /// Waits for the next heavy window.
    pub fn hen_khung_nang(&self, reason: &'static str) -> (r: StepOutcome)
        requires
            times_fit(self.now, self.timing.settle_delay.0),
        ensures
            r == (StepOutcome::Defer { until: next_heavy(self.next_heavy_at, self.now), reason }),
    {
        let until = match self.next_heavy_at {
            Some(t) => t,
            None => self.now + ONE_MINUTE_MS,
        };
        StepOutcome::Defer { until, reason }
    }
}

/// `t` changes only row `id` from `from` to `to` at `now`: no group
/// operation, event, journal or other row.
pub open spec fn plain(t: Transition, id: i64, from: State, to: State, now: Ts) -> bool {
    &&& t.id == id
    &&& t.from == from
    &&& t.to == to
    &&& t.now == now
    &&& t.group is None
    &&& t.event is None
    &&& t.journal is None
    &&& t.others@.len() == 0
}

/// `o` applies a plain transition with exactly `patch`.
pub open spec fn applies(o: StepOutcome, id: i64, from: State, to: State, patch: Patch, now: Ts) -> bool {
    o matches StepOutcome::Apply(t) && plain(*t, id, from, to, now) && t.patch == patch
}

/// The optional text column is set to `s`.
pub open spec fn text_is(o: Option<Option<String>>, s: Seq<char>) -> bool {
    o matches Some(Some(m)) && m@ == s
}

/// `o` applies a plain transition whose patch is `patch` with the skip
/// reason set to the text `why`.
pub open spec fn applies_skip(o: StepOutcome, id: i64, from: State, to: State, patch: Patch, why: Seq<char>, now: Ts) -> bool {
    o matches StepOutcome::Apply(t) && plain(*t, id, from, to, now) && t.patch == (Patch {
        skip_reason: t.patch.skip_reason,
        ..patch
    }) && text_is(t.patch.skip_reason, why)
}

/// `o` applies a plain transition whose patch is `patch` with the last error
/// set to the text `err`.
pub open spec fn applies_error(o: StepOutcome, id: i64, from: State, to: State, patch: Patch, err: Seq<char>, now: Ts) -> bool {
    o matches StepOutcome::Apply(t) && plain(*t, id, from, to, now) && t.patch == (Patch {
        last_error: t.patch.last_error,
        ..patch
    }) && text_is(t.patch.last_error, err)
}

/// What holds of every outcome of a step on `rec` at `now`: a transition is
/// about `rec`, starts from its state and carries the decision time.
pub open spec fn about(o: StepOutcome, rec: FileRecord, now: Ts) -> bool {
    o matches StepOutcome::Apply(t) ==> t.id == rec.id && t.from == rec.state && t.now == now
}

/// The extension of a relative path, empty when it has none.
pub open spec fn ext_text(p: Seq<char>) -> Seq<char> {
    match crate::path::extension(p) {
        Some(e) => e,
        None => Seq::empty(),
    }
}

/// The extension of `p` as a `String` (empty when it has none).
pub fn duoi_file(p: &str) -> (r: String)
    ensures
        r@ == ext_text(p@),
{
    match crate::path::extension_of(p) {
        Some(v) => crate::text::string_of(&v),
        None => String::new(),
    }
}

/// One step for `rec`, dispatched on its state; rows outside the queue give
/// `Noop` (their state changed between `next_ready` and the step).
pub fn step<'a, R: Repository, F: FileSystem, D: Deduper, G: IoGovernor>(ctx: &StepCtx<'a, R, F, D>, gov: &mut G, rec: &FileRecord) -> (r: Result<StepOutcome, StepError>)
    requires
        times_fit(ctx.now, ctx.timing.settle_delay.0),
        rec.attempts < u32::MAX,
    ensures
        !(rec.state == State::Settling || rec.state == State::Sized || rec.state == State::Hashed) ==> r == Ok::<StepOutcome, StepError>(StepOutcome::Noop),
        r matches Ok(o) ==> about(o, *rec, ctx.now),
        rec.state == State::Settling ==> (r matches Ok(o) ==> settle::sized_only_if_sound(o)),
        rec.state == State::Sized ==> (r matches Ok(o) ==> sized::hash_is_of_size(o, ctx.hash.chunks, ctx.hash.chunk_len.0, rec.size)),
        rec.state == State::Hashed ==> (r matches Ok(o) ==> verify::merges_only_if_sound(o, *rec)),
        rec.state == State::Hashed ==> (ctx.fs.remote_root(rec.loc.root_id) ==> (r matches Ok(StepOutcome::Apply(t)) ==> t.to != State::Deduped)),
        (rec.state == State::Sized && rec.sparse_hash is None && !ctx.allow_heavy) ==> (r matches Ok(o)
            && sized::waits_for_window(o, rec.id, State::Sized, rec.heavy_wait_since, ctx.now, ctx.next_heavy_at, "chờ khung giờ nặng để hash")),
        (rec.state == State::Hashed && rec.group_id is None) ==> (r matches Ok(o)
            && applies(o, rec.id, State::Hashed, State::Sized, (Patch { ready_at: Some(Some(ctx.now)), ..empty_patch() }), ctx.now)),
        (rec.state == State::Hashed && rec.group_id is Some && !ctx.allow_heavy) ==> (r matches Ok(o)
            && sized::waits_for_window(o, rec.id, State::Hashed, rec.heavy_wait_since, ctx.now, ctx.next_heavy_at, "chờ khung giờ nặng để verify")),
{
    match rec.state {
        State::Settling => settle::buoc(ctx, rec),
        State::Sized => sized::buoc(ctx, gov, rec),
        State::Hashed => verify::buoc(ctx, gov, rec),
        _ => Ok(StepOutcome::Noop),
    }
}

} // verus!
