//! The `sized` step: compute the sparse hash, then find the file a place.
//!
//! Hashing is the heaviest read on the main path and runs in heavy windows
//! only; looking for a group or candidates reads nothing and runs at any time.

use vstd::prelude::*;

use crate::dedupe::Deduper;
use crate::digest::blake3_digest;
use crate::fs::{FileSystem, OpenedFile, ReadAt};
use crate::hash::{doans_spec, hash_body, hash_header, sparse_hash, HashParams, HASH_VERSION};
use crate::model::{fingerprint_of, record_fingerprint, FileRecord, Fingerprint, SkipReason, State, Ts};
use crate::repo::types::{empty_patch, Patch};
use crate::repo::{Repository, Transition};
use crate::throttle::IoGovernor;

use super::group::{self, canonical_among, join_ok};
use crate::repo::memory::lookup::{groups_with_key, members_of};
use super::settle::missing_patch;
use super::{about, applies, next_heavy, times_fit, StepCtx, StepError, StepOutcome, TIME_SPAN};

verus! {

/// The sparse hash with `chunks` samples of `chunk_len` bytes of a file of
/// `size` bytes whose contents are `content`.
pub open spec fn sparse_digest(chunks: u32, chunk_len: u64, size: u64, content: Seq<u8>) -> Seq<u8> {
    let d = doans_spec(chunks as int, chunk_len, size);
    blake3_digest(hash_header(chunks, chunk_len, size, d.len() as u32) + hash_body(d, content))
}

/// A sparse hash recorded by the step is the hash, with the configured
/// parameters, of some contents of the row's size.
pub open spec fn hash_is_of_size(o: StepOutcome, chunks: u32, chunk_len: u64, size: u64) -> bool {
    match o {
        StepOutcome::Apply(t) => match t.patch.sparse_hash {
            Some(Some(h)) => exists|c: Seq<u8>| h@ == #[trigger] sparse_digest(chunks, chunk_len, size, c),
            _ => true,
        },
        _ => true,
    }
}

/// The `sized` step: hash first when the row has no hash yet; otherwise look
/// for a group or candidates.
pub fn buoc<'a, R: Repository, F: FileSystem, D: Deduper, G: IoGovernor>(ctx: &StepCtx<'a, R, F, D>, gov: &mut G, rec: &FileRecord) -> (r: Result<StepOutcome, StepError>)
    requires
        times_fit(ctx.now, ctx.timing.settle_delay.0),
        rec.state == State::Sized,
    ensures
        r matches Ok(o) ==> about(o, *rec, ctx.now) && hash_is_of_size(o, ctx.hash.chunks, ctx.hash.chunk_len.0, rec.size),
        (rec.sparse_hash is None && !ctx.allow_heavy) ==> (r matches Ok(o) && waits_for_window(o, rec.id, State::Sized, rec.heavy_wait_since, ctx.now, ctx.next_heavy_at, "chờ khung giờ nặng để hash")),
        rec.sparse_hash matches Some(h) ==> (r matches Ok(o) ==> {
            let gs = groups_with_key(ctx.repo.groups_view(), rec.domain_id, rec.size, h);
            gs.len() > 0 ==> join_ok(o, rec.id, gs[0].id, canonical_among(members_of(ctx.repo.files_view(), gs[0].id), gs[0].canonical_file_id), ctx.now)
        }),
{
    match rec.sparse_hash {
        Some(h) => group::xep_cho(ctx, gov, rec, h),
        None => tinh_hash(ctx, gov, rec),
    }
}

/// The patch that records a sparse hash and schedules the row at once.
pub open spec fn hashed_patch(h: [u8; 32], now: Ts) -> Patch {
    Patch {
        sparse_hash: Some(Some(h)),
        hash_version: Some(HASH_VERSION),
        heavy_wait_since: Some(None),
        ready_at: Some(Some(now)),
        ..empty_patch()
    }
}

/// What the two fingerprints around the read decide: the file changed since
/// it settled (`fp0`) or while it was read (`fp1`): back to `settling`;
/// otherwise the hash is recorded.
pub open spec fn after_hash(r: StepOutcome, rec: FileRecord, fp0: Fingerprint, fp1: Fingerprint, h: [u8; 32], now: Ts, settle_delay: i64) -> bool {
    if fp0 != record_fingerprint(rec) || fp1 != fp0 {
        applies(r, rec.id, rec.state, State::Settling, back_to_settling_patch(now, settle_delay), now)
    } else {
        applies(r, rec.id, State::Sized, State::Sized, hashed_patch(h, now), now)
    }
}

pub fn sau_hash(rec: &FileRecord, fp0: Fingerprint, fp1: Fingerprint, h: [u8; 32], now: Ts, settle_delay: i64) -> (r: StepOutcome)
    requires
        times_fit(now, settle_delay),
    ensures
        after_hash(r, *rec, fp0, fp1, h, now, settle_delay),
{
    if fp0 != rec.fingerprint() || fp1 != fp0 {
        return quay_ve_settling(rec.id, rec.state, now, settle_delay);
    }
    StepOutcome::apply(Transition::new(
        rec.id,
        State::Sized,
        State::Sized,
        Patch::new().sparse_hash(Some(h)).hash_version(HASH_VERSION).heavy_wait_since(None).ready_at(Some(now)),
        now,
    ))
}

/// What the hash step hands back once it may read: the file vanished; the
/// file changed since it settled, and nothing was read nor asked of the
/// governor (`untouched`); or the file was hashed into `h` and `after_hash`
/// decides with the fingerprint read after the hash: the hash is recorded
/// exactly when the file did not change meanwhile.
pub open spec fn hash_step_outcome(o: StepOutcome, rec: FileRecord, now: Ts, delay: i64, chunks: u32, chunk_len: u64, untouched: bool) -> bool {
    ||| untouched && applies(o, rec.id, State::Sized, State::Missing, Patch { prev_state: Some(Some(State::Sized)), ready_at: Some(None), ..empty_patch() }, now)
    ||| untouched && applies(o, rec.id, rec.state, State::Settling, back_to_settling_patch(now, delay), now)
    ||| exists|fp1: Fingerprint, h: [u8; 32]| #[trigger] after_hash(o, rec, record_fingerprint(rec), fp1, h, now, delay)
        && exists|c: Seq<u8>| h@ == #[trigger] sparse_digest(chunks, chunk_len, rec.size, c)
}

/// Reads the file and computes its sparse hash. Only the hash is recorded:
/// finding a group is the next round's work, so a stop of the daemon never
/// throws away a finished read.
pub fn tinh_hash<'a, R: Repository, F: FileSystem, D: Deduper, G: IoGovernor>(ctx: &StepCtx<'a, R, F, D>, gov: &mut G, rec: &FileRecord) -> (r: Result<StepOutcome, StepError>)
    requires
        times_fit(ctx.now, ctx.timing.settle_delay.0),
        rec.state == State::Sized,
    ensures
        !ctx.allow_heavy ==> (r matches Ok(o) && waits_for_window(o, rec.id, State::Sized, rec.heavy_wait_since, ctx.now, ctx.next_heavy_at, "chờ khung giờ nặng để hash")),
        ctx.allow_heavy && r is Ok ==> r.unwrap() is Apply,
        r matches Ok(o) ==> about(o, *rec, ctx.now) && hash_is_of_size(o, ctx.hash.chunks, ctx.hash.chunk_len.0, rec.size),
        ctx.allow_heavy ==> (r matches Ok(o) ==> hash_step_outcome(o, *rec, ctx.now, ctx.timing.settle_delay.0, ctx.hash.chunks, ctx.hash.chunk_len.0, *final(gov) == *old(gov))),
{
    let now = ctx.now;
    if !ctx.allow_heavy {
        return Ok(cho_khung_gio(rec.id, State::Sized, rec.heavy_wait_since, now, ctx.next_heavy_at, "chờ khung giờ nặng để hash"));
    }
    let f = match ctx.fs.open(&rec.loc) {
        Ok(f) => f,
        Err(e) => {
            if e.is_not_found() {
                return Ok(StepOutcome::apply(Transition::new(
                    rec.id,
                    State::Sized,
                    State::Missing,
                    Patch::new().prev_state(Some(State::Sized)).ready_at(None),
                    now,
                )));
            }
            return Err(StepError::Fs(e));
        },
    };
    let fp0 = f.identity().fingerprint();
    if fp0 != rec.fingerprint() {
        return Ok(quay_ve_settling(rec.id, rec.state, now, ctx.timing.settle_delay.0));
    }
    let params = match HashParams::from_config(ctx.hash) {
        Ok(p) => p,
        Err(e) => {
            return Err(StepError::Hash(e));
        },
    };
    let h = match sparse_hash(params, &f, fp0.size, gov) {
        Ok(h) => h,
        Err(e) => {
            return Err(StepError::Hash(e));
        },
    };
    proof {
        assert(h@ == sparse_digest(ctx.hash.chunks, ctx.hash.chunk_len.0, rec.size, f.content()));
    }
    let fp1 = match f.refresh_identity() {
        Ok(id) => id.fingerprint(),
        Err(e) => {
            return Err(StepError::Fs(e));
        },
    };
    let o = sau_hash(rec, fp0, fp1, h, now, ctx.timing.settle_delay.0);
    proof {
        assert(after_hash(o, *rec, record_fingerprint(*rec), fp1, h, now, ctx.timing.settle_delay.0));
    }
    Ok(o)
}

/// Waiting for a heavy window: the first time, record when the wait began
/// (`heavy_wait_since`, which lets the row run anyway after `max_wait`) and
/// schedule the row at the window; afterwards just wait for the window.
pub open spec fn waits_for_window(r: StepOutcome, id: i64, st: State, heavy_wait_since: Option<Ts>, now: Ts, next_heavy_at: Option<Ts>, reason: &'static str) -> bool {
    if heavy_wait_since is None {
        applies(r, id, st, st, Patch {
            heavy_wait_since: Some(Some(now)),
            ready_at: Some(Some(next_heavy(next_heavy_at, now))),
            ..empty_patch()
        }, now)
    } else {
        r == (StepOutcome::Defer { until: next_heavy(next_heavy_at, now), reason })
    }
}

/// Waits for a heavy window, recording the start of the wait the first time.
pub fn cho_khung_gio(id: i64, st: State, heavy_wait_since: Option<Ts>, now: Ts, next_heavy_at: Option<Ts>, reason: &'static str) -> (r: StepOutcome)
    requires
        0 <= now <= TIME_SPAN,
    ensures
        waits_for_window(r, id, st, heavy_wait_since, now, next_heavy_at, reason),
{
    let until = match next_heavy_at {
        Some(t) => t,
        None => now + super::ONE_MINUTE_MS,
    };
    if heavy_wait_since.is_none() {
        return StepOutcome::apply(Transition::new(
            id,
            st,
            st,
            Patch::new().heavy_wait_since(Some(now)).ready_at(Some(until)),
            now,
        ));
    }
    StepOutcome::Defer { until, reason }
}

/// The patch that sends a changed file back to `settling`: its hashes, magic
/// and group are forgotten and the settle clock restarts.
pub open spec fn back_to_settling_patch(now: Ts, settle_delay: i64) -> Patch {
    Patch {
        sparse_hash: Some(None),
        full_hash: Some(None),
        magic_ok: Some(false),
        group_id: Some(None),
        ready_at: Some(Some((now + settle_delay) as Ts)),
        ..empty_patch()
    }
}

/// The contents changed: start over from `settling`, without counting an
/// attempt (a file written regularly would otherwise be given up).
pub fn quay_ve_settling(id: i64, from: State, now: Ts, settle_delay: i64) -> (r: StepOutcome)
    requires
        times_fit(now, settle_delay),
    ensures
        applies(r, id, from, State::Settling, back_to_settling_patch(now, settle_delay), now),
{
    StepOutcome::apply(Transition::new(
        id,
        from,
        State::Settling,
        Patch::new().sparse_hash(None).full_hash(None).magic_ok(false).group_id(None).ready_at(Some(now + settle_delay)),
        now,
    ))
}

/// A candidate that is no longer eligible: skipped, in the same transaction.
pub fn patch_bo_qua(ly_do: SkipReason) -> (r: Patch)
    ensures
        r == (Patch { skip_reason: r.skip_reason, ready_at: Some(None), ..empty_patch() }),
        super::text_is(r.skip_reason, crate::model::skip_name(ly_do)),
{
    Patch::new().skip_reason(Some(ly_do.as_str().to_owned())).ready_at(None)
}

} // verus!
