//! The settle step: `settling` → `sized` once the file stopped changing.
//!
//! Every check here is cheap (at most the first bytes for the magic) and may
//! run outside the heavy windows.

use vstd::prelude::*;

use crate::dedupe::Deduper;
use crate::filter::magic;
use crate::fs::{FileSystem, OpenedFile};
use crate::model::{fingerprint_of, special_mode, FileRecord, Identity, SkipReason, State, Ts, skip_name};
use crate::repo::types::{empty_patch, Patch};
use crate::repo::{Repository, Transition};

use super::{applies, applies_skip, about, duoi_file, times_fit, StepCtx, StepError, StepOutcome, ONE_DAY_MS};

verus! {

/// The file vanished: `settling` → `missing`.
pub open spec fn missing_patch(from: State) -> Patch {
    Patch { prev_state: Some(Some(from)), ready_at: Some(None), ..empty_patch() }
}

/// `settling` → `missing`, remembering the state it left.
pub fn mat_tich(id: i64, now: Ts) -> (r: StepOutcome)
    ensures
        applies(r, id, State::Settling, State::Missing, missing_patch(State::Settling), now),
{
    StepOutcome::apply(Transition::new(
        id,
        State::Settling,
        State::Missing,
        Patch::new().prev_state(Some(State::Settling)).ready_at(None),
        now,
    ))
}

/// `settling` → `skipped` with the identity read from the descriptor.
pub fn bo_qua(rec_id: i64, id: &Identity, ly_do: SkipReason, now: Ts) -> (r: StepOutcome)
    ensures
        applies_skip(r, rec_id, State::Settling, State::Skipped, Patch { identity: Some(*id), ready_at: Some(None), ..empty_patch() }, skip_name(ly_do), now),
{
    StepOutcome::apply(Transition::new(
        rec_id,
        State::Settling,
        State::Skipped,
        Patch::new().identity(*id).skip_reason(Some(ly_do.as_str().to_owned())).ready_at(None),
        now,
    ))
}

/// What the `statx` of the path decides, before the file is opened: the
/// fingerprint differs from the one taken at enqueue time (the file is still
/// being written: restart the clock, without counting an attempt), or the
/// file was modified less than `settle_delay` ago (wait until it is old
/// enough). `None`: go on.
pub fn sau_statx(rec: &FileRecord, id: &Identity, now: Ts, settle_delay: i64) -> (r: Option<StepOutcome>)
    requires
        times_fit(now, settle_delay),
    ensures
        ({
            let fp = fingerprint_of(*id);
            let mtime_ms = id.mtime_ns / 1_000_000;
            if rec.enq matches Some(e) && e != fp {
                r matches Some(o) && applies(o, rec.id, State::Settling, State::Settling, Patch {
                    enq: Some(Some(fp)),
                    ready_at: Some(Some((now + settle_delay) as Ts)),
                    ..empty_patch()
                }, now)
            } else if now - crate::scan::div_trunc(id.mtime_ns as int, 1_000_000) < settle_delay {
                r == Some(StepOutcome::Defer { until: (crate::scan::div_trunc(id.mtime_ns as int, 1_000_000) + settle_delay) as Ts, reason: "chưa đủ settle_delay" })
            } else {
                r is None
            }
        }),
{
    let fp = id.fingerprint();
    match rec.enq {
        Some(e) => {
            if e != fp {
                return Some(StepOutcome::apply(Transition::new(
                    rec.id,
                    State::Settling,
                    State::Settling,
                    Patch::new().enq(Some(fp)).ready_at(Some(now + settle_delay)),
                    now,
                )));
            }
        },
        None => {},
    }
    let mtime_ms = id.mtime_ns / 1_000_000;
    assert(-9_300_000_000_000 <= mtime_ms <= 9_300_000_000_000);
    if now - mtime_ms < settle_delay {
        return Some(StepOutcome::Defer { until: mtime_ms + settle_delay, reason: "chưa đủ settle_delay" });
    }
    None
}

/// The patch of a file that settled: identity and fingerprint from the
/// descriptor, magic checked, scheduled at once.
pub open spec fn settled_patch(id: Identity, now: Ts) -> Patch {
    Patch {
        identity: Some(id),
        enq: Some(Some(fingerprint_of(id))),
        magic_ok: Some(true),
        skip_reason: Some(None),
        ready_at: Some(Some(now)),
        ..empty_patch()
    }
}

/// What the opened file decides: hardlinks, setuid/setgid files and files
/// whose magic does not match their extension are skipped; a file with a
/// hole is probably an unfinished upload and waits a day; otherwise the file
/// settled.
pub fn sau_mo(rec_id: i64, id: &Identity, cho_qua: bool, co_lo: bool, now: Ts) -> (r: StepOutcome)
    requires
        0 <= now <= super::TIME_SPAN,
    ensures
        if id.nlink > 1 {
            applies_skip(r, rec_id, State::Settling, State::Skipped, Patch { identity: Some(*id), ready_at: Some(None), ..empty_patch() }, skip_name(SkipReason::Hardlink), now)
        } else if special_mode(id.mode) {
            applies_skip(r, rec_id, State::Settling, State::Skipped, Patch { identity: Some(*id), ready_at: Some(None), ..empty_patch() }, skip_name(SkipReason::SpecialMode), now)
        } else if !cho_qua {
            applies_skip(r, rec_id, State::Settling, State::Skipped, Patch { identity: Some(*id), ready_at: Some(None), ..empty_patch() }, skip_name(SkipReason::BadMagic), now)
        } else if co_lo {
            applies_skip(r, rec_id, State::Settling, State::Settling, Patch {
                identity: Some(*id),
                magic_ok: Some(true),
                ready_at: Some(Some((now + ONE_DAY_MS) as Ts)),
                ..empty_patch()
            }, skip_name(SkipReason::SuspectPartial), now)
        } else {
            applies(r, rec_id, State::Settling, State::Sized, settled_patch(*id, now), now)
        },
{
    if id.nlink > 1 {
        return bo_qua(rec_id, id, SkipReason::Hardlink, now);
    }
    if id.has_special_mode() {
        return bo_qua(rec_id, id, SkipReason::SpecialMode, now);
    }
    if !cho_qua {
        return bo_qua(rec_id, id, SkipReason::BadMagic, now);
    }
    if co_lo {
        return StepOutcome::apply(Transition::new(
            rec_id,
            State::Settling,
            State::Settling,
            Patch::new().identity(*id).magic_ok(true).skip_reason(Some(SkipReason::SuspectPartial.as_str().to_owned())).ready_at(
                Some(now + ONE_DAY_MS),
            ),
            now,
        ));
    }
    StepOutcome::apply(Transition::new(
        rec_id,
        State::Settling,
        State::Sized,
        Patch::new().identity(*id).enq(Some(id.fingerprint())).magic_ok(true).skip_reason(None).ready_at(Some(now)),
        now,
    ))
}

/// A row reaches `sized` only with the identity of a single-link file without
/// setuid/setgid, its magic checked and its fingerprint recorded.
pub open spec fn sized_only_if_sound(o: StepOutcome) -> bool {
    match o {
        StepOutcome::Apply(t) => t.to == State::Sized ==> match t.patch.identity {
            Some(i) => i.nlink <= 1 && !special_mode(i.mode) && t.patch.enq == Some(Some(fingerprint_of(i)))
                && t.patch.magic_ok == Some(true),
            None => false,
        },
        _ => true,
    }
}

/// The settle step: stat the path, open the file, check it, and say whether
/// it settled. Whatever the filesystem answers, the outcome is one of those of
/// `mat_tich`, `sau_statx` and `sau_mo`.
pub fn buoc<'a, R: Repository, F: FileSystem, D: Deduper>(ctx: &StepCtx<'a, R, F, D>, rec: &FileRecord) -> (r: Result<StepOutcome, StepError>)
    requires
        times_fit(ctx.now, ctx.timing.settle_delay.0),
        rec.state == State::Settling,
    ensures
        r matches Ok(o) ==> about(o, *rec, ctx.now) && sized_only_if_sound(o),
{
    let now = ctx.now;
    let id = match ctx.fs.statx(&rec.loc) {
        Ok(id) => id,
        Err(e) => {
            if e.is_not_found() {
                return Ok(mat_tich(rec.id, now));
            }
            return Err(StepError::Fs(e));
        },
    };
    match sau_statx(rec, &id, now, ctx.timing.settle_delay.0) {
        Some(o) => {
            return Ok(o);
        },
        None => {},
    }
    let f = match ctx.fs.open(&rec.loc) {
        Ok(f) => f,
        Err(e) => {
            if e.is_not_found() {
                return Ok(mat_tich(rec.id, now));
            }
            return Err(StepError::Fs(e));
        },
    };
    let id2 = *f.identity();
    if id2.nlink > 1 || id2.has_special_mode() {
        return Ok(sau_mo(rec.id, &id2, true, false, now));
    }
    let ext = duoi_file(rec.loc.rel_path.as_str());
    let verdict = match magic::kiem_file(ext.as_str(), &f) {
        Ok(v) => v,
        Err(e) => {
            return Err(StepError::Fs(e));
        },
    };
    if !verdict.cho_qua() {
        return Ok(sau_mo(rec.id, &id2, false, false, now));
    }
    let hole = match f.has_hole() {
        Ok(h) => h,
        Err(e) => {
            return Err(StepError::Fs(e));
        },
    };
    Ok(sau_mo(rec.id, &id2, true, hole, now))
}

} // verus!
