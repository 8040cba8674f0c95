//! The `hashed` step: verify against the canonical file and act.
//!
//! This is the only place where contents are taken to be equal, and only
//! after the backend compared every byte. The sparse hash only brings two
//! files here. Every safety condition is checked before the backend is
//! called; the error table then decides what its result means.

use vstd::prelude::*;

use crate::config::parse::dec_chars;
use crate::dedupe::{dedupe_message, same_prefix, DedupeError, DedupeOutcome, Deduper, NoJournal};
use crate::fs::{FileSystem, OpenedFile, ReadAt};
use crate::hash::HASH_VERSION;
use crate::model::{fingerprint_of, record_fingerprint, skip_name, special_mode, FileRecord, Identity, SkipReason, State, Ts};
use crate::repo::memory::lookup::{group_by_id, groups_with_key, members_of};
use crate::repo::memory::{find_file, lemma_file_index};
use crate::repo::types::{empty_patch, DedupEvent, EventMethod, EventResult, Patch};
use crate::repo::{GroupOp, RepoError, Repository, Transition};
use crate::state::{backoff_ms, backoff_spec, MAX_UNSTABLE_ATTEMPTS};
use crate::throttle::IoGovernor;

use super::errno::{chinh_sach, policy_of, ChinhSach};
use super::group::{applies_group, canonical_among};
use super::sized::{back_to_settling_patch, cho_khung_gio, quay_ve_settling, waits_for_window};
use super::{about, applies, applies_error, applies_skip, text_is, times_fit, StepCtx, StepError, StepOutcome, ONE_DAY_MS, ONE_MINUTE_MS, TIME_SPAN};

verus! {

/// The ledger method of a backend, by its name.
pub open spec fn method_of(name: Seq<char>) -> EventMethod {
    if name == "fideduperange"@ {
        EventMethod::Fideduperange
    } else if name == "verified_clone"@ {
        EventMethod::VerifiedClone
    } else {
        EventMethod::DryRun
    }
}

pub fn method_cua(name: &str) -> (r: EventMethod)
    ensures
        r == method_of(name@),
{
    if crate::text::str_eq(name, "fideduperange") {
        proof {
            reveal_strlit("fideduperange");
        }
        EventMethod::Fideduperange
    } else if crate::text::str_eq(name, "verified_clone") {
        EventMethod::VerifiedClone
    } else {
        EventMethod::DryRun
    }
}

/// The `hashed` step. Before any I/O: a row without a group goes back to
/// `sized`; outside the heavy windows it waits; a group that vanished is
/// left; a group without a canonical gets this row as canonical; a row that is
/// the canonical becomes `canonical`; a file above `verify_max_size` is parked.
pub fn buoc<'a, R: Repository, F: FileSystem, D: Deduper, G: IoGovernor>(ctx: &StepCtx<'a, R, F, D>, gov: &mut G, rec: &FileRecord) -> (r: Result<StepOutcome, StepError>)
    requires
        times_fit(ctx.now, ctx.timing.settle_delay.0),
        rec.state == State::Hashed,
        rec.attempts < u32::MAX,
    ensures
        rec.group_id is None ==> r is Ok,
        (rec.group_id is Some && !ctx.allow_heavy) ==> r is Ok,
        ctx.fs.remote_root(rec.loc.root_id) ==> (r matches Ok(StepOutcome::Apply(t)) ==> t.to != State::Deduped),
        r matches Ok(o) ==> {
            &&& about(o, *rec, ctx.now)
            &&& merges_only_if_sound(o, *rec)
            &&& match rec.group_id {
                None => applies(o, rec.id, State::Hashed, State::Sized, Patch { ready_at: Some(Some(ctx.now)), ..empty_patch() }, ctx.now),
                Some(gid) => if !ctx.allow_heavy {
                    waits_for_window(o, rec.id, State::Hashed, rec.heavy_wait_since, ctx.now, ctx.next_heavy_at, "chờ khung giờ nặng để verify")
                } else {
                    match group_by_id(ctx.repo.groups_view(), gid) {
                        None => leaves_group(o, rec.id, gid, ctx.now),
                        Some(g) => match canonical_among(members_of(ctx.repo.files_view(), gid), g.canonical_file_id) {
                            None => applies_group(o, rec.id, State::Hashed, State::Canonical, Patch { ready_at: Some(None), ..empty_patch() },
                                GroupOp::SetCanonical { group: gid, file: rec.id }, ctx.now),
                            Some(c) => if c.id == rec.id {
                                applies(o, rec.id, State::Hashed, State::Canonical, Patch { ready_at: Some(None), ..empty_patch() }, ctx.now)
                            } else if ctx.policy.verify_max_size.0 > 0 && rec.size > ctx.policy.verify_max_size.0 {
                                applies_skip(o, rec.id, State::Hashed, State::Hashed, Patch { ready_at: Some(None), ..empty_patch() }, skip_name(SkipReason::TooLarge), ctx.now)
                            } else {
                                true
                            },
                        },
                    }
                },
            }
        },
{
    let now = ctx.now;
    let group_id = match rec.group_id {
        Some(g) => g,
        None => {
            return Ok(StepOutcome::apply(Transition::new(rec.id, State::Hashed, State::Sized, Patch::new().ready_at(Some(now)), now)));
        },
    };
    if !ctx.allow_heavy {
        return Ok(cho_khung_gio(rec.id, State::Hashed, rec.heavy_wait_since, now, ctx.next_heavy_at, "chờ khung giờ nặng để verify"));
    }
    let g = match ctx.repo.group_get(group_id) {
        Ok(Some(g)) => g,
        Ok(None) => {
            return Ok(roi_nhom(rec.id, group_id, now));
        },
        Err(e) => {
            return Err(StepError::Repo(e));
        },
    };
    let members = match ctx.repo.group_members(group_id) {
        Ok(v) => v,
        Err(e) => {
            return Err(StepError::Repo(e));
        },
    };
    proof {
        lemma_file_index(members@, g.canonical_file_id.unwrap_or(0));
    }
    let k = match g.canonical_file_id {
        Some(id) => find_file(&members, id),
        None => None,
    };
    let k = match k {
        Some(k) => k,
        None => {
            return Ok(StepOutcome::apply(
                Transition::new(rec.id, State::Hashed, State::Canonical, Patch::new().ready_at(None), now).with_group(
                    GroupOp::SetCanonical { group: group_id, file: rec.id },
                ),
            ));
        },
    };
    let canonical = &members[k];
    if canonical.id == rec.id {
        return Ok(StepOutcome::apply(Transition::new(rec.id, State::Hashed, State::Canonical, Patch::new().ready_at(None), now)));
    }
    let gioi_han = ctx.policy.verify_max_size.0;
    if gioi_han > 0 && rec.size > gioi_han {
        return Ok(park(rec.id, SkipReason::TooLarge, now));
    }
    xac_minh(ctx, gov, rec, canonical, group_id)
}

/// A row reaches `deduped` or `verified` only through a `Same` event between
/// the canonical and this row, with the identity of a single-link file
/// without setuid/setgid whose fingerprint is the one that was hashed, and the
/// group marked verified.
pub open spec fn merges_only_if_sound(o: StepOutcome, rec: FileRecord) -> bool {
    match o {
        StepOutcome::Apply(t) => (t.to == State::Deduped || t.to == State::Verified) ==> {
            &&& t.event matches Some(ev) && ev.result == EventResult::Same && ev.dst == Some(rec.key) && ev.src is Some
            &&& t.patch.identity matches Some(i) && fingerprint_of(i) == record_fingerprint(rec) && i.nlink <= 1 && !special_mode(i.mode)
            &&& t.group matches Some(GroupOp::Verified { group, full_hash }) && rec.group_id == Some(group) && full_hash is None
        },
        _ => true,
    }
}

/// What the two opened files decide before the backend is called: `B`
/// changed since it was hashed (back to `settling`); the canonical `A`
/// changed (it goes back to `settling` and `B` takes the role); `B` became a
/// hardlink or setuid/setgid (skipped); `A` and `B` are one inode or differ in
/// size (a fault below: `failed`, never a panic). `None`: call the backend.
pub open spec fn checks_ok(r: Option<StepOutcome>, rec: FileRecord, c: FileRecord, id_a: Identity, id_b: Identity, group_id: i64, now: Ts, delay: i64) -> bool {
    if fingerprint_of(id_b) != record_fingerprint(rec) {
        r matches Some(o) && applies(o, rec.id, rec.state, State::Settling, back_to_settling_patch(now, delay), now)
    } else if fingerprint_of(id_a) != record_fingerprint(c) {
        r matches Some(o) && canonical_changed(o, rec.id, c, group_id, now, delay)
    } else if id_b.nlink > 1 {
        r matches Some(o) && applies_skip(o, rec.id, State::Hashed, State::Skipped, Patch { ready_at: Some(None), ..empty_patch() }, skip_name(SkipReason::Hardlink), now)
    } else if special_mode(id_b.mode) {
        r matches Some(o) && applies_skip(o, rec.id, State::Hashed, State::Skipped, Patch { ready_at: Some(None), ..empty_patch() }, skip_name(SkipReason::SpecialMode), now)
    } else if id_a.key == id_b.key {
        r matches Some(o) && applies_error(o, rec.id, State::Hashed, State::Failed, Patch { ready_at: Some(None), ..empty_patch() }, "A và B là cùng một inode"@, now)
    } else if id_a.size != id_b.size {
        r matches Some(o) && applies_error(o, rec.id, State::Hashed, State::Failed, Patch { ready_at: Some(None), ..empty_patch() }, "kích thước A và B khác nhau"@, now)
    } else {
        r is None
    }
}

pub fn kiem_truoc(rec: &FileRecord, c: &FileRecord, id_a: &Identity, id_b: &Identity, group_id: i64, now: Ts, delay: i64) -> (r: Option<StepOutcome>)
    requires
        rec.state == State::Hashed,
        times_fit(now, delay),
    ensures
        checks_ok(r, *rec, *c, *id_a, *id_b, group_id, now, delay),
{
    if id_b.fingerprint() != rec.fingerprint() {
        return Some(quay_ve_settling(rec.id, rec.state, now, delay));
    }
    if id_a.fingerprint() != c.fingerprint() {
        return Some(goc_da_doi(rec.id, c, group_id, now, delay));
    }
    if id_b.nlink > 1 {
        return Some(bo_qua(rec.id, SkipReason::Hardlink, now));
    }
    if id_b.has_special_mode() {
        return Some(bo_qua(rec.id, SkipReason::SpecialMode, now));
    }
    if id_a.key.same(&id_b.key) {
        return Some(that_bai(rec.id, "A và B là cùng một inode", now));
    }
    if id_a.size != id_b.size {
        return Some(that_bai(rec.id, "kích thước A và B khác nhau", now));
    }
    None
}

/// Step 0: open `A` (the canonical) and `B`, check every invariant, then call
/// the backend and act on its answer.
pub fn xac_minh<'a, R: Repository, F: FileSystem, D: Deduper, G: IoGovernor>(ctx: &StepCtx<'a, R, F, D>, gov: &mut G, rec: &FileRecord, canonical: &FileRecord, group_id: i64) -> (r: Result<StepOutcome, StepError>)
    requires
        times_fit(ctx.now, ctx.timing.settle_delay.0),
        rec.state == State::Hashed,
        rec.attempts < u32::MAX,
        rec.group_id == Some(group_id),
    ensures
        r matches Ok(o) ==> about(o, *rec, ctx.now) && merges_only_if_sound(o, *rec),
        r matches Ok(o) ==> verify_outcome(o, *rec, *canonical, group_id, ctx.now, ctx.timing.settle_delay.0, ctx.repo.groups_view(), ctx.deduper.compares_bytes()),
        r matches Ok(o) ==> (o matches StepOutcome::Apply(t) && (t.to == State::Deduped || t.to == State::Verified) ==>
            through_backend(o, *rec, *canonical, group_id, ctx.now, ctx.timing.settle_delay.0, ctx.repo.groups_view(), ctx.deduper.compares_bytes())
            && (ctx.deduper.compares_bytes() ==> exists|ca: Seq<u8>, cb: Seq<u8>| #[trigger] same_prefix(ca, cb, rec.size as int))),
        ctx.fs.remote_root(rec.loc.root_id) ==> (r matches Ok(StepOutcome::Apply(t)) ==> t.to != State::Deduped),
{
    let now = ctx.now;
    let delay = ctx.timing.settle_delay.0;
    let a = match ctx.fs.open(&canonical.loc) {
        Ok(f) => f,
        Err(e) => {
            if e.is_not_found() {
                return Ok(goc_mat_tich(rec.id, canonical, group_id, now));
            }
            return Err(StepError::Fs(e));
        },
    };
    let opened = if ctx.deduper.dest_needs_write() {
        ctx.fs.open_rw(&rec.loc)
    } else {
        ctx.fs.open(&rec.loc)
    };
    let b = match opened {
        Ok(f) => f,
        Err(e) => {
            if e.is_not_found() {
                return Ok(StepOutcome::apply(Transition::new(
                    rec.id,
                    State::Hashed,
                    State::Missing,
                    Patch::new().prev_state(Some(State::Hashed)).ready_at(None),
                    now,
                )));
            }
            return Err(StepError::Fs(e));
        },
    };
    let id_a = *a.identity();
    let id_b = *b.identity();
    match kiem_truoc(rec, canonical, &id_a, &id_b, group_id, now, delay) {
        Some(o) => {
            return Ok(o);
        },
        None => {},
    }
    let method = method_cua(ctx.deduper.name());
    let shares = ctx.deduper.shares_extents();
    let mut journal = NoJournal;
    let res = ctx.deduper.dedupe(&a, &b, id_b.size, gov, &mut journal);
    let h = match rec.sparse_hash {
        Some(h) => h,
        None => [0u8; 32],
    };
    let ke_tiep = match res {
        Ok(DedupeOutcome::Differs { .. }) => match nhom_ke_tiep(ctx.repo, rec, &h, group_id) {
            Ok(k) => k,
            Err(_) => None,
        },
        _ => None,
    };
    let o = sau_dedupe(rec, canonical, group_id, &id_b, &res, h, ke_tiep, now, method, shares);
    proof {
        assert(backend_outcome(o, *rec, *canonical, group_id, id_b, res, h, ke_tiep, now, method, shares));
        assert(checks_ok(None, *rec, *canonical, id_a, id_b, group_id, now, delay));
        if ctx.deduper.compares_bytes() && res matches Ok(DedupeOutcome::Same { .. }) {
            assert(same_prefix(a.content(), b.content(), id_b.size as int));
        }
    }
    Ok(o)
}

/// `bytes` as an `i64`, saturating.
pub open spec fn shared_i64(bytes: u64) -> i64 {
    if bytes <= i64::MAX {
        bytes as i64
    } else {
        i64::MAX
    }
}

/// The `Same` event of a verified pair.
pub open spec fn same_event(now: Ts, method: EventMethod, c: FileRecord, rec: FileRecord, bytes: u64) -> DedupEvent {
    DedupEvent {
        ts: now,
        src: Some(c.key),
        src_uid: Some(c.owner_uid),
        src_path: None,
        dst: Some(rec.key),
        dst_uid: Some(rec.owner_uid),
        dst_path: None,
        size: Some(rec.size),
        method,
        result: EventResult::Same,
        bytes_shared: shared_i64(bytes),
        errno: None,
        skip_reason: None,
        note: None,
        duration_ms: None,
    }
}

/// The backend confirmed equal contents: the only moment a row may become
/// `deduped` (or `verified`, when nothing was shared: report mode, remote roots).
pub open spec fn same_outcome(o: StepOutcome, rec: FileRecord, canonical: FileRecord, group_id: i64, bytes_shared: u64, id_b: Identity, now: Ts, method: EventMethod, shares: bool) -> bool {
    o matches StepOutcome::Apply(t) && {
        &&& t.id == rec.id && t.from == State::Hashed && t.now == now
        &&& t.to == (if shares { State::Deduped } else { State::Verified })
        &&& t.patch == (Patch { identity: Some(id_b), ready_at: Some(None), attempts: Some(0), ..empty_patch() })
        &&& t.group == Some(GroupOp::Verified { group: group_id, full_hash: None })
        &&& t.event == Some(same_event(now, method, canonical, rec, bytes_shared))
        &&& t.journal is None && t.others@.len() == 0
    }
}

pub fn giong_nhau(rec: &FileRecord, canonical: &FileRecord, group_id: i64, bytes_shared: u64, id_b: &Identity, now: Ts, method: EventMethod, shares: bool) -> (r: StepOutcome)
    ensures
        same_outcome(r, *rec, *canonical, group_id, bytes_shared, *id_b, now, method, shares),
{
    let ket_thuc = if shares {
        State::Deduped
    } else {
        State::Verified
    };
    let mut ev = DedupEvent::new(now, method, EventResult::Same);
    ev.src = Some(canonical.key);
    ev.dst = Some(rec.key);
    ev.src_uid = Some(canonical.owner_uid);
    ev.dst_uid = Some(rec.owner_uid);
    ev.size = Some(rec.size);
    ev.bytes_shared = if bytes_shared <= i64::MAX as u64 {
        bytes_shared as i64
    } else {
        i64::MAX
    };
    StepOutcome::apply(
        Transition::new(rec.id, State::Hashed, ket_thuc, Patch::new().identity(*id_b).ready_at(None).attempts(0), now).with_group(
            GroupOp::Verified { group: group_id, full_hash: None },
        ).with_event(ev),
    )
}

/// Id of the first group after `group_id` among `gs`, or none.
pub open spec fn first_after(gs: Seq<crate::model::Group>, group_id: i64) -> Option<i64>
    decreases gs.len(),
{
    if gs.len() == 0 {
        None
    } else if gs[0].id > group_id {
        Some(gs[0].id)
    } else {
        first_after(gs.subrange(1, gs.len() as int), group_id)
    }
}

/// Id of the first group after `group_id` among `gs`, in their order.
pub fn nhom_sau(gs: &Vec<crate::model::Group>, group_id: i64) -> (r: Option<i64>)
    ensures
        r == first_after(gs@, group_id),
{
    let ghost s = gs@;
    let mut i: usize = 0;
    assert(s.subrange(0, s.len() as int) =~= s);
    while i < gs.len()
        invariant
            s == gs@,
            i <= s.len(),
            first_after(s, group_id) == first_after(s.subrange(i as int, s.len() as int), group_id),
        decreases s.len() - i,
    {
        let ghost t = s.subrange(i as int, s.len() as int);
        assert(t[0] == s[i as int]);
        if gs[i].id > group_id {
            return Some(gs[i].id);
        }
        assert(t.subrange(1, t.len() as int) =~= s.subrange(i + 1, s.len() as int));
        i = i + 1;
    }
    None
}

/// The next group of the same key with a larger id, read from the repository.
pub fn nhom_ke_tiep<R: Repository>(repo: &R, rec: &FileRecord, h: &[u8; 32], group_id: i64) -> (r: Result<Option<i64>, RepoError>)
    ensures
        r matches Ok(o) ==> o == first_after(groups_with_key(repo.groups_view(), rec.domain_id, rec.size, *h), group_id),
{
    let gs = match repo.groups_by_key(&rec.domain_id, rec.size, h) {
        Ok(v) => v,
        Err(e) => {
            return Err(e);
        },
    };
    Ok(nhom_sau(&gs, group_id))
}

/// What the step hands back for the backend's answer `res`: `Same` verifies
/// (or merges); `Differs` moves the row to the next group `ke_tiep` of its key
/// or lets it open one with the sparse hash `h`; an error goes through the
/// error table.
pub open spec fn backend_outcome(o: StepOutcome, rec: FileRecord, canonical: FileRecord, group_id: i64, id_b: Identity, res: Result<DedupeOutcome, DedupeError>, h: [u8; 32], ke_tiep: Option<i64>, now: Ts, method: EventMethod, shares: bool) -> bool {
    match res {
        Ok(DedupeOutcome::Same { bytes_shared }) => same_outcome(o, rec, canonical, group_id, bytes_shared, id_b, now, method, shares),
        Ok(DedupeOutcome::Differs { at_offset }) => differs_outcome(o, rec, canonical, at_offset, h, ke_tiep, now, method),
        Err(e) => error_outcome_ok(o, rec, canonical, e, now, method),
    }
}

/// The outcome of the backend's answer `res` for the pair (`canonical`, `rec`).
pub fn sau_dedupe(rec: &FileRecord, canonical: &FileRecord, group_id: i64, id_b: &Identity, res: &Result<DedupeOutcome, DedupeError>, h: [u8; 32], ke_tiep: Option<i64>, now: Ts, method: EventMethod, shares: bool) -> (r: StepOutcome)
    requires
        0 <= now <= TIME_SPAN,
        rec.attempts < u32::MAX,
    ensures
        backend_outcome(r, *rec, *canonical, group_id, *id_b, *res, h, ke_tiep, now, method, shares),
{
    match res {
        Ok(DedupeOutcome::Same { bytes_shared }) => giong_nhau(rec, canonical, group_id, *bytes_shared, id_b, now, method, shares),
        Ok(DedupeOutcome::Differs { at_offset }) => khac_nhau(rec, canonical, group_id, *at_offset, h, ke_tiep, now, method),
        Err(e) => xu_ly_loi(rec, canonical, e, now, method),
    }
}

/// The outcome came from the backend: the opened files passed every check
/// (`id_b` is the identity of `B`), the backend answered `res` and the step
/// handed back what `sau_dedupe` gives for it, with the row's sparse hash
/// `h`. `ke_tiep` is the next group of the key when the read of the groups
/// succeeded, none otherwise; a backend
/// that compares bytes answered `Same` only on equal contents of `B`'s size.
pub open spec fn through_backend(o: StepOutcome, rec: FileRecord, c: FileRecord, group_id: i64, now: Ts, delay: i64, groups: Seq<crate::model::Group>, compares: bool) -> bool {
    exists|id_b: Identity, res: Result<DedupeOutcome, DedupeError>, h: [u8; 32], ke: Option<i64>, m: EventMethod, sh: bool|
        #[trigger] backend_outcome(o, rec, c, group_id, id_b, res, h, ke, now, m, sh) && {
            &&& exists|id_a: Identity| #[trigger] checks_ok(None, rec, c, id_a, id_b, group_id, now, delay)
            &&& rec.sparse_hash matches Some(x) ==> h == x
            &&& ke is Some ==> ke == first_after(groups_with_key(groups, rec.domain_id, rec.size, h), group_id)
            &&& (compares && res matches Ok(DedupeOutcome::Same { .. })) ==> exists|ca: Seq<u8>, cb: Seq<u8>| #[trigger] same_prefix(ca, cb, id_b.size as int)
        }
}

/// Every outcome of the verify step after the group checks: the canonical
/// vanished; `B` vanished; a check on the opened files decided; or the backend
/// answered.
pub open spec fn verify_outcome(o: StepOutcome, rec: FileRecord, c: FileRecord, group_id: i64, now: Ts, delay: i64, groups: Seq<crate::model::Group>, compares: bool) -> bool {
    ||| takes_over(o, rec.id, c, group_id, State::Missing, Patch { prev_state: Some(Some(c.state)), ready_at: Some(None), ..empty_patch() }, now)
    ||| applies(o, rec.id, State::Hashed, State::Missing, Patch { prev_state: Some(Some(State::Hashed)), ready_at: Some(None), ..empty_patch() }, now)
    ||| exists|id_a: Identity, id_b: Identity| #[trigger] checks_ok(Some(o), rec, c, id_a, id_b, group_id, now, delay)
    ||| through_backend(o, rec, c, group_id, now, delay, groups, compares)
}

/// The note of a `Differs` event.
pub open spec fn differs_note(at: u64) -> Seq<char> {
    "khác nhau tại offset "@ + dec_chars(at as nat)
}

fn note_offset(at: u64) -> (r: String)
    ensures
        r@ == differs_note(at),
{
    let d = crate::config::parse::dec_vec(at);
    let tail = crate::text::string_of(&d);
    crate::text::concat_str("khác nhau tại offset ", tail.as_str())
}

/// The `Differs` event of a pair whose contents differ.
pub open spec fn differs_event_ok(ev: DedupEvent, now: Ts, method: EventMethod, c: FileRecord, rec: FileRecord, at: u64) -> bool {
    &&& ev == (DedupEvent {
        ts: now,
        src: Some(c.key),
        src_uid: None,
        src_path: None,
        dst: Some(rec.key),
        dst_uid: None,
        dst_path: None,
        size: Some(rec.size),
        method,
        result: EventResult::Differs,
        bytes_shared: 0,
        errno: None,
        skip_reason: None,
        note: ev.note,
        duration_ms: None,
    })
    &&& text_is(Some(ev.note), differs_note(at))
}

/// Equal sparse hash, different contents: a false positive of the filter.
/// The row moves on to the next group of its key (never back, so a pair is
/// never verified twice); with no group left it opens one of its own.
pub open spec fn differs_outcome(o: StepOutcome, rec: FileRecord, canonical: FileRecord, at_offset: u64, h: [u8; 32], ke_tiep: Option<i64>, now: Ts, method: EventMethod) -> bool {
    o matches StepOutcome::Apply(t) && {
        &&& t.id == rec.id && t.from == State::Hashed && t.now == now
        &&& t.event matches Some(ev) && differs_event_ok(ev, now, method, canonical, rec, at_offset)
        &&& t.journal is None && t.others@.len() == 0
        &&& match ke_tiep {
            Some(g) => t.to == State::Hashed && t.patch == (Patch { group_id: Some(Some(g)), ready_at: Some(Some(now)), ..empty_patch() })
                && t.group is None,
            None => t.to == State::Canonical && t.patch == (Patch { group_id: Some(None), ready_at: Some(None), ..empty_patch() })
                && t.group == Some(GroupOp::Create { canonical: rec.id, sparse_hash: h, hash_version: HASH_VERSION }),
        }
    }
}

pub fn khac_nhau(rec: &FileRecord, canonical: &FileRecord, group_id: i64, at_offset: u64, h: [u8; 32], ke_tiep: Option<i64>, now: Ts, method: EventMethod) -> (r: StepOutcome)
    ensures
        differs_outcome(r, *rec, *canonical, at_offset, h, ke_tiep, now, method),
{
    let mut ev = DedupEvent::new(now, method, EventResult::Differs);
    ev.src = Some(canonical.key);
    ev.dst = Some(rec.key);
    ev.size = Some(rec.size);
    ev.note = Some(note_offset(at_offset));
    match ke_tiep {
        Some(g) => StepOutcome::apply(
            Transition::new(rec.id, State::Hashed, State::Hashed, Patch::new().group_id(Some(g)).ready_at(Some(now)), now).with_event(ev),
        ),
        None => StepOutcome::apply(
            Transition::new(rec.id, State::Hashed, State::Canonical, Patch::new().group_id(None).ready_at(None), now).with_group(
                GroupOp::Create { canonical: rec.id, sparse_hash: h, hash_version: HASH_VERSION },
            ).with_event(ev),
        ),
    }
}

/// The `Error` event of a failed backend call.
pub open spec fn error_event_ok(ev: DedupEvent, now: Ts, method: EventMethod, c: FileRecord, rec: FileRecord, e: DedupeError) -> bool {
    &&& ev == (DedupEvent {
        ts: now,
        src: Some(c.key),
        src_uid: None,
        src_path: None,
        dst: Some(rec.key),
        dst_uid: None,
        dst_path: None,
        size: Some(rec.size),
        method,
        result: EventResult::Error,
        bytes_shared: 0,
        errno: match e {
            DedupeError::Errno(n) => Some(n.0),
            _ => None,
        },
        skip_reason: None,
        note: ev.note,
        duration_ms: None,
    })
    &&& text_is(Some(ev.note), dedupe_message(e))
}

/// The patch `p` is `base` with the optional texts set: the last error to
/// `err` and the skip reason to `why` where given.
pub open spec fn patch_with_texts(p: Patch, base: Patch, err: Option<Seq<char>>, why: Option<Seq<char>>) -> bool {
    &&& p == (Patch { last_error: p.last_error, skip_reason: p.skip_reason, ..base })
    &&& match err {
        Some(s) => text_is(p.last_error, s),
        None => p.last_error == base.last_error,
    }
    &&& match why {
        Some(s) => text_is(p.skip_reason, s),
        None => p.skip_reason == base.skip_reason,
    }
}

/// `attempts` after an error of policy `cs`.
pub open spec fn attempts_after(cs: ChinhSach, attempts: u32) -> u32 {
    if cs.tang_attempts_spec() {
        (attempts + 1) as u32
    } else {
        attempts
    }
}

/// The error table applied to one backend error: what the row becomes.
pub open spec fn error_outcome_ok(o: StepOutcome, rec: FileRecord, c: FileRecord, e: DedupeError, now: Ts, method: EventMethod) -> bool {
    let cs = policy_of(e);
    let a = attempts_after(cs, rec.attempts);
    match cs {
        ChinhSach::Dung => o == (StepOutcome::Defer { until: (now + ONE_MINUTE_MS) as Ts, reason: "bị dừng giữa chừng" }),
        ChinhSach::ThuLaiNgay => o == (StepOutcome::Defer { until: now, reason: "tín hiệu, thử lại ngay" }),
        _ => o matches StepOutcome::Apply(t) && {
            &&& t.id == rec.id && t.from == State::Hashed && t.now == now
            &&& t.group is None && t.journal is None && t.others@.len() == 0
            &&& t.event matches Some(ev) && error_event_ok(ev, now, method, c, rec, e)
            &&& match cs {
                ChinhSach::FingerprintDoi => t.to == State::Settling && if a >= MAX_UNSTABLE_ATTEMPTS {
                    patch_with_texts(t.patch, Patch {
                        attempts: Some(a),
                        sparse_hash: Some(None),
                        group_id: Some(None),
                        ready_at: Some(Some((now + ONE_DAY_MS) as Ts)),
                        ..empty_patch()
                    }, None, Some(skip_name(SkipReason::Unstable)))
                } else {
                    t.patch == (Patch {
                        attempts: Some(a),
                        skip_reason: Some(None),
                        sparse_hash: Some(None),
                        group_id: Some(None),
                        ready_at: Some(Some((now + backoff_spec(a)) as Ts)),
                        ..empty_patch()
                    })
                },
                ChinhSach::Backoff | ChinhSach::BackoffVaCanhBao => t.to == State::Hashed && patch_with_texts(t.patch, Patch {
                    attempts: Some(a),
                    ready_at: Some(Some((now + backoff_spec(a)) as Ts)),
                    ..empty_patch()
                }, Some(dedupe_message(e)), None),
                ChinhSach::ParkDomain => t.to == State::Hashed && patch_with_texts(t.patch, Patch { ready_at: Some(None), ..empty_patch() },
                    Some(dedupe_message(e)), Some(skip_name(SkipReason::Unsupported))),
                ChinhSach::CapKhongDuoc(why) => t.to == State::Sized && patch_with_texts(t.patch, Patch {
                    group_id: Some(None),
                    ready_at: Some(Some(now)),
                    ..empty_patch()
                }, None, Some(skip_name(why))),
                _ => t.to == State::Failed && patch_with_texts(t.patch, Patch { ready_at: Some(None), ..empty_patch() }, Some(dedupe_message(e)), None),
            }
        },
    }
}

/// Applies the error table to one backend error. Stops and signals are
/// rescheduled without an event; a file written repeatedly during the work is
/// given a day's rest once it reached `MAX_UNSTABLE_ATTEMPTS`, so that it
/// does not cost `2 × size` of reads every round forever.
pub fn xu_ly_loi(rec: &FileRecord, canonical: &FileRecord, e: &DedupeError, now: Ts, method: EventMethod) -> (r: StepOutcome)
    requires
        0 <= now <= TIME_SPAN,
        rec.attempts < u32::MAX,
    ensures
        error_outcome_ok(r, *rec, *canonical, *e, now, method),
{
    let cs = chinh_sach(e);
    let attempts = if cs.tang_attempts() {
        rec.attempts + 1
    } else {
        rec.attempts
    };
    let msg = e.message();
    let mut ev = DedupEvent::new(now, method, EventResult::Error);
    ev.src = Some(canonical.key);
    ev.dst = Some(rec.key);
    ev.size = Some(rec.size);
    ev.note = Some(e.message());
    match e {
        DedupeError::Errno(n) => {
            ev.errno = Some(n.0);
        },
        _ => {},
    }
    let t = match cs {
        ChinhSach::Dung => {
            return StepOutcome::Defer { until: now + ONE_MINUTE_MS, reason: "bị dừng giữa chừng" };
        },
        ChinhSach::ThuLaiNgay => {
            return StepOutcome::Defer { until: now, reason: "tín hiệu, thử lại ngay" };
        },
        ChinhSach::FingerprintDoi => {
            let khong_on = attempts >= MAX_UNSTABLE_ATTEMPTS;
            if khong_on {
                Transition::new(
                    rec.id,
                    State::Hashed,
                    State::Settling,
                    Patch::new().attempts(attempts).skip_reason(Some(SkipReason::Unstable.as_str().to_owned())).sparse_hash(None).group_id(
                        None,
                    ).ready_at(Some(now + ONE_DAY_MS)),
                    now,
                )
            } else {
                let delay = backoff_ms(attempts);
                Transition::new(
                    rec.id,
                    State::Hashed,
                    State::Settling,
                    Patch::new().attempts(attempts).skip_reason(None).sparse_hash(None).group_id(None).ready_at(Some(now + delay)),
                    now,
                )
            }
        },
        ChinhSach::Backoff | ChinhSach::BackoffVaCanhBao => {
            let delay = backoff_ms(attempts);
            Transition::new(
                rec.id,
                State::Hashed,
                State::Hashed,
                Patch::new().attempts(attempts).last_error(Some(msg)).ready_at(Some(now + delay)),
                now,
            )
        },
        ChinhSach::ParkDomain => Transition::new(
            rec.id,
            State::Hashed,
            State::Hashed,
            Patch::new().last_error(Some(msg)).skip_reason(Some(SkipReason::Unsupported.as_str().to_owned())).ready_at(None),
            now,
        ),
        ChinhSach::CapKhongDuoc(why) => Transition::new(
            rec.id,
            State::Hashed,
            State::Sized,
            Patch::new().group_id(None).skip_reason(Some(why.as_str().to_owned())).ready_at(Some(now)),
            now,
        ),
        ChinhSach::ThatBai => Transition::new(
            rec.id,
            State::Hashed,
            State::Failed,
            Patch::new().last_error(Some(msg)).ready_at(None),
            now,
        ),
    };
    StepOutcome::apply(t.with_event(ev))
}

/// Leaving a group that no longer exists: back to `sized` to look again.
pub open spec fn leaves_group(o: StepOutcome, rec_id: i64, group_id: i64, now: Ts) -> bool {
    applies_group(o, rec_id, State::Hashed, State::Sized, Patch { group_id: Some(None), ready_at: Some(Some(now)), ..empty_patch() }, GroupOp::Leave(group_id), now)
}

pub fn roi_nhom(rec_id: i64, group_id: i64, now: Ts) -> (r: StepOutcome)
    ensures
        leaves_group(r, rec_id, group_id, now),
{
    StepOutcome::apply(
        Transition::new(rec_id, State::Hashed, State::Sized, Patch::new().group_id(None).ready_at(Some(now)), now).with_group(
            GroupOp::Leave(group_id),
        ),
    )
}

/// The row takes the canonical role in the same transaction as a change of
/// the old canonical `c` to `to` with `patch`.
pub open spec fn takes_over(o: StepOutcome, rec_id: i64, c: FileRecord, group_id: i64, to: State, patch: Patch, now: Ts) -> bool {
    o matches StepOutcome::Apply(t) && {
        &&& t.id == rec_id && t.from == State::Hashed && t.to == State::Canonical && t.now == now
        &&& t.patch == (Patch { ready_at: Some(None), ..empty_patch() })
        &&& t.group == Some(GroupOp::SetCanonical { group: group_id, file: rec_id })
        &&& t.event is None && t.journal is None
        &&& t.others@ == seq![(c.id, c.state, to, patch)]
    }
}

/// The canonical vanished: it goes `missing` and this row takes the role.
pub fn goc_mat_tich(rec_id: i64, c: &FileRecord, group_id: i64, now: Ts) -> (r: StepOutcome)
    ensures
        takes_over(r, rec_id, *c, group_id, State::Missing, Patch { prev_state: Some(Some(c.state)), ready_at: Some(None), ..empty_patch() }, now),
{
    let t = Transition::new(rec_id, State::Hashed, State::Canonical, Patch::new().ready_at(None), now).with_group(
        GroupOp::SetCanonical { group: group_id, file: rec_id },
    ).with_other(c.id, c.state, State::Missing, Patch::new().prev_state(Some(c.state)).ready_at(None));
    assert(t.others@ =~= seq![(c.id, c.state, State::Missing, Patch { prev_state: Some(Some(c.state)), ready_at: Some(None), ..empty_patch() })]);
    StepOutcome::apply(t)
}

/// The canonical was overwritten: it goes back to `settling` to be hashed
/// again and this row takes the role meanwhile.
pub open spec fn canonical_changed(o: StepOutcome, rec_id: i64, c: FileRecord, group_id: i64, now: Ts, delay: i64) -> bool {
    takes_over(o, rec_id, c, group_id, State::Settling, Patch {
        sparse_hash: Some(None),
        group_id: Some(None),
        ready_at: Some(Some((now + delay) as Ts)),
        ..empty_patch()
    }, now)
}

pub fn goc_da_doi(rec_id: i64, c: &FileRecord, group_id: i64, now: Ts, delay: i64) -> (r: StepOutcome)
    requires
        times_fit(now, delay),
    ensures
        canonical_changed(r, rec_id, *c, group_id, now, delay),
{
    let t = Transition::new(rec_id, State::Hashed, State::Canonical, Patch::new().ready_at(None), now).with_group(
        GroupOp::SetCanonical { group: group_id, file: rec_id },
    ).with_other(c.id, c.state, State::Settling, Patch::new().sparse_hash(None).group_id(None).ready_at(Some(now + delay)));
    assert(t.others@ =~= seq![(c.id, c.state, State::Settling, Patch {
        sparse_hash: Some(None),
        group_id: Some(None),
        ready_at: Some(Some((now + delay) as Ts)),
        ..empty_patch()
    })]);
    StepOutcome::apply(t)
}

/// Parked: stays `hashed` without a wake-up time (the user may raise the limit).
pub fn park(rec_id: i64, why: SkipReason, now: Ts) -> (r: StepOutcome)
    ensures
        applies_skip(r, rec_id, State::Hashed, State::Hashed, Patch { ready_at: Some(None), ..empty_patch() }, skip_name(why), now),
{
    StepOutcome::apply(Transition::new(
        rec_id,
        State::Hashed,
        State::Hashed,
        Patch::new().skip_reason(Some(why.as_str().to_owned())).ready_at(None),
        now,
    ))
}

pub fn bo_qua(rec_id: i64, why: SkipReason, now: Ts) -> (r: StepOutcome)
    ensures
        applies_skip(r, rec_id, State::Hashed, State::Skipped, Patch { ready_at: Some(None), ..empty_patch() }, skip_name(why), now),
{
    StepOutcome::apply(Transition::new(
        rec_id,
        State::Hashed,
        State::Skipped,
        Patch::new().skip_reason(Some(why.as_str().to_owned())).ready_at(None),
        now,
    ))
}

/// A fault below the pipeline: the row stops at `failed` with the reason.
pub fn that_bai(rec_id: i64, vi_sao: &str, now: Ts) -> (r: StepOutcome)
    ensures
        applies_error(r, rec_id, State::Hashed, State::Failed, Patch { ready_at: Some(None), ..empty_patch() }, vi_sao@, now),
{
    StepOutcome::apply(Transition::new(rec_id, State::Hashed, State::Failed, Patch::new().last_error(Some(vi_sao.to_owned())).ready_at(None), now))
}

} // verus!
