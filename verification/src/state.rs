//! The table of valid state transitions, as data.
//!
//! Every transition in the system is declared here. `Repository::apply` is a
//! compare-and-swap on `(id, from)`, so this table is the contract between the
//! pipeline, which produces transitions, and the storage, which performs them.

use vstd::prelude::*;

use crate::model::State;

verus! {

/// Maximum attempts for a transient error before a row becomes `failed`.
pub const MAX_ATTEMPTS: u32 = 8;

/// Consecutive fingerprint changes before a row is marked `unstable`.
pub const MAX_UNSTABLE_ATTEMPTS: u32 = 5;

/// Why a transition happens; used for logs and coverage of the table.
#[derive(Clone, Copy, Debug, PartialEq, Eq, Structural, Hash, PartialOrd, Ord)]
pub enum Reason {
    /// `settling → sized`: the file settled and its magic is valid.
    Settled,
    /// `settling|sized|hashed → skipped`: rejected by a filter or an open-time check.
    Rejected,
    /// `sized → distinct`: no candidate, or no hash matched.
    NoMatch,
    /// `sized → hashed`: the hash matched a group.
    Matched,
    /// `sized|distinct|hashed → canonical`: chosen as the root of a group.
    BecameCanonical,
    /// `deduped → canonical`: re-elected when the old canonical is gone.
    Promoted,
    /// `hashed → deduped`: confirmed identical and extents shared.
    Shared,
    /// `hashed → verified`: a dry run compared equal bytes, nothing shared.
    DryRunSame,
    /// `hashed → hashed`: differs from this group, try the next one.
    NextGroup,
    /// `verified → hashed`: requeued when dedup mode is enabled.
    Requeued,
    /// `* → settling`: the fingerprint changed.
    Changed,
    /// `* → missing`: positive evidence that the file is gone.
    Vanished,
    /// `missing → prev_state`: seen again with a matching fingerprint.
    Restored,
    /// `missing → gone`: confirmed lost beyond retention.
    Expired,
    /// `hashed → failed`: repeated error or programming error.
    Failed,
    /// `deduped|canonical → skipped(user_undo)`: the user asked for `undo`.
    UserUndo,
}

/// One row of the transition table.
#[derive(Clone, Copy, Debug, PartialEq, Eq, Structural)]
pub struct TransitionRule {
    pub from: State,
    pub to: State,
    pub reason: Reason,
}

/// Number of rows in the table.
pub const RULE_COUNT: usize = 44;

/// Row `i` of the table (rows in the order of the specification).
pub open spec fn rule_at(i: int) -> TransitionRule {
    if i == 0 {
        TransitionRule { from: State::Settling, to: State::Sized, reason: Reason::Settled }
    } else if i == 1 {
        TransitionRule { from: State::Settling, to: State::Skipped, reason: Reason::Rejected }
    } else if i == 2 {
        TransitionRule { from: State::Sized, to: State::Skipped, reason: Reason::Rejected }
    } else if i == 3 {
        TransitionRule { from: State::Sized, to: State::Distinct, reason: Reason::NoMatch }
    } else if i == 4 {
        TransitionRule { from: State::Sized, to: State::Hashed, reason: Reason::Matched }
    } else if i == 5 {
        TransitionRule { from: State::Sized, to: State::Canonical, reason: Reason::BecameCanonical }
    } else if i == 6 {
        TransitionRule { from: State::Hashed, to: State::Deduped, reason: Reason::Shared }
    } else if i == 7 {
        TransitionRule { from: State::Hashed, to: State::Verified, reason: Reason::DryRunSame }
    } else if i == 8 {
        TransitionRule { from: State::Hashed, to: State::Hashed, reason: Reason::NextGroup }
    } else if i == 9 {
        TransitionRule { from: State::Hashed, to: State::Canonical, reason: Reason::BecameCanonical }
    } else if i == 10 {
        TransitionRule { from: State::Hashed, to: State::Skipped, reason: Reason::Rejected }
    } else if i == 11 {
        TransitionRule { from: State::Hashed, to: State::Failed, reason: Reason::Failed }
    } else if i == 12 {
        TransitionRule { from: State::Verified, to: State::Hashed, reason: Reason::Requeued }
    } else if i == 13 {
        TransitionRule { from: State::Distinct, to: State::Canonical, reason: Reason::BecameCanonical }
    } else if i == 14 {
        TransitionRule { from: State::Deduped, to: State::Canonical, reason: Reason::Promoted }
    } else if i == 15 {
        TransitionRule { from: State::Deduped, to: State::Skipped, reason: Reason::UserUndo }
    } else if i == 16 {
        TransitionRule { from: State::Canonical, to: State::Skipped, reason: Reason::UserUndo }
    } else if i == 17 {
        TransitionRule { from: State::Sized, to: State::Settling, reason: Reason::Changed }
    } else if i == 18 {
        TransitionRule { from: State::Hashed, to: State::Settling, reason: Reason::Changed }
    } else if i == 19 {
        TransitionRule { from: State::Verified, to: State::Settling, reason: Reason::Changed }
    } else if i == 20 {
        TransitionRule { from: State::Deduped, to: State::Settling, reason: Reason::Changed }
    } else if i == 21 {
        TransitionRule { from: State::Distinct, to: State::Settling, reason: Reason::Changed }
    } else if i == 22 {
        TransitionRule { from: State::Canonical, to: State::Settling, reason: Reason::Changed }
    } else if i == 23 {
        TransitionRule { from: State::Skipped, to: State::Settling, reason: Reason::Changed }
    } else if i == 24 {
        TransitionRule { from: State::Failed, to: State::Settling, reason: Reason::Changed }
    } else if i == 25 {
        TransitionRule { from: State::Missing, to: State::Settling, reason: Reason::Changed }
    } else if i == 26 {
        TransitionRule { from: State::Settling, to: State::Missing, reason: Reason::Vanished }
    } else if i == 27 {
        TransitionRule { from: State::Sized, to: State::Missing, reason: Reason::Vanished }
    } else if i == 28 {
        TransitionRule { from: State::Hashed, to: State::Missing, reason: Reason::Vanished }
    } else if i == 29 {
        TransitionRule { from: State::Verified, to: State::Missing, reason: Reason::Vanished }
    } else if i == 30 {
        TransitionRule { from: State::Deduped, to: State::Missing, reason: Reason::Vanished }
    } else if i == 31 {
        TransitionRule { from: State::Distinct, to: State::Missing, reason: Reason::Vanished }
    } else if i == 32 {
        TransitionRule { from: State::Canonical, to: State::Missing, reason: Reason::Vanished }
    } else if i == 33 {
        TransitionRule { from: State::Skipped, to: State::Missing, reason: Reason::Vanished }
    } else if i == 34 {
        TransitionRule { from: State::Failed, to: State::Missing, reason: Reason::Vanished }
    } else if i == 35 {
        TransitionRule { from: State::Missing, to: State::Sized, reason: Reason::Restored }
    } else if i == 36 {
        TransitionRule { from: State::Missing, to: State::Hashed, reason: Reason::Restored }
    } else if i == 37 {
        TransitionRule { from: State::Missing, to: State::Verified, reason: Reason::Restored }
    } else if i == 38 {
        TransitionRule { from: State::Missing, to: State::Deduped, reason: Reason::Restored }
    } else if i == 39 {
        TransitionRule { from: State::Missing, to: State::Distinct, reason: Reason::Restored }
    } else if i == 40 {
        TransitionRule { from: State::Missing, to: State::Canonical, reason: Reason::Restored }
    } else if i == 41 {
        TransitionRule { from: State::Missing, to: State::Skipped, reason: Reason::Restored }
    } else if i == 42 {
        TransitionRule { from: State::Missing, to: State::Failed, reason: Reason::Restored }
    } else {
        TransitionRule { from: State::Missing, to: State::Gone, reason: Reason::Expired }
    }
}

/// Row `i` of the table.
pub fn rule(i: usize) -> (r: TransitionRule)
    requires
        i < RULE_COUNT,
    ensures
        r == rule_at(i as int),
{
    match i {
        0 => TransitionRule { from: State::Settling, to: State::Sized, reason: Reason::Settled },
        1 => TransitionRule { from: State::Settling, to: State::Skipped, reason: Reason::Rejected },
        2 => TransitionRule { from: State::Sized, to: State::Skipped, reason: Reason::Rejected },
        3 => TransitionRule { from: State::Sized, to: State::Distinct, reason: Reason::NoMatch },
        4 => TransitionRule { from: State::Sized, to: State::Hashed, reason: Reason::Matched },
        5 => TransitionRule { from: State::Sized, to: State::Canonical, reason: Reason::BecameCanonical },
        6 => TransitionRule { from: State::Hashed, to: State::Deduped, reason: Reason::Shared },
        7 => TransitionRule { from: State::Hashed, to: State::Verified, reason: Reason::DryRunSame },
        8 => TransitionRule { from: State::Hashed, to: State::Hashed, reason: Reason::NextGroup },
        9 => TransitionRule { from: State::Hashed, to: State::Canonical, reason: Reason::BecameCanonical },
        10 => TransitionRule { from: State::Hashed, to: State::Skipped, reason: Reason::Rejected },
        11 => TransitionRule { from: State::Hashed, to: State::Failed, reason: Reason::Failed },
        12 => TransitionRule { from: State::Verified, to: State::Hashed, reason: Reason::Requeued },
        13 => TransitionRule { from: State::Distinct, to: State::Canonical, reason: Reason::BecameCanonical },
        14 => TransitionRule { from: State::Deduped, to: State::Canonical, reason: Reason::Promoted },
        15 => TransitionRule { from: State::Deduped, to: State::Skipped, reason: Reason::UserUndo },
        16 => TransitionRule { from: State::Canonical, to: State::Skipped, reason: Reason::UserUndo },
        17 => TransitionRule { from: State::Sized, to: State::Settling, reason: Reason::Changed },
        18 => TransitionRule { from: State::Hashed, to: State::Settling, reason: Reason::Changed },
        19 => TransitionRule { from: State::Verified, to: State::Settling, reason: Reason::Changed },
        20 => TransitionRule { from: State::Deduped, to: State::Settling, reason: Reason::Changed },
        21 => TransitionRule { from: State::Distinct, to: State::Settling, reason: Reason::Changed },
        22 => TransitionRule { from: State::Canonical, to: State::Settling, reason: Reason::Changed },
        23 => TransitionRule { from: State::Skipped, to: State::Settling, reason: Reason::Changed },
        24 => TransitionRule { from: State::Failed, to: State::Settling, reason: Reason::Changed },
        25 => TransitionRule { from: State::Missing, to: State::Settling, reason: Reason::Changed },
        26 => TransitionRule { from: State::Settling, to: State::Missing, reason: Reason::Vanished },
        27 => TransitionRule { from: State::Sized, to: State::Missing, reason: Reason::Vanished },
        28 => TransitionRule { from: State::Hashed, to: State::Missing, reason: Reason::Vanished },
        29 => TransitionRule { from: State::Verified, to: State::Missing, reason: Reason::Vanished },
        30 => TransitionRule { from: State::Deduped, to: State::Missing, reason: Reason::Vanished },
        31 => TransitionRule { from: State::Distinct, to: State::Missing, reason: Reason::Vanished },
        32 => TransitionRule { from: State::Canonical, to: State::Missing, reason: Reason::Vanished },
        33 => TransitionRule { from: State::Skipped, to: State::Missing, reason: Reason::Vanished },
        34 => TransitionRule { from: State::Failed, to: State::Missing, reason: Reason::Vanished },
        35 => TransitionRule { from: State::Missing, to: State::Sized, reason: Reason::Restored },
        36 => TransitionRule { from: State::Missing, to: State::Hashed, reason: Reason::Restored },
        37 => TransitionRule { from: State::Missing, to: State::Verified, reason: Reason::Restored },
        38 => TransitionRule { from: State::Missing, to: State::Deduped, reason: Reason::Restored },
        39 => TransitionRule { from: State::Missing, to: State::Distinct, reason: Reason::Restored },
        40 => TransitionRule { from: State::Missing, to: State::Canonical, reason: Reason::Restored },
        41 => TransitionRule { from: State::Missing, to: State::Skipped, reason: Reason::Restored },
        42 => TransitionRule { from: State::Missing, to: State::Failed, reason: Reason::Restored },
        _ => TransitionRule { from: State::Missing, to: State::Gone, reason: Reason::Expired },
    }
}

/// The whole table, in order.
pub fn rules() -> (v: Vec<TransitionRule>)
    ensures
        v@.len() == RULE_COUNT,
        forall|i: int| 0 <= i < RULE_COUNT ==> v@[i] == rule_at(i),
{
    let mut v: Vec<TransitionRule> = Vec::new();
    let mut i: usize = 0;
    while i < RULE_COUNT
        invariant
            i <= RULE_COUNT,
            v@.len() == i,
            forall|j: int| 0 <= j < i ==> v@[j] == rule_at(j),
        decreases RULE_COUNT - i,
    {
        v.push(rule(i));
        i = i + 1;
    }
    v
}

/// `from → to` appears in the table.
pub open spec fn valid_transition(from: State, to: State) -> bool {
    exists|i: int| 0 <= i < RULE_COUNT && #[trigger] rule_at(i).from == from && rule_at(i).to == to
}

/// First row at or after `i` for `from → to`.
pub open spec fn first_reason(from: State, to: State, i: int) -> Option<Reason>
    decreases RULE_COUNT - i,
{
    if i < 0 || i >= RULE_COUNT {
        None
    } else if rule_at(i).from == from && rule_at(i).to == to {
        Some(rule_at(i).reason)
    } else {
        first_reason(from, to, i + 1)
    }
}

proof fn lemma_first_reason(from: State, to: State, i: int)
    requires
        0 <= i <= RULE_COUNT,
    ensures
        first_reason(from, to, i) is Some <==> exists|k: int|
            i <= k < RULE_COUNT && #[trigger] rule_at(k).from == from && rule_at(k).to == to,
    decreases RULE_COUNT - i,
{
    if i < RULE_COUNT {
        lemma_first_reason(from, to, i + 1);
        if first_reason(from, to, i) is Some {
            if rule_at(i).from == from && rule_at(i).to == to {
            } else {
                let k = choose|k: int|
                    i + 1 <= k < RULE_COUNT && #[trigger] rule_at(k).from == from && rule_at(k).to == to;
                assert(rule_at(k).from == from);
            }
        }
    }
}

/// `from → to` is in the table.
pub fn is_valid(from: State, to: State) -> (r: bool)
    ensures
        r == valid_transition(from, to),
{
    let mut i: usize = 0;
    while i < RULE_COUNT
        invariant
            i <= RULE_COUNT,
            forall|j: int| 0 <= j < i ==> !(#[trigger] rule_at(j).from == from && rule_at(j).to == to),
        decreases RULE_COUNT - i,
    {
        let r = rule(i);
        if r.from == from && r.to == to {
            return true;
        }
        i = i + 1;
    }
    false
}

/// Reason of the first row for `from → to`, `None` when the transition is invalid.
pub fn reason_for(from: State, to: State) -> (r: Option<Reason>)
    ensures
        r == first_reason(from, to, 0),
        r is Some <==> valid_transition(from, to),
{
    proof {
        lemma_first_reason(from, to, 0);
    }
    let mut i: usize = 0;
    while i < RULE_COUNT
        invariant
            i <= RULE_COUNT,
            first_reason(from, to, 0) == first_reason(from, to, i as int),
        decreases RULE_COUNT - i,
    {
        let r = rule(i);
        if r.from == from && r.to == to {
            return Some(r.reason);
        }
        i = i + 1;
    }
    None
}

/// `15 min × 2^min(attempts, 16)`, capped at 24 hours.
pub open spec fn backoff_spec(attempts: u32) -> i64 {
    let shift: nat = if attempts < 16 { attempts as nat } else { 16 };
    let raw: int = 900_000 * vstd::arithmetic::power2::pow2(shift) as int;
    if raw < 86_400_000 {
        raw as i64
    } else {
        86_400_000
    }
}

/// Backoff for a transient error: 15 minutes × 2^attempts, at most 24 hours.
pub fn backoff_ms(attempts: u32) -> (r: i64)
    ensures
        r == backoff_spec(attempts),
        0 < r <= 86_400_000,
{
    let base: i64 = 15 * 60 * 1000;
    let max: i64 = 24 * 60 * 60 * 1000;
    let shift: u32 = if attempts < 16 { attempts } else { 16 };
    let mut v: i64 = base;
    let mut k: u32 = 0;
    proof {
        vstd::arithmetic::power2::lemma2_to64();
    }
    while k < shift
        invariant
            k <= shift <= 16,
            v == 900_000 * vstd::arithmetic::power2::pow2(k as nat),
        decreases shift - k,
    {
        proof {
            vstd::arithmetic::power2::lemma_pow2_adds(k as nat, 1);
            vstd::arithmetic::power2::lemma_pow2_pos(k as nat);
            vstd::arithmetic::power2::lemma_pow2_strictly_increases(k as nat, 16);
            vstd::arithmetic::power2::lemma2_to64();
        }
        assert(vstd::arithmetic::power2::pow2(1) == 2) by { vstd::arithmetic::power2::lemma2_to64(); };
        v = v * 2;
        k = k + 1;
    }
    if v < max {
        proof {
            vstd::arithmetic::power2::lemma_pow2_pos(shift as nat);
        }
        v
    } else {
        max
    }
}

/// Target of a `missing` row seen again: `prev_state` when the table allows
/// `missing → prev_state`, otherwise `settling` (start over).
pub open spec fn restore_spec(prev: Option<State>) -> State {
    match prev {
        Some(p) => if p != State::Missing && p != State::Gone && valid_transition(State::Missing, p) {
            p
        } else {
            State::Settling
        },
        None => State::Settling,
    }
}

pub fn restore_target(prev: Option<State>) -> (r: State)
    ensures
        r == restore_spec(prev),
{
    match prev {
        Some(p) => if p != State::Missing && p != State::Gone && is_valid(State::Missing, p) {
            p
        } else {
            State::Settling
        },
        None => State::Settling,
    }
}

/// Any state other than `settling` and `gone` may return to `settling` when the
/// file's fingerprint changes.
pub proof fn lemma_changed_returns_to_settling(s: State)
    requires
        s != State::Settling,
        s != State::Gone,
    ensures
        valid_transition(s, State::Settling),
        first_reason(s, State::Settling, 0) == Some(Reason::Changed),
{
    let k: int = match s {
        State::Sized => 17,
        State::Hashed => 18,
        State::Verified => 19,
        State::Deduped => 20,
        State::Distinct => 21,
        State::Canonical => 22,
        State::Skipped => 23,
        State::Failed => 24,
        _ => 25,
    };
    assert(rule_at(k).from == s && rule_at(k).to == State::Settling);
    lemma_unique_rows();
    lemma_first_is_the_row(s, State::Settling, k);
}

/// Any living state (neither `missing` nor `gone`) may become `missing`.
pub proof fn lemma_live_may_vanish(s: State)
    requires
        s != State::Missing,
        s != State::Gone,
    ensures
        valid_transition(s, State::Missing),
        first_reason(s, State::Missing, 0) == Some(Reason::Vanished),
{
    let k: int = match s {
        State::Settling => 26,
        State::Sized => 27,
        State::Hashed => 28,
        State::Verified => 29,
        State::Deduped => 30,
        State::Distinct => 31,
        State::Canonical => 32,
        State::Skipped => 33,
        _ => 34,
    };
    assert(rule_at(k).from == s && rule_at(k).to == State::Missing);
    lemma_unique_rows();
    lemma_first_is_the_row(s, State::Missing, k);
}

/// `gone` is final: no transition leaves it.
pub proof fn lemma_gone_is_final(to: State)
    ensures
        !valid_transition(State::Gone, to),
{
    assert forall|i: int| 0 <= i < RULE_COUNT implies #[trigger] rule_at(i).from != State::Gone by {
    }
}

/// Every state except the two entry points (`settling`, `sized`) is the target
/// of some transition.
pub proof fn lemma_every_state_reachable(s: State)
    requires
        s != State::Settling,
        s != State::Sized,
    ensures
        exists|i: int| 0 <= i < RULE_COUNT && #[trigger] rule_at(i).to == s,
{
    let k: int = match s {
        State::Hashed => 4,
        State::Verified => 7,
        State::Deduped => 6,
        State::Distinct => 3,
        State::Canonical => 5,
        State::Skipped => 1,
        State::Failed => 11,
        State::Missing => 26,
        _ => 43,
    };
    assert(rule_at(k).to == s);
}

/// No two rows describe the same `from → to`, so a transition has one reason.
pub proof fn lemma_unique_rows()
    ensures
        forall|i: int, j: int|
            0 <= i < j < RULE_COUNT ==> !(#[trigger] rule_at(i).from == #[trigger] rule_at(j).from
                && rule_at(i).to == rule_at(j).to),
{
    assert forall|i: int, j: int| 0 <= i < j < RULE_COUNT implies !(#[trigger] rule_at(i).from
        == #[trigger] rule_at(j).from && rule_at(i).to == rule_at(j).to) by {
    }
}

proof fn lemma_first_is_the_row(from: State, to: State, k: int)
    requires
        0 <= k < RULE_COUNT,
        rule_at(k).from == from,
        rule_at(k).to == to,
        forall|i: int, j: int|
            0 <= i < j < RULE_COUNT ==> !(#[trigger] rule_at(i).from == #[trigger] rule_at(j).from
                && rule_at(i).to == rule_at(j).to),
    ensures
        first_reason(from, to, 0) == Some(rule_at(k).reason),
{
    lemma_first_from(from, to, k, 0);
}

proof fn lemma_first_from(from: State, to: State, k: int, i: int)
    requires
        0 <= i <= k < RULE_COUNT,
        rule_at(k).from == from,
        rule_at(k).to == to,
        forall|a: int, b: int|
            0 <= a < b < RULE_COUNT ==> !(#[trigger] rule_at(a).from == #[trigger] rule_at(b).from
                && rule_at(a).to == rule_at(b).to),
    ensures
        first_reason(from, to, i) == Some(rule_at(k).reason),
    decreases k - i,
{
    if i < k {
        assert(!(rule_at(i).from == rule_at(k).from && rule_at(i).to == rule_at(k).to));
        lemma_first_from(from, to, k, i + 1);
    }
}

/// A `missing` row returns to its previous state exactly when that state is one
/// the table restores to; otherwise it starts over in `settling`.
pub proof fn lemma_restore_target(prev: Option<State>)
    ensures
        restore_spec(prev) == State::Settling || prev == Some(restore_spec(prev)),
        prev matches Some(p) ==> (restore_spec(prev) == p <==> p != State::Missing && p
            != State::Gone),
{
    if let Some(p) = prev {
        if p != State::Missing && p != State::Gone && p != State::Settling {
            let k: int = match p {
                State::Sized => 35,
                State::Hashed => 36,
                State::Verified => 37,
                State::Deduped => 38,
                State::Distinct => 39,
                State::Canonical => 40,
                State::Skipped => 41,
                _ => 42,
            };
            assert(rule_at(k).from == State::Missing && rule_at(k).to == p);
        }
    }
}

} // verus!
