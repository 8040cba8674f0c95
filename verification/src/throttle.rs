//! Read bandwidth governors. The token bucket itself, which works in
//! floating point and sleeps, lives outside the library.

use vstd::prelude::*;

verus! {

/// Hands out read quota and tells whether to pause because the disk is busy.
pub trait IoGovernor {
    /// The governor keeps the account below: the requests it granted and its
    /// pause flag. A rate limiter that asks the disk itself need not.
    open spec fn keeps_account(&self) -> bool {
        false
    }

    /// The requests granted so far, in order.
    open spec fn grants(&self) -> Seq<u64> {
        Seq::empty()
    }

    /// Whether the governor asks to pause.
    open spec fn pausing(&self) -> bool {
        false
    }

    /// Waits until `bytes` may be read; the request joins the account.
    fn acquire(&mut self, bytes: u64)
        ensures
            old(self).keeps_account() ==> final(self).keeps_account() && final(self).grants() == old(self).grants().push(bytes)
                && final(self).pausing() == old(self).pausing(),
    ;

    /// The disk is busy because of another process.
    fn should_pause(&self) -> (r: bool)
        ensures
            self.keeps_account() ==> r == self.pausing(),
    ;
}

/// No limit: for tests and one-off checks.
#[derive(Debug)]
pub struct Unlimited;

impl IoGovernor for Unlimited {
    fn acquire(&mut self, bytes: u64) {
    }

    fn should_pause(&self) -> (r: bool)
        ensures
            !r,
    {
        false
    }
}

/// Counts the bytes that go through it, with no rate limit; for tests.
pub struct CountingGovernor {
    total: u64,
    paused: bool,
    granted: Ghost<Seq<u64>>,
}

impl View for CountingGovernor {
    type V = (u64, bool);

    /// (bytes counted, pause flag)
    closed spec fn view(&self) -> (u64, bool) {
        (self.total, self.paused)
    }
}

impl CountingGovernor {
    pub fn new() -> (r: Self)
        ensures
            r@ == (0u64, false),
            r.grants() == Seq::<u64>::empty(),
    {
        CountingGovernor { total: 0, paused: false, granted: Ghost(Seq::empty()) }
    }

    /// A governor that always asks to pause.
    pub fn paused() -> (r: Self)
        ensures
            r@ == (0u64, true),
            r.grants() == Seq::<u64>::empty(),
    {
        CountingGovernor { total: 0, paused: true, granted: Ghost(Seq::empty()) }
    }

    /// Bytes counted so far.
    pub fn total(&self) -> (r: u64)
        ensures
            r == self@.0,
    {
        self.total
    }

    pub fn set_paused(&mut self, v: bool)
        ensures
            final(self)@ == (old(self)@.0, v),
            final(self).grants() == old(self).grants(),
    {
        self.paused = v;
    }
}

impl IoGovernor for CountingGovernor {
    open spec fn keeps_account(&self) -> bool {
        true
    }

    closed spec fn grants(&self) -> Seq<u64> {
        self.granted@
    }

    closed spec fn pausing(&self) -> bool {
        self.paused
    }

    /// Adds `bytes`, wrapping around like an atomic counter.
    fn acquire(&mut self, bytes: u64)
        ensures
            final(self)@ == (vstd::wrapping::u64_specs::wrapping_add(old(self)@.0, bytes), old(self)@.1),
    {
        self.total = self.total.wrapping_add(bytes);
        proof {
            self.granted@ = self.granted@.push(bytes);
        }
    }

    fn should_pause(&self) -> (r: bool)
        ensures
            r == self@.1,
    {
        self.paused
    }
}

/// A monotonic time source, so that a rate limiter can be tested without
/// really sleeping.
pub trait Clock {
    /// Monotonic milliseconds.
    fn now_ms(&self) -> u64;

    /// Sleeps (a test clock may advance itself instead).
    fn sleep(&self, d: core::time::Duration);
}

} // verus!
