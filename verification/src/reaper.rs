//! The expiry reaper: periodic sweeps of the session store.
//!
//! The reaper is the decision half of a long-lived loop. The caller owns
//! the loop: it reads the clock, calls `tick`, and sleeps until the next
//! turn; `tick` decides whether a sweep is due and, when it is, removes
//! every expired row and schedules the next sweep one period ahead. Over
//! this store a sweep cannot fail, so a turn never ends the loop.

use vstd::prelude::*;

use crate::session::SessionStore;
use crate::session::delete_expired_spec;

verus! {

/// The instant one period after `now`, capped at the clock's ceiling.
pub open spec fn next_after(now: u64, period: u64) -> u64 {
    if now + period <= u64::MAX {
        (now + period) as u64
    } else {
        u64::MAX
    }
}

/// Drives `SessionStore::delete_expired` on a fixed period.
pub struct ExpiryReaper {
    period: u64,
    next_sweep: u64,
}

impl ExpiryReaper {
    /// The fixed seconds between sweeps.
    pub closed spec fn period_spec(&self) -> u64 {
        self.period
    }

    /// The instant the next sweep falls due.
    pub closed spec fn next_sweep_spec(&self) -> u64 {
        self.next_sweep
    }

    /// A reaper that sweeps at once and then every `period` seconds.
    pub fn new(period: u64, now: u64) -> (r: Self)
        ensures
            r.period_spec() == period,
            r.next_sweep_spec() == now,
    {
        ExpiryReaper { period, next_sweep: now }
    }

    /// Whether a sweep is due at `now`.
    pub fn due(&self, now: u64) -> (r: bool)
        ensures
            r == (self.next_sweep_spec() <= now),
    {
        self.next_sweep <= now
    }

    /// One turn of the reap loop: when a sweep is due, delete every expired
    /// row and move the schedule one period past `now`; otherwise touch
    /// nothing.
    pub fn tick(&mut self, store: &mut SessionStore, now: u64) -> (swept: bool)
        requires
            old(store).inv(),
        ensures
            final(store).inv(),
            final(self).period_spec() == old(self).period_spec(),
            swept == (old(self).next_sweep_spec() <= now),
            swept ==> final(store)@ == delete_expired_spec(old(store)@, now)
                && final(self).next_sweep_spec() == next_after(now, old(self).period_spec()),
            !swept ==> final(store)@ == old(store)@
                && final(self).next_sweep_spec() == old(self).next_sweep_spec(),
    {
        if self.next_sweep <= now {
            store.delete_expired(now);
            self.next_sweep = if self.period <= u64::MAX - now {
                now + self.period
            } else {
                u64::MAX
            };
            true
        } else {
            false
        }
    }
}

} // verus!
