use vstd::prelude::*;
use crate::timer_service::{ExpiredTimers, TimerService};

verus! {

#[verifier::external_type_specification]
#[verifier::external_body]
pub struct ExFastrandRng(fastrand::Rng);

/// Relies on fastrand::Rng::with_seed: builds a deterministic generator
/// from the seed, so simulations can be replayed.
#[verifier::external_body]
fn rng_with_seed(seed: u64) -> fastrand::Rng {
    fastrand::Rng::with_seed(seed)
}

/// Relies on fastrand::Rng::u64: a draw from a nonempty range stays in it
/// (the callee panics on an empty range, which the bound rules out).
#[verifier::external_body]
fn rng_u64_in(rng: &mut fastrand::Rng, lo: u64, hi: u64) -> (r: u64)
    requires
        lo < hi,
    ensures
        lo <= r < hi,
{
    rng.u64(lo..hi)
}

/// Addition on the tick clock: it stops at the far end of time rather than
/// wrapping.
pub open spec fn sat_add(a: u64, b: u64) -> u64 {
    if a + b > u64::MAX {
        u64::MAX
    } else {
        (a + b) as u64
    }
}

/// A deterministic timer for hosted simulation: time is a tick counter the
/// driver advances, and each election reset draws its deadline uniformly
/// from one to two base timeouts ahead — the randomization that keeps
/// elections from livelocking. The generator is seeded, so a test can
/// replay a run.
pub struct TickTimer {
    now: u64,
    base_timeout: u64,
    heartbeat_interval: u64,
    election_deadline: Option<u64>,
    heartbeat_deadline: Option<u64>,
    rng: fastrand::Rng,
}

impl TickTimer {
    pub closed spec fn spec_now(&self) -> u64 {
        self.now
    }

    pub closed spec fn spec_base_timeout(&self) -> u64 {
        self.base_timeout
    }

    pub closed spec fn spec_heartbeat_interval(&self) -> u64 {
        self.heartbeat_interval
    }

    pub closed spec fn spec_election_deadline(&self) -> Option<u64> {
        self.election_deadline
    }

    pub closed spec fn spec_heartbeat_deadline(&self) -> Option<u64> {
        self.heartbeat_deadline
    }

    /// The election timeout base, clamped so that the randomized window
    /// `[T, 2T)` is nonempty and fits the tick range.
    pub open spec fn spec_clamped_base(&self) -> u64 {
        if self.spec_base_timeout() == 0 {
            1
        } else if self.spec_base_timeout() > u64::MAX / 2 {
            u64::MAX / 2
        } else {
            self.spec_base_timeout()
        }
    }

    /// `base_timeout` is the election timeout `T` (deadlines land in
    /// `[T, 2T)` ticks from now); `heartbeat_interval` the leader's
    /// heartbeat period; `seed` fixes the randomness.
    pub fn new(base_timeout: u64, heartbeat_interval: u64, seed: u64) -> (r: Self)
        ensures
            !r.election_armed(),
            !r.heartbeat_armed(),
            r.spec_now() == 0,
            r.spec_base_timeout() == base_timeout,
            r.spec_heartbeat_interval() == heartbeat_interval,
    {
        TickTimer {
            now: 0,
            base_timeout,
            heartbeat_interval,
            election_deadline: None,
            heartbeat_deadline: None,
            rng: rng_with_seed(seed),
        }
    }

    /// Moves the clock forward by `ticks`, touching nothing else.
    pub fn advance(&mut self, ticks: u64)
        ensures
            final(self).spec_now() == sat_add(old(self).spec_now(), ticks),
            final(self).spec_election_deadline() == old(self).spec_election_deadline(),
            final(self).spec_heartbeat_deadline() == old(self).spec_heartbeat_deadline(),
            final(self).spec_base_timeout() == old(self).spec_base_timeout(),
            final(self).spec_heartbeat_interval() == old(self).spec_heartbeat_interval(),
            final(self).election_armed() == old(self).election_armed(),
            final(self).heartbeat_armed() == old(self).heartbeat_armed(),
    {
        self.now = if self.now > u64::MAX - ticks {
            u64::MAX
        } else {
            self.now + ticks
        };
    }

    fn clamped_base(&self) -> (r: u64)
        ensures
            r == self.spec_clamped_base(),
            1 <= r <= u64::MAX / 2,
    {
        if self.base_timeout == 0 {
            1
        } else if self.base_timeout > u64::MAX / 2 {
            u64::MAX / 2
        } else {
            self.base_timeout
        }
    }
}

impl TimerService for TickTimer {
    closed spec fn election_armed(&self) -> bool {
        self.election_deadline is Some
    }

    closed spec fn heartbeat_armed(&self) -> bool {
        self.heartbeat_deadline is Some
    }

    /// The new deadline lands in the randomized window `[T, 2T)` from now
    /// (`T` the clamped base), saturating at the end of time; everything
    /// but the election deadline stays put.
    fn reset_election_timer(&mut self)
        ensures
            exists|off: u64|
                old(self).spec_clamped_base() <= off < 2 * old(self).spec_clamped_base()
                    && final(self).spec_election_deadline() == Some(
                    sat_add(old(self).spec_now(), off),
                ),
            final(self).spec_now() == old(self).spec_now(),
            final(self).spec_heartbeat_deadline() == old(self).spec_heartbeat_deadline(),
            final(self).spec_base_timeout() == old(self).spec_base_timeout(),
            final(self).spec_heartbeat_interval() == old(self).spec_heartbeat_interval(),
    {
        let base = self.clamped_base();
        let offset = rng_u64_in(&mut self.rng, base, 2 * base);
        let deadline = if self.now > u64::MAX - offset {
            u64::MAX
        } else {
            self.now + offset
        };
        self.election_deadline = Some(deadline);
        proof {
            assert(self.spec_election_deadline() == Some(sat_add(old(self).spec_now(), offset)));
        }
    }

    /// The new deadline is exactly one heartbeat interval from now,
    /// saturating; everything but the heartbeat deadline stays put.
    fn reset_heartbeat_timer(&mut self)
        ensures
            final(self).spec_heartbeat_deadline() == Some(
                sat_add(old(self).spec_now(), old(self).spec_heartbeat_interval()),
            ),
            final(self).spec_now() == old(self).spec_now(),
            final(self).spec_election_deadline() == old(self).spec_election_deadline(),
            final(self).spec_base_timeout() == old(self).spec_base_timeout(),
            final(self).spec_heartbeat_interval() == old(self).spec_heartbeat_interval(),
    {
        let deadline = if self.now > u64::MAX - self.heartbeat_interval {
            u64::MAX
        } else {
            self.now + self.heartbeat_interval
        };
        self.heartbeat_deadline = Some(deadline);
    }

    fn stop_election_timer(&mut self)
        ensures
            final(self).spec_election_deadline() is None,
            final(self).spec_heartbeat_deadline() == old(self).spec_heartbeat_deadline(),
            final(self).spec_now() == old(self).spec_now(),
    {
        self.election_deadline = None;
    }

    fn stop_timers(&mut self)
        ensures
            final(self).spec_election_deadline() is None,
            final(self).spec_heartbeat_deadline() is None,
            final(self).spec_now() == old(self).spec_now(),
    {
        self.election_deadline = None;
        self.heartbeat_deadline = None;
    }

    /// A timer reports expiry exactly when its deadline has been reached
    /// on this timer's clock; observation changes nothing, so two probes
    /// at the same tick agree.
    fn check_expired(&self) -> (r: ExpiredTimers)
        ensures
            r.election <==> (self.spec_election_deadline() matches Some(d) && d
                <= self.spec_now()),
            r.heartbeat <==> (self.spec_heartbeat_deadline() matches Some(d) && d
                <= self.spec_now()),
    {
        let election = match self.election_deadline {
            Some(d) => d <= self.now,
            None => false,
        };
        let heartbeat = match self.heartbeat_deadline {
            Some(d) => d <= self.now,
            None => false,
        };
        ExpiredTimers { election, heartbeat }
    }
}

} // verus!
