use vstd::prelude::*;

verus! {

/// Which deadline fired.
#[derive(Clone, Copy, Debug, PartialEq, Eq, Structural)]
pub enum TimerKind {
    Election,
    Heartbeat,
}

/// The set of timers found expired by a probe.
#[derive(Clone, Copy, Debug, PartialEq, Eq, Structural)]
pub struct ExpiredTimers {
    pub election: bool,
    pub heartbeat: bool,
}

impl ExpiredTimers {
    pub fn new() -> (r: Self)
        ensures
            !r.election,
            !r.heartbeat,
    {
        ExpiredTimers { election: false, heartbeat: false }
    }

    pub fn push(&mut self, kind: TimerKind)
        ensures
            final(self).election == (old(self).election || kind == TimerKind::Election),
            final(self).heartbeat == (old(self).heartbeat || kind == TimerKind::Heartbeat),
    {
        match kind {
            TimerKind::Election => {
                self.election = true;
            },
            TimerKind::Heartbeat => {
                self.heartbeat = true;
            },
        }
    }

    pub fn contains(&self, kind: TimerKind) -> (r: bool)
        ensures
            r == if kind == TimerKind::Election {
                self.election
            } else {
                self.heartbeat
            },
    {
        match kind {
            TimerKind::Election => self.election,
            TimerKind::Heartbeat => self.heartbeat,
        }
    }
}

/// Election and heartbeat deadlines. The core never reads a clock; it only
/// resets, stops, and probes these two timers. `election_armed()` and
/// `heartbeat_armed()` say whether a deadline is pending; which probe
/// reports expiry depends on the driver's clock, so `check_expired`
/// promises only that a stopped timer never fires.
pub trait TimerService: Sized {
    spec fn election_armed(&self) -> bool;

    spec fn heartbeat_armed(&self) -> bool;

    /// Re-arms the election deadline, randomized per reset.
    fn reset_election_timer(&mut self)
        ensures
            final(self).election_armed(),
            final(self).heartbeat_armed() == old(self).heartbeat_armed(),
    ;

    fn reset_heartbeat_timer(&mut self)
        ensures
            final(self).heartbeat_armed(),
            final(self).election_armed() == old(self).election_armed(),
    ;

    fn stop_election_timer(&mut self)
        ensures
            !final(self).election_armed(),
            final(self).heartbeat_armed() == old(self).heartbeat_armed(),
    ;

    fn stop_timers(&mut self)
        ensures
            !final(self).election_armed(),
            !final(self).heartbeat_armed(),
    ;

    fn check_expired(&self) -> (r: ExpiredTimers)
        ensures
            r.election ==> self.election_armed(),
            r.heartbeat ==> self.heartbeat_armed(),
    ;
}

} // verus!
