use raft_core::tick_timer::TickTimer;
use raft_core::timer_service::{ExpiredTimers, TimerKind, TimerService};

#[test]
fn test_fresh_timer_reports_nothing() {
    let timer = TickTimer::new(10, 3, 1);
    let expired = timer.check_expired();
    assert!(!expired.election);
    assert!(!expired.heartbeat);
}

#[test]
fn test_election_timer_fires_within_twice_the_base() {
    let mut timer = TickTimer::new(10, 3, 1);
    timer.reset_election_timer();
    // The randomized deadline lies in [10, 20) ticks: after 9 ticks it has
    // certainly not fired, after 20 it certainly has.
    timer.advance(9);
    assert!(!timer.check_expired().election);
    timer.advance(11);
    assert!(timer.check_expired().election);
}

#[test]
fn test_heartbeat_timer_fires_after_its_interval() {
    let mut timer = TickTimer::new(10, 3, 1);
    timer.reset_heartbeat_timer();
    timer.advance(2);
    assert!(!timer.check_expired().heartbeat);
    timer.advance(1);
    assert!(timer.check_expired().heartbeat);
}

#[test]
fn test_stop_timers_clears_deadlines() {
    let mut timer = TickTimer::new(10, 3, 1);
    timer.reset_election_timer();
    timer.reset_heartbeat_timer();
    timer.advance(100);
    timer.stop_timers();
    let expired = timer.check_expired();
    assert!(!expired.election);
    assert!(!expired.heartbeat);
}

#[test]
fn test_stop_election_timer_leaves_heartbeat() {
    let mut timer = TickTimer::new(10, 3, 1);
    timer.reset_election_timer();
    timer.reset_heartbeat_timer();
    timer.advance(100);
    timer.stop_election_timer();
    let expired = timer.check_expired();
    assert!(!expired.election);
    assert!(expired.heartbeat);
}

#[test]
fn test_expired_timers_push_and_contains() {
    let mut expired = ExpiredTimers::new();
    assert!(!expired.contains(TimerKind::Election));
    expired.push(TimerKind::Election);
    assert!(expired.contains(TimerKind::Election));
    assert!(!expired.contains(TimerKind::Heartbeat));
    expired.push(TimerKind::Heartbeat);
    assert!(expired.contains(TimerKind::Heartbeat));
}
