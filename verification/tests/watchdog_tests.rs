//! The watchdog: warning at half the budget, kill at the full budget,
//! waking of waiting parents, and the bookkeeping entry points.

use ruix::process::{Process, ProcessState, WaitReason, PID_ANY};
use ruix::scheduler::Scheduler;
use ruix::watchdog::{
    end_user_mode, get_global_tick, get_timeout_counter, get_timeout_status, increment_tick,
    register_process, reset_timeout, set_timeout_limit, start_user_mode, unregister_process,
    TimeoutManager, TimeoutState, DEFAULT_TIMEOUT_LIMIT,
};

fn booted_pair() -> (TimeoutManager, Scheduler) {
    let mut s = Scheduler::new();
    s.add_process(Process::new(1, 0x400000, 0x601000));
    let p2 = {
        let _ = s.schedule(0);
        s.fork(1).unwrap()
    };
    assert_eq!(p2, 2);
    (TimeoutManager::new(), s)
}

#[test]
fn watchdog_warns_then_kills() {
    let (mut w, mut s) = booted_pair();
    set_timeout_limit(&mut w, 2, 10);
    start_user_mode(&mut w, 2);
    let start = get_global_tick(&w);
    // Four quiet ticks.
    for _ in 0..4 {
        assert_eq!(increment_tick(&mut w, &mut s), TimeoutState::Normal);
    }
    // At start + 5, half the budget is spent: the warning fires once, with
    // five ticks remaining.
    assert_eq!(increment_tick(&mut w, &mut s), TimeoutState::Warning);
    let (state, elapsed, limit) = get_timeout_status(&w, 2).unwrap();
    assert_eq!(state, TimeoutState::Normal);
    assert_eq!(elapsed, 5);
    assert_eq!(limit, 10);
    assert_eq!(limit - elapsed, 5);
    // Four more quiet ticks (the warning is not repeated).
    for _ in 0..4 {
        assert_eq!(increment_tick(&mut w, &mut s), TimeoutState::Normal);
    }
    // At start + 10 the budget is spent: the process dies.
    assert_eq!(increment_tick(&mut w, &mut s), TimeoutState::TimedOut);
    assert_eq!(get_global_tick(&w), start + 10);
    let i = s.find_index(2).unwrap();
    assert_eq!(s.processes[i].state, ProcessState::Zombie);
    assert_eq!(s.processes[i].exit_code, -1);
    assert!(!w.user_mode_active);
}

#[test]
fn watchdog_kill_wakes_waiting_parent() {
    let (mut w, mut s) = booted_pair();
    // The parent blocks waiting for any child.
    let _ = s.wait(1, PID_ANY);
    {
        let i = s.find_index(1).unwrap();
        assert_eq!(s.processes[i].state, ProcessState::Waiting(WaitReason::Child(PID_ANY)));
    }
    set_timeout_limit(&mut w, 2, 1);
    start_user_mode(&mut w, 2);
    assert_eq!(increment_tick(&mut w, &mut s), TimeoutState::TimedOut);
    let i = s.find_index(1).unwrap();
    assert_eq!(s.processes[i].state, ProcessState::Ready);
    // The parent reaps the killed child and sees the forced exit code.
    let (pid, status) = s.wait(1, PID_ANY).unwrap();
    assert_eq!(pid, 2);
    assert_eq!(status, -1);
}

#[test]
fn register_uses_the_default_budget() {
    let mut w = TimeoutManager::new();
    register_process(&mut w, 7, None);
    let (_, _, limit) = get_timeout_status(&w, 7).unwrap();
    assert_eq!(limit, DEFAULT_TIMEOUT_LIMIT);
    register_process(&mut w, 8, Some(99));
    let (_, _, limit8) = get_timeout_status(&w, 8).unwrap();
    assert_eq!(limit8, 99);
}

#[test]
fn unregister_stops_watching() {
    let mut w = TimeoutManager::new();
    register_process(&mut w, 7, None);
    unregister_process(&mut w, 7);
    assert!(get_timeout_status(&w, 7).is_none());
}

#[test]
fn ticks_without_user_mode_count_quietly() {
    let (mut w, mut s) = booted_pair();
    register_process(&mut w, 2, Some(1));
    for _ in 0..5 {
        assert_eq!(increment_tick(&mut w, &mut s), TimeoutState::Normal);
    }
    assert_eq!(get_timeout_counter(&w), 5);
    let i = s.find_index(2).unwrap();
    assert_ne!(s.processes[i].state, ProcessState::Zombie);
}

#[test]
fn end_user_mode_resets_the_stretch() {
    let (mut w, mut s) = booted_pair();
    set_timeout_limit(&mut w, 2, 10);
    start_user_mode(&mut w, 2);
    for _ in 0..4 {
        let _ = increment_tick(&mut w, &mut s);
    }
    end_user_mode(&mut w);
    assert!(!w.user_mode_active);
    let (state, elapsed, _) = get_timeout_status(&w, 2).unwrap();
    assert_eq!(state, TimeoutState::Normal);
    // The stretch was cleared: elapsed counts from a fresh start.
    assert_eq!(elapsed, get_global_tick(&w));
    // A kernel entry may also reset through the compatibility name.
    start_user_mode(&mut w, 2);
    reset_timeout(&mut w);
    assert!(!w.user_mode_active);
}

#[test]
fn start_user_mode_registers_unknown_pids() {
    let mut w = TimeoutManager::new();
    start_user_mode(&mut w, 9);
    let (_, _, limit) = get_timeout_status(&w, 9).unwrap();
    assert_eq!(limit, DEFAULT_TIMEOUT_LIMIT);
    assert!(w.user_mode_active);
    assert_eq!(w.current_user_pid, 9);
}
