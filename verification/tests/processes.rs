//! Process lifecycle and scheduling: fork links, exit and reaping, priority
//! selection and round-robin rotation.

use ruix::error::ProcessError;
use ruix::process::{Process, ProcessState, WaitReason, PID_ANY};
use ruix::scheduler::Scheduler;

fn find<'a>(s: &'a Scheduler, pid: u64) -> &'a Process {
    let i = s.find_index(pid).unwrap();
    &s.processes[i]
}

/// A scheduler whose only process is init (pid 1), currently Running.
fn booted() -> Scheduler {
    let mut s = Scheduler::new();
    s.add_process(Process::new(1, 0x400000, 0x601000));
    let _ = s.schedule(0xDEAD0000);
    assert_eq!(s.current, 1);
    s
}

#[test]
fn fresh_process_has_initial_context() {
    let p = Process::new(1, 0x400000, 0x601000);
    assert_eq!(p.context.rip, 0x400000);
    assert_eq!(p.context.rsp, 0x601000);
    assert_eq!(p.context.rflags, 0x202);
    assert_eq!(p.context.cs, 0x23);
    assert_eq!(p.context.ss, 0x1b);
    assert_eq!(p.context.rax, 0);
    assert_eq!(p.context_ptr, 0x601000 - 160);
    assert_eq!(p.state, ProcessState::Ready);
}

#[test]
fn fork_links_parent_and_child() {
    let mut s = booted();
    let child = s.fork(1).unwrap();
    assert_eq!(child, 2);
    assert_ne!(child, 1);
    let parent = find(&s, 1);
    assert!(parent.children.contains(&child));
    assert_eq!(parent.stats.children_count, 1);
    let c = find(&s, child);
    assert_eq!(c.parent_id, 1);
    assert_eq!(c.state, ProcessState::Ready);
    assert_eq!(c.context.rax, 0);
    assert_eq!(c.priority, parent.priority);
}

#[test]
fn fork_of_missing_parent_fails() {
    let mut s = booted();
    assert_eq!(s.fork(9), Err(ProcessError::NotFound));
}

#[test]
fn exit_validates_code_range() {
    let mut s = booted();
    assert_eq!(s.exit(1, 300), Err(ProcessError::InvalidState));
    assert_eq!(s.exit(1, -256), Err(ProcessError::InvalidState));
    assert_eq!(s.exit(1, 255), Ok(()));
}

#[test]
fn exit_marks_zombie_and_keeps_the_entry() {
    let mut s = booted();
    let child = s.fork(1).unwrap();
    let before = s.processes.len();
    s.exit(child, 42).unwrap();
    // The Zombie remains in the table until reaped.
    assert_eq!(s.processes.len(), before);
    let z = find(&s, child);
    assert_eq!(z.state, ProcessState::Zombie);
    assert_eq!(z.exit_code, 42);
}

#[test]
fn wait_reaps_exactly_one_entry() {
    let mut s = booted();
    let child = s.fork(1).unwrap();
    s.exit(child, 42).unwrap();
    let before = s.processes.len();
    let (pid, status) = s.wait(1, PID_ANY).unwrap();
    assert_eq!(pid, child);
    assert_eq!(status, 42);
    assert_eq!(s.processes.len(), before - 1);
    assert!(s.find_index(child).is_none());
    assert_eq!(find(&s, 1).stats.children_count, 0);
    // Nothing left to reap: the caller blocks waiting for a child.
    assert_eq!(s.wait(1, PID_ANY), Err(ProcessError::NotFound));
    assert_eq!(find(&s, 1).state, ProcessState::Waiting(WaitReason::Child(PID_ANY)));
}

#[test]
fn wait_for_specific_child_skips_others() {
    let mut s = booted();
    let a = s.fork(1).unwrap();
    let b = s.fork(1).unwrap();
    s.exit(a, 1).unwrap();
    s.exit(b, 2).unwrap();
    let (pid, status) = s.wait(1, b).unwrap();
    assert_eq!(pid, b);
    assert_eq!(status, 2);
    // The other Zombie is still there.
    assert_eq!(find(&s, a).state, ProcessState::Zombie);
}

#[test]
fn wait_by_unknown_caller_is_invalid_pid() {
    let mut s = booted();
    assert_eq!(s.wait(9, PID_ANY), Err(ProcessError::InvalidPid));
}

#[test]
fn exit_wakes_matching_waiter() {
    let mut s = booted();
    let child = s.fork(1).unwrap();
    assert_eq!(s.wait(1, PID_ANY), Err(ProcessError::NotFound));
    assert_eq!(find(&s, 1).state, ProcessState::Waiting(WaitReason::Child(PID_ANY)));
    s.exit(child, 7).unwrap();
    assert_eq!(find(&s, 1).state, ProcessState::Ready);
    let (pid, status) = s.wait(1, PID_ANY).unwrap();
    assert_eq!(pid, child);
    assert_eq!(status, 7);
}

#[test]
fn exit_reparents_children_to_init() {
    let mut s = booted();
    let b = s.fork(1).unwrap();
    let c = s.fork(b).unwrap();
    s.exit(b, 0).unwrap();
    assert_eq!(find(&s, c).parent_id, 0);
    assert_eq!(find(&s, b).children.len(), 0);
    assert_eq!(find(&s, b).stats.children_count, 0);
}

#[test]
fn running_process_is_the_current_one() {
    let mut s = booted();
    let _ = s.fork(1).unwrap();
    let _ = s.schedule(0x1000);
    for p in s.processes.iter() {
        if p.state == ProcessState::Running {
            assert_eq!(p.id, s.current);
        }
    }
}

#[test]
fn children_counter_matches_list_everywhere() {
    let mut s = booted();
    let b = s.fork(1).unwrap();
    let _c1 = s.fork(b).unwrap();
    let _c2 = s.fork(b).unwrap();
    let _d = s.fork(1).unwrap();
    for p in s.processes.iter() {
        assert_eq!(p.stats.children_count as usize, p.children.len());
    }
}

#[test]
fn schedule_prefers_the_lower_priority_number() {
    let mut s = Scheduler::new();
    let mut a = Process::new(10, 0x400000, 0x601000);
    a.priority = 20;
    let mut b = Process::new(11, 0x500000, 0x602000);
    b.priority = 5;
    s.add_process(a);
    s.add_process(b);
    let _ = s.schedule(0);
    assert_eq!(s.current, 11);
    // B yields: it is still the only process of its priority, so the next
    // dispatch selects B again.
    let _ = s.schedule(0x2000);
    assert_eq!(s.current, 11);
    // Once B blocks, A runs.
    let _ = s.wait(11, PID_ANY);
    let _ = s.schedule(0x3000);
    assert_eq!(s.current, 10);
}

#[test]
fn schedule_rotates_within_a_priority_class() {
    let mut s = Scheduler::new();
    s.add_process(Process::new(1, 0x400000, 0x601000));
    s.add_process(Process::new(2, 0x500000, 0x602000));
    let _ = s.schedule(0);
    let first = s.current;
    let _ = s.schedule(0x11);
    let second = s.current;
    let _ = s.schedule(0x22);
    let third = s.current;
    assert_ne!(first, second);
    assert_eq!(first, third);
}

#[test]
fn schedule_skips_zombies_and_waiters() {
    let mut s = booted();
    let child = s.fork(1).unwrap();
    s.exit(child, 0).unwrap();
    let _ = s.schedule(0x99);
    // The Zombie is never dispatched.
    assert_eq!(s.current, 1);
    assert_eq!(find(&s, child).state, ProcessState::Zombie);
}

#[test]
fn schedule_with_nothing_runnable_returns_same_frame() {
    let mut s = Scheduler::new();
    let r = s.schedule(0xABCD);
    assert_eq!(r, 0xABCD);
}

#[test]
fn schedule_stamps_the_outgoing_frame() {
    let mut s = booted();
    let _ = s.fork(1).unwrap();
    // init is Running; preempting it stamps the outgoing frame address and
    // the child runs next.
    let _ = s.schedule(0xF00D);
    assert_eq!(s.current, 2);
    assert_eq!(find(&s, 1).state, ProcessState::Ready);
    assert_eq!(find(&s, 1).context_ptr, 0xF00D);
}

#[test]
fn resource_limit_check_flags_excess() {
    let mut p = Process::new(1, 0x400000, 0x601000);
    assert!(!p.exceeds_limits());
    p.stats.cpu_time_used = p.limits.max_cpu_time + 1;
    assert!(p.exceeds_limits());
}
