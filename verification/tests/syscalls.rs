//! The syscall dispatcher: argument validation at the user-range
//! boundaries, the return-value conventions, and full scenarios driven
//! through the ABI.

use ruix::kernel::Kernel;
use ruix::process::{Process, ProcessState};
use ruix::syscall::{
    dispatch, validate_user_buffer, SyscallArgs, SYSCALL_ERROR, SYSCALL_WOULD_BLOCK,
    SYS_CREATE_CHANNEL, SYS_EXIT, SYS_FORK, SYS_GETPID, SYS_RECEIVE_MESSAGE, SYS_SEND_MESSAGE,
    SYS_WAIT, SYS_WRITE, SYS_YIELD,
};
use ruix::watchdog::TimeoutState;

fn args(number: u64, rdi: u64, rsi: u64, rdx: u64, r10: u64) -> SyscallArgs {
    SyscallArgs { number, rdi, rsi, rdx, r10 }
}

/// Hand the CPU to `pid`, as the context switch would: the outgoing Running
/// process drops to Ready and `pid` becomes the Running, current process.
fn run_as(k: &mut Kernel, pid: u64) {
    for p in k.scheduler.processes.iter_mut() {
        if p.state == ProcessState::Running {
            p.state = ProcessState::Ready;
        }
    }
    let i = k.scheduler.find_index(pid).unwrap();
    k.scheduler.processes[i].state = ProcessState::Running;
    k.scheduler.current = pid;
}

/// A kernel booted with init (pid 1) running.
fn booted() -> Kernel {
    let mut k = Kernel::new();
    k.scheduler.add_process(Process::new(1, 0x400000, 0x601000));
    let _ = k.scheduler.schedule(0);
    assert_eq!(k.scheduler.current, 1);
    k
}

#[test]
fn pointer_validation_accepts_the_boundaries() {
    // The lower boundary itself is accepted; one byte below is not.
    assert!(validate_user_buffer(0x400000, 16));
    assert!(!validate_user_buffer(0x3FFFFF, 16));
    // A buffer ending exactly at the ceiling is accepted; one byte past is
    // not.
    let size = 0x1000;
    assert!(validate_user_buffer(0x7FFFFFFF - size, size));
    assert!(!validate_user_buffer(0x7FFFFFFF - size + 1, size));
    // Overflowing sums are rejected.
    assert!(!validate_user_buffer(0x7FFFFFFF, u64::MAX));
}

#[test]
fn unknown_syscall_number_fails() {
    let mut k = booted();
    let out = dispatch(&mut k, args(123, 0, 0, 0, 0), b"");
    assert_eq!(out.rax, SYSCALL_ERROR);
}

#[test]
fn getpid_returns_the_current_pid() {
    let mut k = booted();
    let out = dispatch(&mut k, args(SYS_GETPID, 0, 0, 0, 0), b"");
    assert_eq!(out.rax, 1);
}

#[test]
fn yield_requests_a_reschedule() {
    let mut k = booted();
    let out = dispatch(&mut k, args(SYS_YIELD, 0, 0, 0, 0), b"");
    assert_eq!(out.rax, 0);
    assert!(out.resched);
}

#[test]
fn write_validates_fd_pointer_and_count() {
    let mut k = booted();
    let ok = dispatch(&mut k, args(SYS_WRITE, 1, 0x400000, 10, 0), b"");
    assert_eq!(ok.rax, 10);
    let bad_fd = dispatch(&mut k, args(SYS_WRITE, 7, 0x400000, 10, 0), b"");
    assert_eq!(bad_fd.rax, SYSCALL_ERROR);
    let bad_ptr = dispatch(&mut k, args(SYS_WRITE, 1, 0x3FFFFF, 10, 0), b"");
    assert_eq!(bad_ptr.rax, SYSCALL_ERROR);
    let too_big = dispatch(&mut k, args(SYS_WRITE, 1, 0x400000, 4097, 0), b"");
    assert_eq!(too_big.rax, SYSCALL_ERROR);
    let at_cap = dispatch(&mut k, args(SYS_WRITE, 1, 0x400000, 4096, 0), b"");
    assert_eq!(at_cap.rax, 4096);
}

#[test]
fn exit_code_out_of_range_is_rejected() {
    let mut k = booted();
    let out = dispatch(&mut k, args(SYS_EXIT, 300, 0, 0, 0), b"");
    assert_eq!(out.rax, SYSCALL_ERROR);
    let i = k.scheduler.find_index(1).unwrap();
    assert_ne!(k.scheduler.processes[i].state, ProcessState::Zombie);
}

#[test]
fn receive_on_empty_queue_returns_would_block() {
    let mut k = booted();
    let child = dispatch(&mut k, args(SYS_FORK, 0, 0, 0, 0), b"").rax;
    let cid = dispatch(&mut k, args(SYS_CREATE_CHANNEL, child as u64, 0, 0, 0), b"").rax;
    assert!(cid > 0);
    let out = dispatch(&mut k, args(SYS_RECEIVE_MESSAGE, cid as u64, 0x400000, 256, 0), b"");
    // Empty is the reserved would-block return, not the failure return.
    assert_eq!(out.rax, SYSCALL_WOULD_BLOCK);
    assert_ne!(out.rax, SYSCALL_ERROR);
    assert!(out.message.is_none());
}

#[test]
fn receive_by_stranger_fails_with_error_not_would_block() {
    let mut k = booted();
    let _p1 = dispatch(&mut k, args(SYS_FORK, 0, 0, 0, 0), b"").rax;
    let _p2 = dispatch(&mut k, args(SYS_FORK, 0, 0, 0, 0), b"").rax;
    run_as(&mut k, 2);
    let cid = dispatch(&mut k, args(SYS_CREATE_CHANNEL, 3, 0, 0, 0), b"").rax as u64;
    // Init is no endpoint of the workers' channel: its receive is an access
    // failure, not an empty queue.
    run_as(&mut k, 1);
    let out = dispatch(&mut k, args(SYS_RECEIVE_MESSAGE, cid, 0x500000, 256, 0), b"");
    assert_eq!(out.rax, SYSCALL_ERROR);
    assert_ne!(out.rax, SYSCALL_WOULD_BLOCK);
}

#[test]
fn ping_pong_between_two_forked_processes() {
    let mut k = booted();
    // Init forks twice.
    let p1 = dispatch(&mut k, args(SYS_FORK, 0, 0, 0, 0), b"").rax;
    let p2 = dispatch(&mut k, args(SYS_FORK, 0, 0, 0, 0), b"").rax;
    assert_eq!(p1, 2);
    assert_eq!(p2, 3);
    // The first child creates a channel toward the second.
    run_as(&mut k, 2);
    let cid = dispatch(&mut k, args(SYS_CREATE_CHANNEL, 3, 0, 0, 0), b"").rax;
    assert_eq!(cid, 1);
    // It sends "ping" with type 7.
    let sent = dispatch(&mut k, args(SYS_SEND_MESSAGE, 1, 7, 0x500000, 4), b"ping");
    assert_eq!(sent.rax, 0);
    // The second child receives it.
    run_as(&mut k, 3);
    let got = dispatch(&mut k, args(SYS_RECEIVE_MESSAGE, 1, 0x500000, 256, 0), b"");
    assert_eq!(got.rax, 4);
    let m = got.message.unwrap();
    assert_eq!(m.sender_pid, 2);
    assert_eq!(m.msg_type, 7);
    assert_eq!(m.data_len, 4);
    assert_eq!(&m.data()[..4], b"ping");
    // It answers "pong" with type 8.
    let sent2 = dispatch(&mut k, args(SYS_SEND_MESSAGE, 1, 8, 0x500000, 4), b"pong");
    assert_eq!(sent2.rax, 0);
    // The first child receives the answer.
    run_as(&mut k, 2);
    let got2 = dispatch(&mut k, args(SYS_RECEIVE_MESSAGE, 1, 0x500000, 256, 0), b"");
    assert_eq!(got2.rax, 4);
    let m2 = got2.message.unwrap();
    assert_eq!(m2.sender_pid, 3);
    assert_eq!(m2.msg_type, 8);
    assert_eq!(&m2.data()[..4], b"pong");
}

#[test]
fn create_channel_with_self_fails_through_the_abi() {
    let mut k = booted();
    let out = dispatch(&mut k, args(SYS_CREATE_CHANNEL, 1, 0, 0, 0), b"");
    assert_eq!(out.rax, SYSCALL_ERROR);
}

#[test]
fn send_validates_payload_pointer_and_length() {
    let mut k = booted();
    let child = dispatch(&mut k, args(SYS_FORK, 0, 0, 0, 0), b"").rax;
    let cid = dispatch(&mut k, args(SYS_CREATE_CHANNEL, child as u64, 0, 0, 0), b"").rax as u64;
    let bad_ptr = dispatch(&mut k, args(SYS_SEND_MESSAGE, cid, 7, 0x3FFFFF, 4), b"");
    assert_eq!(bad_ptr.rax, SYSCALL_ERROR);
    let too_long = dispatch(&mut k, args(SYS_SEND_MESSAGE, cid, 7, 0x500000, 257), b"");
    assert_eq!(too_long.rax, SYSCALL_ERROR);
}

#[test]
fn fork_then_exit_then_wait_reaps_the_child() {
    let mut k = booted();
    let child = dispatch(&mut k, args(SYS_FORK, 0, 0, 0, 0), b"").rax;
    assert_eq!(child, 2);
    // The child exits with status 42.
    run_as(&mut k, 2);
    let ex = dispatch(&mut k, args(SYS_EXIT, 42, 0, 0, 0), b"");
    assert_eq!(ex.rax, 0);
    assert!(ex.resched);
    // The parent waits for any child: the reaped pid and the status come
    // back; the status pointer argument names where to store it.
    run_as(&mut k, 1);
    let got = dispatch(&mut k, args(SYS_WAIT, u64::MAX, 0x600000, 0, 0), b"");
    assert_eq!(got.rax, 2);
    assert_eq!(got.wait_status, Some(42));
    // A second wait finds no child and blocks the caller.
    let again = dispatch(&mut k, args(SYS_WAIT, u64::MAX, 0x600000, 0, 0), b"");
    assert_eq!(again.rax, SYSCALL_ERROR);
    assert_eq!(again.wait_status, None);
}

#[test]
fn wait_with_bad_status_pointer_fails() {
    let mut k = booted();
    let out = dispatch(&mut k, args(SYS_WAIT, u64::MAX, 0x100, 0, 0), b"");
    assert_eq!(out.rax, SYSCALL_ERROR);
}

#[test]
fn exit_through_abi_cleans_up_ipc() {
    let mut k = booted();
    let child = dispatch(&mut k, args(SYS_FORK, 0, 0, 0, 0), b"").rax as u64;
    let cid = dispatch(&mut k, args(SYS_CREATE_CHANNEL, child, 0, 0, 0), b"").rax as u64;
    assert!(k.channels.get_channel(cid).is_some());
    let out = dispatch(&mut k, args(SYS_EXIT, 0, 0, 0, 0), b"");
    assert_eq!(out.rax, 0);
    assert!(k.channels.get_channel(cid).is_none());
}

#[test]
fn timer_tick_advances_clock_and_switches() {
    let mut k = booted();
    let p2 = dispatch(&mut k, args(SYS_FORK, 0, 0, 0, 0), b"").rax as u64;
    let (frame, st) = k.timer_tick(0xAAAA);
    assert_eq!(st, TimeoutState::Normal);
    assert_eq!(k.watchdog.current_tick, 1);
    assert_eq!(k.scheduler.current, p2);
    // The next switch hands init's stamped frame back.
    let (frame2, _) = k.timer_tick(0xBBBB);
    assert_eq!(k.scheduler.current, 1);
    assert_eq!(frame2, 0xAAAA);
    let _ = frame;
}
