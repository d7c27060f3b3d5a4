//! The syscall dispatcher: read the number and arguments out of the saved
//! register frame, validate them against the user address range and the
//! per-call bounds, route to the owning subsystem, and marshal the result
//! into the 64-bit return register.  The assembly entry stub that saves the
//! frame and executes the fast-return lives outside the library.

use vstd::prelude::*;
use crate::handle::MemoryHandle;
use crate::ipc::{
    spec_has_channel, spec_index_of_channel, spec_message_of, Message, MAX_CHANNEL_ID,
    MAX_MESSAGE_SIZE, MAX_QUEUE_SIZE,
};
use crate::kernel::Kernel;
use crate::process::{Context, Process, ProcessState, WaitReason};
use crate::scheduler::{
    spec_forked_child, spec_forked_parent, spec_has_pid, spec_index_of_pid, spec_reaped_parent,
    spec_wait_match, MAX_PID,
};

verus! {

/// Lowest user-space address a pointer argument may name.
pub const USER_SPACE_START: u64 = 0x40_0000;

/// Highest user-space address a buffer may reach (inclusive end of range).
pub const USER_SPACE_END: u64 = 0x7FFF_FFFF;

/// Largest buffer the write syscall accepts.
pub const MAX_WRITE_SIZE: u64 = 4096;

/// Syscall numbers of the ABI.
pub const SYS_EXIT: u64 = 0;
pub const SYS_WRITE: u64 = 1;
pub const SYS_CREATE_CHANNEL: u64 = 2;
pub const SYS_SEND_MESSAGE: u64 = 3;
pub const SYS_RECEIVE_MESSAGE: u64 = 4;
pub const SYS_YIELD: u64 = 24;
pub const SYS_GETPID: u64 = 39;
pub const SYS_FORK: u64 = 57;
pub const SYS_WAIT: u64 = 61;

/// The generic failure return.
pub const SYSCALL_ERROR: i64 = -1;

/// The reserved "would block / empty" return.
pub const SYSCALL_WOULD_BLOCK: i64 = -2;

/// A user buffer `[ptr, ptr + size)` is acceptable exactly when it starts
/// at or above the user-space floor and ends at or below the user-space
/// ceiling, with no arithmetic overflow.
pub open spec fn spec_valid_buffer(ptr: u64, size: u64) -> bool {
    &&& ptr >= USER_SPACE_START
    &&& ptr <= USER_SPACE_END
    &&& size <= USER_SPACE_END
    &&& ptr + size <= USER_SPACE_END
}

/// Validate a pointer argument against the user address range: the
/// boundaries themselves are accepted, one byte past either is not.
pub fn validate_user_buffer(ptr: u64, size: u64) -> (r: bool)
    ensures
        r == spec_valid_buffer(ptr, size),
{
    ptr >= USER_SPACE_START && ptr <= USER_SPACE_END && size <= USER_SPACE_END
        && ptr + size <= USER_SPACE_END
}

/// The saved syscall registers: the number from `rax` and the arguments in
/// the `rdi, rsi, rdx, r10` order of the ABI.
#[derive(Debug, Clone, Copy, PartialEq, Eq, Structural)]
pub struct SyscallArgs {
    /// Syscall number (`rax` on entry).
    pub number: u64,
    /// First argument.
    pub rdi: u64,
    /// Second argument.
    pub rsi: u64,
    /// Third argument.
    pub rdx: u64,
    /// Fourth argument.
    pub r10: u64,
}

impl SyscallArgs {
    /// Read the number and arguments out of a saved register frame.
    pub fn from_context(ctx: &Context) -> (r: SyscallArgs)
        ensures
            r == (SyscallArgs {
                number: ctx.rax,
                rdi: ctx.rdi,
                rsi: ctx.rsi,
                rdx: ctx.rdx,
                r10: ctx.r10,
            }),
    {
        SyscallArgs { number: ctx.rax, rdi: ctx.rdi, rsi: ctx.rsi, rdx: ctx.rdx, r10: ctx.r10 }
    }
}

/// What a dispatched syscall hands back to the entry path: the value for
/// `rax` (negative codes sign-extended), a delivered message for the
/// receive call, the exit status for a reaping wait, and whether the caller
/// asked to give up the CPU.
pub struct SyscallOutcome {
    /// Return value for `rax`.
    pub rax: i64,
    /// The message delivered by `receive_message`, for the entry path to
    /// copy out (at most `max_len` bytes of it).
    pub message: Option<Message>,
    /// The exit status a reaping `wait` returns, for the entry path to
    /// store through the status pointer.
    pub wait_status: Option<i32>,
    /// Whether the scheduler should run before returning to user mode.
    pub resched: bool,
}

/// Dispatch one syscall for the current process.  The payload carries the
/// bytes of the send buffer, fetched by the entry path after validating the
/// pointer; every other call ignores it.
#[verifier::rlimit(100)]
#[verifier::spinoff_prover]
pub fn dispatch(k: &mut Kernel, args: SyscallArgs, payload: &[u8]) -> (r: SyscallOutcome)
    requires
        old(k).wf(),
        args.number == SYS_SEND_MESSAGE && spec_valid_buffer(args.rdx, args.r10)
            && args.r10 <= MAX_MESSAGE_SIZE ==> payload@.len() == args.r10,
    ensures
        final(k).wf(),
        ({
            let caller = old(k).scheduler.current;
            if args.number == SYS_GETPID {
                &&& r.rax == caller as i64
                &&& *final(k) == *old(k)
            } else if args.number == SYS_YIELD {
                &&& r.rax == 0
                &&& r.resched
                &&& *final(k) == *old(k)
            } else if args.number == SYS_WRITE {
                &&& r.rax == if (args.rdi == 1 || args.rdi == 2) && args.rdx <= MAX_WRITE_SIZE
                        && spec_valid_buffer(args.rsi, args.rdx) {
                        args.rdx as i64
                    } else {
                        SYSCALL_ERROR
                    }
                &&& *final(k) == *old(k)
            } else if args.number == SYS_EXIT {
                let code = args.rdi as i64;
                if -255 <= code <= 255 && spec_has_pid(old(k).scheduler.processes@, caller) {
                    &&& r.rax == 0
                    &&& r.resched
                    &&& crate::scheduler::spec_exited_rel(old(k).scheduler.processes@,
                            final(k).scheduler.processes@, caller, code as i32)
                    &&& final(k).channels.channels@ == old(k).channels.channels@.filter(
                            |c: crate::ipc::Channel| !c.spec_has_endpoint(caller))
                    &&& final(k).handles.handles@ == old(k).handles.handles@.filter(
                            |h: MemoryHandle| !(h.owner_pid == caller || h.holder_pid == caller))
                    &&& if crate::watchdog::spec_has_record(old(k).watchdog.processes@, caller) {
                            final(k).watchdog.processes@ == old(k).watchdog.processes@.remove(
                                crate::watchdog::spec_index_of_record(
                                    old(k).watchdog.processes@, caller))
                        } else {
                            final(k).watchdog.processes@ == old(k).watchdog.processes@
                        }
                    &&& final(k).perf == old(k).perf
                } else {
                    &&& r.rax == SYSCALL_ERROR
                    &&& *final(k) == *old(k)
                }
            } else if args.number == SYS_CREATE_CHANNEL {
                let target = args.rdi;
                if caller == target {
                    &&& r.rax == SYSCALL_ERROR
                    &&& *final(k) == *old(k)
                } else if old(k).channels.next_id < MAX_CHANNEL_ID {
                    &&& r.rax == old(k).channels.next_id as i64
                    &&& r.rax > 0
                    &&& exists|c: crate::ipc::Channel|
                            {
                                &&& #[trigger] c.id == old(k).channels.next_id
                                &&& c.endpoint1 == caller
                                &&& c.endpoint2 == target
                                &&& c.queue1_to_2@.len() == 0
                                &&& c.queue2_to_1@.len() == 0
                                &&& final(k).channels.channels@
                                    == old(k).channels.channels@.push(c)
                            }
                    &&& final(k).scheduler == old(k).scheduler
                    &&& final(k).handles == old(k).handles
                    &&& final(k).page_tables == old(k).page_tables
                    &&& final(k).watchdog == old(k).watchdog
                    &&& final(k).perf == old(k).perf
                } else {
                    &&& r.rax == SYSCALL_ERROR
                    &&& *final(k) == *old(k)
                }
            } else if args.number == SYS_SEND_MESSAGE {
                let cid = args.rdi;
                let cs = old(k).channels.channels@;
                &&& final(k).scheduler == old(k).scheduler
                &&& final(k).handles == old(k).handles
                &&& final(k).page_tables == old(k).page_tables
                &&& final(k).watchdog == old(k).watchdog
                &&& final(k).perf == old(k).perf
                &&& if !(spec_valid_buffer(args.rdx, args.r10) && args.r10 <= MAX_MESSAGE_SIZE) {
                    &&& r.rax == SYSCALL_ERROR
                    &&& final(k).channels == old(k).channels
                } else if !spec_has_channel(cs, cid) {
                    &&& r.rax == SYSCALL_ERROR
                    &&& final(k).channels.channels@ == cs
                } else {
                    let ci = spec_index_of_channel(cs, cid);
                    let c = cs[ci];
                    if !c.spec_has_endpoint(caller) {
                        &&& r.rax == SYSCALL_ERROR
                        &&& final(k).channels.channels@ == cs
                    } else if c.spec_inbox(c.spec_other_endpoint(caller)).len() >= MAX_QUEUE_SIZE {
                        &&& r.rax == SYSCALL_ERROR
                        &&& final(k).channels.channels@ == cs
                    } else {
                        &&& r.rax == 0
                        &&& final(k).channels.channels@.len() == cs.len()
                        &&& exists|m: Message|
                                spec_message_of(m, caller, args.rsi as u32, payload@)
                                && final(k).channels.channels@[ci].spec_inbox(
                                       c.spec_other_endpoint(caller))
                                   == #[trigger] c.spec_inbox(c.spec_other_endpoint(caller)).push(m)
                    }
                }
            } else if args.number == SYS_RECEIVE_MESSAGE {
                let cid = args.rdi;
                let cs = old(k).channels.channels@;
                &&& final(k).scheduler == old(k).scheduler
                &&& final(k).handles == old(k).handles
                &&& final(k).page_tables == old(k).page_tables
                &&& final(k).watchdog == old(k).watchdog
                &&& final(k).perf == old(k).perf
                &&& if !spec_valid_buffer(args.rsi, args.rdx) {
                    &&& r.rax == SYSCALL_ERROR
                    &&& final(k).channels == old(k).channels
                } else if !spec_has_channel(cs, cid) {
                    &&& r.rax == SYSCALL_ERROR
                    &&& final(k).channels.channels@ == cs
                } else {
                    let ci = spec_index_of_channel(cs, cid);
                    let c = cs[ci];
                    if !c.spec_has_endpoint(caller) {
                        &&& r.rax == SYSCALL_ERROR
                        &&& r.message is None
                        &&& final(k).channels.channels@ == cs
                    } else if c.spec_inbox(caller).len() > 0 {
                        let m = c.spec_inbox(caller).first();
                        &&& r.message == Some(m)
                        &&& r.rax == if m.data_len <= args.rdx { m.data_len as i64 } else { args.rdx as i64 }
                        &&& final(k).channels.channels@[ci].spec_inbox(caller)
                            == c.spec_inbox(caller).drop_first()
                    } else {
                        &&& r.rax == SYSCALL_WOULD_BLOCK
                        &&& r.message is None
                        &&& final(k).channels.channels@.len() == cs.len()
                        &&& forall|j: int| 0 <= j < cs.len() && j != ci
                                ==> final(k).channels.channels@[j] == cs[j]
                        &&& final(k).channels.channels@[ci].queue1_to_2@ == c.queue1_to_2@
                        &&& final(k).channels.channels@[ci].queue2_to_1@ == c.queue2_to_1@
                        &&& final(k).channels.channels@[ci].id == c.id
                        &&& final(k).channels.channels@[ci].endpoint1 == c.endpoint1
                        &&& final(k).channels.channels@[ci].endpoint2 == c.endpoint2
                    }
                }
            } else if args.number == SYS_FORK {
                let s0 = old(k).scheduler.processes@;
                &&& final(k).channels == old(k).channels
                &&& final(k).handles == old(k).handles
                &&& final(k).page_tables == old(k).page_tables
                &&& final(k).watchdog == old(k).watchdog
                &&& final(k).perf == old(k).perf
                &&& if spec_has_pid(s0, caller) && old(k).scheduler.next_pid < MAX_PID {
                    let child = old(k).scheduler.next_pid;
                    &&& r.rax == child as i64
                    &&& r.rax > 0
                    &&& final(k).scheduler.next_pid == child + 1
                    &&& ({
                        let pi = spec_index_of_pid(s0, caller);
                        let parent = s0[pi];
                        exists|w: Process, c: Process|
                            {
                                &&& #[trigger] spec_forked_parent(parent, w, child)
                                &&& #[trigger] spec_forked_child(parent, c, child)
                                &&& final(k).scheduler.processes@ == s0.update(pi, w).push(c)
                            }
                    })
                } else {
                    &&& r.rax == SYSCALL_ERROR
                    &&& final(k).scheduler == old(k).scheduler
                }
            } else if args.number == SYS_WAIT {
                let target = args.rdi;
                let status_ptr = args.rsi;
                let s0 = old(k).scheduler.processes@;
                &&& final(k).channels == old(k).channels
                &&& final(k).handles == old(k).handles
                &&& final(k).page_tables == old(k).page_tables
                &&& final(k).watchdog == old(k).watchdog
                &&& final(k).perf == old(k).perf
                &&& if status_ptr != 0 && !spec_valid_buffer(status_ptr, 4) {
                    &&& r.rax == SYSCALL_ERROR
                    &&& final(k).scheduler == old(k).scheduler
                } else if !spec_has_pid(s0, caller) {
                    &&& r.rax == SYSCALL_ERROR
                    &&& final(k).scheduler == old(k).scheduler
                } else {
                    let ci = spec_index_of_pid(s0, caller);
                    let cp = s0[ci];
                    match r.wait_status {
                        Some(code) => exists|kx: int|
                            {
                                &&& #[trigger] spec_wait_match(s0, cp.children@, kx, caller, target)
                                &&& forall|m: int| 0 <= m < kx
                                        ==> !spec_wait_match(s0, cp.children@, m, caller, target)
                                &&& r.rax == cp.children@[kx] as i64
                                &&& r.rax > 0
                                &&& code == s0[spec_index_of_pid(s0, cp.children@[kx])].exit_code
                                &&& exists|w: Process|
                                        {
                                            &&& #[trigger] spec_reaped_parent(cp, w, kx)
                                            &&& final(k).scheduler.processes@ == s0.update(ci, w)
                                                .remove(spec_index_of_pid(s0, cp.children@[kx]))
                                        }
                            },
                        None => {
                            &&& r.rax == SYSCALL_ERROR
                            &&& forall|m: int| !spec_wait_match(s0, cp.children@, m, caller, target)
                            &&& final(k).scheduler.processes@ == s0.update(ci, Process {
                                    state: ProcessState::Waiting(WaitReason::Child(target)),
                                    ..cp
                                })
                        },
                    }
                }
            } else {
                &&& r.rax == SYSCALL_ERROR
                &&& *final(k) == *old(k)
            }
        }),
{
    let caller = k.scheduler.current;
    if args.number == SYS_GETPID {
        proof {
            assert(caller <= MAX_PID);
        }
        return SyscallOutcome { rax: caller as i64, message: None, wait_status: None, resched: false };
    }
    if args.number == SYS_YIELD {
        return SyscallOutcome { rax: 0, message: None, wait_status: None, resched: true };
    }
    if args.number == SYS_WRITE {
        let ok = (args.rdi == 1 || args.rdi == 2) && args.rdx <= MAX_WRITE_SIZE
            && validate_user_buffer(args.rsi, args.rdx);
        let rax = if ok { args.rdx as i64 } else { SYSCALL_ERROR };
        return SyscallOutcome { rax, message: None, wait_status: None, resched: false };
    }
    if args.number == SYS_EXIT {
        let code = args.rdi as i64;
        if code < -255 || code > 255 {
            return SyscallOutcome { rax: SYSCALL_ERROR, message: None, wait_status: None, resched: false };
        }
        match k.exit_process(caller, code) {
            Ok(_) => {
                return SyscallOutcome { rax: 0, message: None, wait_status: None, resched: true };
            },
            Err(_) => {
                return SyscallOutcome { rax: SYSCALL_ERROR, message: None, wait_status: None, resched: false };
            },
        }
    }
    if args.number == SYS_CREATE_CHANNEL {
        let res = crate::ipc::create_channel(&mut k.channels, caller, args.rdi);
        let rax = match res {
            Ok(id) => id as i64,
            Err(_) => SYSCALL_ERROR,
        };
        return SyscallOutcome { rax, message: None, wait_status: None, resched: false };
    }
    if args.number == SYS_SEND_MESSAGE {
        if !(validate_user_buffer(args.rdx, args.r10) && args.r10 <= MAX_MESSAGE_SIZE as u64) {
            return SyscallOutcome { rax: SYSCALL_ERROR, message: None, wait_status: None, resched: false };
        }
        let rsi = args.rsi;
        let msg_type = (rsi & 0xFFFF_FFFF) as u32;
        proof {
            assert(msg_type == rsi as u32) by (bit_vector)
                requires msg_type == (rsi & 0xFFFF_FFFF) as u32;
        }
        let res = crate::ipc::send_message(&mut k.channels, caller, args.rdi, msg_type, payload);
        let rax = match res {
            Ok(_) => 0,
            Err(_) => SYSCALL_ERROR,
        };
        return SyscallOutcome { rax, message: None, wait_status: None, resched: false };
    }
    if args.number == SYS_RECEIVE_MESSAGE {
        if !validate_user_buffer(args.rsi, args.rdx) {
            return SyscallOutcome { rax: SYSCALL_ERROR, message: None, wait_status: None, resched: false };
        }
        match crate::ipc::receive_message(&mut k.channels, caller, args.rdi) {
            Ok(Some(m)) => {
                let copied = if m.data_len as u64 <= args.rdx { m.data_len as i64 } else { args.rdx as i64 };
                return SyscallOutcome { rax: copied, message: Some(m), wait_status: None, resched: false };
            },
            Ok(None) => {
                return SyscallOutcome { rax: SYSCALL_WOULD_BLOCK, message: None, wait_status: None, resched: false };
            },
            Err(_) => {
                return SyscallOutcome { rax: SYSCALL_ERROR, message: None, wait_status: None, resched: false };
            },
        }
    }
    if args.number == SYS_FORK {
        match k.scheduler.fork(caller) {
            Ok(child) => {
                return SyscallOutcome { rax: child as i64, message: None, wait_status: None, resched: false };
            },
            Err(_) => {
                return SyscallOutcome { rax: SYSCALL_ERROR, message: None, wait_status: None, resched: false };
            },
        }
    }
    if args.number == SYS_WAIT {
        if args.rsi != 0 && !validate_user_buffer(args.rsi, 4) {
            return SyscallOutcome { rax: SYSCALL_ERROR, message: None, wait_status: None, resched: false };
        }
        match k.scheduler.wait(caller, args.rdi) {
            Ok((cpid, code)) => {
                proof {
                    assert(cpid < MAX_PID);
                }
                return SyscallOutcome { rax: cpid as i64, message: None, wait_status: Some(code), resched: false };
            },
            Err(_) => {
                return SyscallOutcome { rax: SYSCALL_ERROR, message: None, wait_status: None, resched: false };
            },
        }
    }
    SyscallOutcome { rax: SYSCALL_ERROR, message: None, wait_status: None, resched: false }
}

} // verus!
