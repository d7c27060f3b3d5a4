//! Process control blocks and the saved architectural context.
//!
//! A `Process` is the schedulable unit: identity, the saved register record
//! (`Context`), the frame of its top-level page table, its lifecycle state,
//! the parent/children links, and the scheduling policy fields.

use vstd::prelude::*;

verus! {

/// The pid that stands for "any child" in a wait request, and for -1 as an
/// unsigned 64-bit value on the syscall ABI.
pub const PID_ANY: u64 = 0xFFFF_FFFF_FFFF_FFFF;

/// User code selector with RPL set to ring 3.
pub const USER_CODE_SELECTOR: u64 = 0x23;

/// User data selector with RPL set to ring 3.
pub const USER_DATA_SELECTOR: u64 = 0x1b;

/// Initial RFLAGS for a fresh user process: interrupts enabled, all other
/// controllable bits clear (bit 1 is fixed to one by the CPU).
pub const INITIAL_RFLAGS: u64 = 0x202;

/// The register record saved on the kernel stack at every entry from user
/// mode, in the exact order the interrupt and syscall prologues push and pop:
/// the 15 integer registers other than RSP, then the five CPU-pushed fields
/// used by the privilege-return instruction.
#[derive(Debug, Clone, Copy, PartialEq, Eq, Structural)]
pub struct Context {
    pub r15: u64,
    pub r14: u64,
    pub r13: u64,
    pub r12: u64,
    pub rbp: u64,
    pub rbx: u64,
    pub r11: u64,
    pub r10: u64,
    pub r9: u64,
    pub r8: u64,
    pub rdi: u64,
    pub rsi: u64,
    pub rdx: u64,
    pub rcx: u64,
    pub rax: u64,
    // The frame the CPU consumes on the return-from-interrupt instruction.
    pub rip: u64,
    pub cs: u64,
    pub rflags: u64,
    pub rsp: u64,
    pub ss: u64,
}

/// Size of the saved register record, in bytes: twenty 8-byte fields.
pub const CONTEXT_SIZE: u64 = 160;

impl Context {
    /// The initial context of a fresh user process: all general-purpose
    /// registers zero, instruction pointer at the entry, stack pointer at the
    /// top of the user stack, interrupts enabled, user selectors with RPL 3.
    pub open spec fn spec_initial(entry_point: u64, stack_top: u64) -> Context {
        Context {
            r15: 0, r14: 0, r13: 0, r12: 0, rbp: 0, rbx: 0, r11: 0, r10: 0,
            r9: 0, r8: 0, rdi: 0, rsi: 0, rdx: 0, rcx: 0, rax: 0,
            rip: entry_point,
            cs: USER_CODE_SELECTOR,
            rflags: INITIAL_RFLAGS,
            rsp: stack_top,
            ss: USER_DATA_SELECTOR,
        }
    }

    /// Build the initial context of a fresh user process.
    pub fn initial(entry_point: u64, stack_top: u64) -> (c: Context)
        ensures
            c == Context::spec_initial(entry_point, stack_top),
    {
        Context {
            r15: 0, r14: 0, r13: 0, r12: 0, rbp: 0, rbx: 0, r11: 0, r10: 0,
            r9: 0, r8: 0, rdi: 0, rsi: 0, rdx: 0, rcx: 0, rax: 0,
            rip: entry_point,
            cs: USER_CODE_SELECTOR,
            rflags: INITIAL_RFLAGS,
            rsp: stack_top,
            ss: USER_DATA_SELECTOR,
        }
    }
}

/// Why a waiting process is blocked.
#[derive(Debug, Clone, Copy, PartialEq, Eq, Structural)]
pub enum WaitReason {
    /// Waiting for a child to exit: a pid, or `PID_ANY` for any child.
    Child(u64),
    /// Waiting to receive on a channel.
    IpcReceive(u64),
    /// Waiting for room to send on a channel.
    IpcSend(u64),
    /// Sleeping for a number of ticks.
    Sleep(u64),
    /// Parked in an asynchronous poll.
    AsyncPoll,
}

/// Lifecycle state of a process.
#[derive(Debug, Clone, Copy, PartialEq, Eq, Structural)]
pub enum ProcessState {
    Ready,
    Running,
    Waiting(WaitReason),
    Zombie,
    Stopped,
}

/// Per-process resource limits.
#[derive(Debug, Clone, Copy, PartialEq, Eq, Structural)]
pub struct ResourceLimits {
    pub max_memory: u64,
    pub max_cpu_time: u64,
    pub max_processes: u64,
    pub max_files: u64,
}

impl ResourceLimits {
    /// Generous default limits for a fresh process.
    pub fn defaults() -> (r: ResourceLimits)
        ensures
            r.max_memory == 0x1000_0000,
            r.max_cpu_time == 0xFFFF_FFFF,
            r.max_processes == 64,
            r.max_files == 256,
    {
        ResourceLimits {
            max_memory: 0x1000_0000,
            max_cpu_time: 0xFFFF_FFFF,
            max_processes: 64,
            max_files: 256,
        }
    }
}

/// Per-process usage counters, compared against the limits.
#[derive(Debug, Clone, Copy, PartialEq, Eq, Structural)]
pub struct ProcessStats {
    pub cpu_time_used: u64,
    pub memory_used: u64,
    pub children_count: u64,
    pub files_opened: u64,
}

impl ProcessStats {
    /// Fresh counters, all zero.
    pub fn zeroed() -> (r: ProcessStats)
        ensures
            r == (ProcessStats { cpu_time_used: 0, memory_used: 0, children_count: 0, files_opened: 0 }),
    {
        ProcessStats { cpu_time_used: 0, memory_used: 0, children_count: 0, files_opened: 0 }
    }
}

/// Default scheduling priority of a fresh process; the range is 0..=31 and a
/// lower number wins.
pub const DEFAULT_PRIORITY: u8 = 16;

/// A process control block.
pub struct Process {
    /// Unique process id, monotonically allocated, never zero.
    pub id: u64,
    /// Address of the saved `Context` on the process's kernel stack.
    pub context_ptr: u64,
    /// The saved register record itself.
    pub context: Context,
    /// Physical frame number of the top-level page table.
    pub page_table_frame: u64,
    /// Lifecycle state.
    pub state: ProcessState,
    /// Pid of the parent; 0 stands for init.
    pub parent_id: u64,
    /// Pids of the children, in creation order.
    pub children: Vec<u64>,
    /// Exit code stashed when the process becomes a Zombie.
    pub exit_code: i32,
    /// Scheduling priority in 0..=31; lower wins.
    pub priority: u8,
    /// Process group id.
    pub process_group_id: u64,
    /// Session id.
    pub session_id: u64,
    /// Resource limits.
    pub limits: ResourceLimits,
    /// Usage counters.
    pub stats: ProcessStats,
    /// Tick at which the process was created.
    pub creation_time: u64,
}

impl Process {
    /// Well-formedness of a single process control block: the pid is nonzero,
    /// the priority is in range, and the children counter agrees with the
    /// children list.
    pub open spec fn wf(self) -> bool {
        &&& self.id >= 1
        &&& self.priority <= 31
        &&& self.stats.children_count == self.children@.len()
    }

    /// Build a fresh Ready process: the saved context sits at the top of the
    /// kernel stack, below `stack_top`, and holds the initial user register
    /// record.
    pub fn new(id: u64, entry_point: u64, stack_top: u64) -> (p: Process)
        requires
            id >= 1,
            stack_top >= CONTEXT_SIZE,
        ensures
            p.wf(),
            p.id == id,
            p.context_ptr == stack_top - CONTEXT_SIZE,
            p.context == Context::spec_initial(entry_point, stack_top),
            p.state == ProcessState::Ready,
            p.parent_id == 0,
            p.children@.len() == 0,
            p.exit_code == 0,
            p.priority == DEFAULT_PRIORITY,
            p.process_group_id == id,
            p.session_id == id,
            p.creation_time == 0,
            p.page_table_frame == 0,
    {
        Process {
            id,
            context_ptr: stack_top - CONTEXT_SIZE,
            context: Context::initial(entry_point, stack_top),
            page_table_frame: 0,
            state: ProcessState::Ready,
            parent_id: 0,
            children: Vec::new(),
            exit_code: 0,
            priority: DEFAULT_PRIORITY,
            process_group_id: id,
            session_id: id,
            limits: ResourceLimits::defaults(),
            stats: ProcessStats::zeroed(),
            creation_time: 0,
        }
    }

    /// Whether any usage counter has passed its limit, making the process
    /// eligible for termination by the watchdog or a policy engine.
    pub fn exceeds_limits(&self) -> (r: bool)
        ensures
            r == (self.stats.cpu_time_used > self.limits.max_cpu_time
                || self.stats.memory_used > self.limits.max_memory
                || self.stats.children_count > self.limits.max_processes
                || self.stats.files_opened > self.limits.max_files),
    {
        self.stats.cpu_time_used > self.limits.max_cpu_time
            || self.stats.memory_used > self.limits.max_memory
            || self.stats.children_count > self.limits.max_processes
            || self.stats.files_opened > self.limits.max_files
    }
}

} // verus!
