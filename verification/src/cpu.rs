//! Per-CPU data: the scratch area the syscall entry path depends on (kernel
//! stack top, current pid, saved user stack pointer), interrupt nesting, and
//! the performance counters.  The kernel is single-CPU; the manager keeps
//! one slot per possible CPU and hands out the bootstrap CPU's record.

use vstd::prelude::*;
use crate::error::{GeneralError, KernelError, KernelResult};

verus! {

/// Maximum number of CPUs the table holds slots for.
pub const MAX_CPUS: usize = 64;

/// CPU flag: deferred work is pending.
pub const CPU_FLAG_PENDING_WORK: u64 = 0x1;

/// CPU flag: a syscall is being serviced.
pub const CPU_FLAG_IN_SYSCALL: u64 = 0x2;

/// CPU flag: a reschedule is pending.
pub const CPU_FLAG_SCHEDULE_PENDING: u64 = 0x4;

/// CPU-local storage for frequently touched data.
#[derive(Debug, Clone, Copy, PartialEq, Eq, Structural)]
pub struct CpuLocalStorage {
    /// Current running task slot, if any.
    pub current_task: Option<usize>,
    /// CPU-specific flags.
    pub flags: u64,
    /// Last error recorded on this CPU.
    pub last_error: Option<KernelError>,
}

/// Scheduling bookkeeping of one CPU.
#[derive(Debug, Clone, Copy, PartialEq, Eq, Structural)]
pub struct CpuSchedulerState {
    /// Whether this CPU is inside the scheduler.
    pub is_scheduling: bool,
    /// Next task slot to run, if chosen.
    pub next_task: Option<usize>,
    /// Remaining scheduling quantum, in ticks.
    pub quantum_remaining: usize,
}

/// The per-CPU record: the scratch area the fast-syscall entry reads
/// (kernel stack top, current pid, saved user RSP), plus local storage.
#[derive(Debug, Clone, Copy, PartialEq, Eq, Structural)]
pub struct CpuData {
    /// CPU id, 0-based.
    pub cpu_id: usize,
    /// Pid of the process running on this CPU.
    pub current_process_id: usize,
    /// User stack pointer saved on syscall entry.
    pub user_rsp: usize,
    /// Top of this CPU's kernel stack.
    pub kernel_stack_top: usize,
    /// Address of this CPU's TSS.
    pub tss_ptr: usize,
    /// CPU-local storage.
    pub local_storage: CpuLocalStorage,
    /// Interrupt nesting level.
    pub interrupt_depth: usize,
    /// Scheduler state of this CPU.
    pub scheduler_state: CpuSchedulerState,
}

impl CpuData {
    /// A fresh record for one CPU: nothing running, empty storage, level
    /// zero.
    pub fn new(cpu_id: usize, kernel_stack_top: usize) -> (r: CpuData)
        ensures
            r.cpu_id == cpu_id,
            r.kernel_stack_top == kernel_stack_top,
            r.current_process_id == 0,
            r.user_rsp == 0,
            r.tss_ptr == 0,
            r.interrupt_depth == 0,
            r.local_storage == (CpuLocalStorage { current_task: None, flags: 0, last_error: None }),
            r.scheduler_state == (CpuSchedulerState {
                is_scheduling: false,
                next_task: None,
                quantum_remaining: 0,
            }),
    {
        CpuData {
            cpu_id,
            current_process_id: 0,
            user_rsp: 0,
            kernel_stack_top,
            tss_ptr: 0,
            local_storage: CpuLocalStorage { current_task: None, flags: 0, last_error: None },
            interrupt_depth: 0,
            scheduler_state: CpuSchedulerState {
                is_scheduling: false,
                next_task: None,
                quantum_remaining: 0,
            },
        }
    }

    /// The pid the syscall path sees as current.
    pub fn get_current_process_id(&self) -> (r: usize)
        ensures
            r == self.current_process_id,
    {
        self.current_process_id
    }

    /// Stamp the current pid into the scratch area.
    pub fn set_current_process_id(&mut self, pid: usize)
        ensures
            *final(self) == (CpuData { current_process_id: pid, ..*old(self) }),
    {
        self.current_process_id = pid;
    }

    /// The user stack pointer saved on syscall entry.
    pub fn get_user_rsp(&self) -> (r: usize)
        ensures
            r == self.user_rsp,
    {
        self.user_rsp
    }

    /// Save the user stack pointer on syscall entry.
    pub fn set_user_rsp(&mut self, rsp: usize)
        ensures
            *final(self) == (CpuData { user_rsp: rsp, ..*old(self) }),
    {
        self.user_rsp = rsp;
    }

    /// Enter an interrupt: one level deeper.
    pub fn enter_interrupt(&mut self)
        requires
            old(self).interrupt_depth < usize::MAX,
        ensures
            *final(self) == (CpuData {
                interrupt_depth: (old(self).interrupt_depth + 1) as usize,
                ..*old(self)
            }),
    {
        self.interrupt_depth = self.interrupt_depth + 1;
    }

    /// Leave an interrupt: one level up, never below zero.
    pub fn exit_interrupt(&mut self)
        ensures
            *final(self) == (CpuData {
                interrupt_depth: if old(self).interrupt_depth > 0 {
                    (old(self).interrupt_depth - 1) as usize
                } else {
                    0
                },
                ..*old(self)
            }),
    {
        if self.interrupt_depth > 0 {
            self.interrupt_depth = self.interrupt_depth - 1;
        }
    }

    /// Whether an interrupt is being serviced.
    pub fn in_interrupt(&self) -> (r: bool)
        ensures
            r == (self.interrupt_depth > 0),
    {
        self.interrupt_depth > 0
    }

    /// Record the last error met on this CPU.
    pub fn set_last_error(&mut self, error: KernelError)
        ensures
            final(self).local_storage.last_error == Some(error),
            final(self).local_storage.flags == old(self).local_storage.flags,
            final(self).local_storage.current_task == old(self).local_storage.current_task,
            final(self).cpu_id == old(self).cpu_id,
            final(self).current_process_id == old(self).current_process_id,
            final(self).user_rsp == old(self).user_rsp,
            final(self).kernel_stack_top == old(self).kernel_stack_top,
            final(self).tss_ptr == old(self).tss_ptr,
            final(self).interrupt_depth == old(self).interrupt_depth,
            final(self).scheduler_state == old(self).scheduler_state,
    {
        self.local_storage.last_error = Some(error);
    }

    /// Take and clear the last error.
    pub fn take_last_error(&mut self) -> (r: Option<KernelError>)
        ensures
            r == old(self).local_storage.last_error,
            final(self).local_storage.last_error is None,
            final(self).local_storage.flags == old(self).local_storage.flags,
            final(self).local_storage.current_task == old(self).local_storage.current_task,
            final(self).cpu_id == old(self).cpu_id,
            final(self).current_process_id == old(self).current_process_id,
            final(self).user_rsp == old(self).user_rsp,
            final(self).kernel_stack_top == old(self).kernel_stack_top,
            final(self).tss_ptr == old(self).tss_ptr,
            final(self).interrupt_depth == old(self).interrupt_depth,
            final(self).scheduler_state == old(self).scheduler_state,
    {
        let r = self.local_storage.last_error;
        self.local_storage.last_error = None;
        r
    }
}

/// The table of per-CPU records.
pub struct CpuManager {
    /// One slot per possible CPU.
    pub cpus: Vec<Option<CpuData>>,
    /// Number of initialized CPUs.
    pub cpu_count: usize,
    /// Id of the CPU executing now.
    pub current_cpu: usize,
}

impl CpuManager {
    /// The table always holds exactly `MAX_CPUS` slots, each initialized
    /// slot names its own id, and the current id is in range.
    pub open spec fn wf(self) -> bool {
        &&& self.cpus@.len() == MAX_CPUS
        &&& self.current_cpu < MAX_CPUS
        &&& self.cpu_count <= MAX_CPUS
        &&& forall|i: int| 0 <= i < self.cpus@.len()
                ==> ((#[trigger] self.cpus@[i]) matches Some(c) ==> c.cpu_id == i)
    }

    /// An empty table of `MAX_CPUS` free slots.
    pub fn new() -> (r: CpuManager)
        ensures
            r.wf(),
            r.cpu_count == 0,
            r.current_cpu == 0,
            forall|i: int| 0 <= i < r.cpus@.len() ==> (#[trigger] r.cpus@[i]) is None,
    {
        let mut cpus: Vec<Option<CpuData>> = Vec::new();
        let mut i: usize = 0;
        while i < MAX_CPUS
            invariant
                i <= MAX_CPUS,
                cpus@.len() == i,
                forall|j: int| 0 <= j < i ==> (#[trigger] cpus@[j]) is None,
            decreases MAX_CPUS - i,
        {
            cpus.push(None);
            i = i + 1;
        }
        CpuManager { cpus, cpu_count: 0, current_cpu: 0 }
    }

    /// Bring a CPU up: claim its slot with a fresh record.  An id out of
    /// range is an invalid operation; a slot already claimed an invalid
    /// state.
    pub fn init_cpu(&mut self, cpu_id: usize, kernel_stack_top: usize) -> (r: KernelResult<()>)
        requires
            old(self).wf(),
        ensures
            final(self).wf(),
            final(self).current_cpu == old(self).current_cpu,
            ({
                if cpu_id >= MAX_CPUS {
                    &&& r == Err::<(), KernelError>(KernelError::General(GeneralError::InvalidOperation))
                    &&& *final(self) == *old(self)
                } else if old(self).cpus@[cpu_id as int] is Some {
                    &&& r == Err::<(), KernelError>(KernelError::General(GeneralError::InvalidState))
                    &&& *final(self) == *old(self)
                } else {
                    &&& r == Ok::<(), KernelError>(())
                    &&& final(self).cpus@[cpu_id as int] matches Some(c)
                            && c.cpu_id == cpu_id && c.kernel_stack_top == kernel_stack_top
                            && c.current_process_id == 0
                    &&& forall|j: int| 0 <= j < MAX_CPUS && j != cpu_id
                            ==> final(self).cpus@[j] == old(self).cpus@[j]
                    &&& final(self).cpu_count == if old(self).cpu_count < MAX_CPUS {
                            (old(self).cpu_count + 1) as usize
                        } else {
                            MAX_CPUS
                        }
                }
            }),
    {
        if cpu_id >= MAX_CPUS {
            return Err(KernelError::General(GeneralError::InvalidOperation));
        }
        let already = self.cpus[cpu_id].is_some();
        if already {
            return Err(KernelError::General(GeneralError::InvalidState));
        }
        let ghost s0 = self.cpus@;
        let data = CpuData::new(cpu_id, kernel_stack_top);
        let _slot = self.cpus.remove(cpu_id);
        self.cpus.insert(cpu_id, Some(data));
        proof {
            assert(self.cpus@ =~= s0.update(cpu_id as int, Some(data)));
        }
        if self.cpu_count < MAX_CPUS {
            self.cpu_count = self.cpu_count + 1;
        }
        Ok(())
    }

    /// Select which CPU is executing now.
    pub fn set_current_cpu(&mut self, cpu_id: usize)
        requires
            old(self).wf(),
            cpu_id < MAX_CPUS,
        ensures
            final(self).wf(),
            *final(self) == (CpuManager { current_cpu: cpu_id, ..*old(self) }),
    {
        self.current_cpu = cpu_id;
    }

    /// Number of initialized CPUs.
    pub fn cpu_count(&self) -> (r: usize)
        ensures
            r == self.cpu_count,
    {
        self.cpu_count
    }

    /// Borrow the record of a CPU; an unclaimed slot is an invalid state,
    /// an id out of range an invalid operation.
    pub fn get_cpu(&self, cpu_id: usize) -> (r: KernelResult<&CpuData>)
        requires
            self.wf(),
        ensures
            match r {
                Ok(c) => cpu_id < MAX_CPUS && self.cpus@[cpu_id as int] == Some(*c),
                Err(e) => {
                    &&& (e == KernelError::General(GeneralError::InvalidOperation)
                         <==> cpu_id >= MAX_CPUS)
                    &&& (e == KernelError::General(GeneralError::InvalidState)
                         <==> cpu_id < MAX_CPUS && self.cpus@[cpu_id as int] is None)
                },
            },
    {
        if cpu_id >= MAX_CPUS {
            return Err(KernelError::General(GeneralError::InvalidOperation));
        }
        match &self.cpus[cpu_id] {
            Some(c) => Ok(c),
            None => Err(KernelError::General(GeneralError::InvalidState)),
        }
    }

    /// Borrow the record of the CPU executing now.
    pub fn get_current_cpu(&self) -> (r: KernelResult<&CpuData>)
        requires
            self.wf(),
        ensures
            match r {
                Ok(c) => self.cpus@[self.current_cpu as int] == Some(*c),
                Err(e) => e == KernelError::General(GeneralError::InvalidState)
                    && self.cpus@[self.current_cpu as int] is None,
            },
    {
        match &self.cpus[self.current_cpu] {
            Some(c) => Ok(c),
            None => Err(KernelError::General(GeneralError::InvalidState)),
        }
    }
}

/// Base of the kernel-stack area, in the upper half of the address space.
pub const KERNEL_STACK_BASE: u64 = 0xFFFF_8000_0000_0000;

/// Size of one CPU's kernel stack, in bytes.
pub const KERNEL_STACK_SIZE: u64 = 16384;

/// The top of the kernel stack carved out for one CPU: stacks of
/// `KERNEL_STACK_SIZE` bytes laid out consecutively from the base, each top
/// 16-byte aligned.
pub fn get_kernel_stack_for_cpu(cpu_id: usize) -> (r: KernelResult<u64>)
    requires
        cpu_id < MAX_CPUS,
    ensures
        r == Ok::<u64, KernelError>((KERNEL_STACK_BASE + (cpu_id + 1) * KERNEL_STACK_SIZE) as u64),
{
    let stack_base = KERNEL_STACK_BASE + (cpu_id as u64) * KERNEL_STACK_SIZE;
    if stack_base % 16 != 0 {
        return Err(KernelError::Memory(crate::error::AllocError::BadAlignment));
    }
    Ok(stack_base + KERNEL_STACK_SIZE)
}

/// Number of initialized CPUs in the manager.
pub fn cpu_count(manager: &CpuManager) -> (r: usize)
    ensures
        r == manager.cpu_count,
{
    manager.cpu_count
}

/// Counters of the events the kernel services.
#[derive(Debug, Clone, Copy, PartialEq, Eq, Structural)]
pub struct PerfMonitor {
    /// Context switches performed.
    pub context_switches: usize,
    /// Interrupts handled.
    pub interrupts_handled: usize,
    /// Syscalls handled.
    pub syscalls_handled: usize,
}

impl PerfMonitor {
    /// All counters at zero.
    pub fn new() -> (r: PerfMonitor)
        ensures
            r == (PerfMonitor { context_switches: 0, interrupts_handled: 0, syscalls_handled: 0 }),
    {
        PerfMonitor { context_switches: 0, interrupts_handled: 0, syscalls_handled: 0 }
    }

    /// Count one context switch.
    pub fn increment_context_switches(&mut self)
        ensures
            *final(self) == (PerfMonitor {
                context_switches: old(self).context_switches.wrapping_add(1),
                ..*old(self)
            }),
    {
        self.context_switches = self.context_switches.wrapping_add(1);
    }

    /// Count one interrupt.
    pub fn increment_interrupts(&mut self)
        ensures
            *final(self) == (PerfMonitor {
                interrupts_handled: old(self).interrupts_handled.wrapping_add(1),
                ..*old(self)
            }),
    {
        self.interrupts_handled = self.interrupts_handled.wrapping_add(1);
    }

    /// Count one syscall.
    pub fn increment_syscalls(&mut self)
        ensures
            *final(self) == (PerfMonitor {
                syscalls_handled: old(self).syscalls_handled.wrapping_add(1),
                ..*old(self)
            }),
    {
        self.syscalls_handled = self.syscalls_handled.wrapping_add(1);
    }

    /// The three counters: context switches, interrupts, syscalls.
    pub fn get_stats(&self) -> (r: (usize, usize, usize))
        ensures
            r == (self.context_switches, self.interrupts_handled, self.syscalls_handled),
    {
        (self.context_switches, self.interrupts_handled, self.syscalls_handled)
    }
}

} // verus!
