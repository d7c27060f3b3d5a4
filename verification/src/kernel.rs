//! The kernel state as one object: process table and scheduler, channel and
//! handle registries, the page-mapping model and the watchdog, with the
//! composite operations the syscall dispatcher and the timer path drive.

use vstd::prelude::*;
use crate::cpu::PerfMonitor;
use crate::error::ProcessError;
use crate::handle::HandleRegistry;
use crate::ipc::ChannelRegistry;
use crate::aspace::PageTables;
use crate::process::Process;
use crate::scheduler::{
    spec_exited_rel, spec_has_pid, spec_killed_table, spec_schedule_step, Scheduler,
};
use crate::watchdog::{
    spec_has_record, spec_index_of_record, spec_tick_outcome, ProcessTimeout, TimeoutManager,
    TimeoutState,
};

verus! {

/// Everything the kernel core owns.
pub struct Kernel {
    /// Process table and scheduler.
    pub scheduler: Scheduler,
    /// Message channels.
    pub channels: ChannelRegistry,
    /// Memory handles.
    pub handles: HandleRegistry,
    /// The page-mapping model.
    pub page_tables: PageTables,
    /// The watchdog.
    pub watchdog: TimeoutManager,
    /// Event counters.
    pub perf: PerfMonitor,
}

impl Kernel {
    /// Every component keeps its own invariant.
    pub open spec fn wf(self) -> bool {
        &&& self.scheduler.wf()
        &&& self.channels.wf()
        &&& self.handles.wf()
        &&& self.page_tables.wf()
        &&& self.watchdog.wf()
    }

    /// A fresh kernel: empty tables, tick zero.
    pub fn new() -> (k: Kernel)
        ensures
            k.wf(),
            k.scheduler.processes@.len() == 0,
            k.scheduler.next_pid == 1,
            k.channels.channels@.len() == 0,
            k.handles.handles@.len() == 0,
            k.page_tables.entries@.len() == 0,
            k.watchdog.processes@.len() == 0,
            k.watchdog.current_tick == 0,
    {
        Kernel {
            scheduler: Scheduler::new(),
            channels: ChannelRegistry::new(),
            handles: HandleRegistry::new(),
            page_tables: PageTables::new(),
            watchdog: TimeoutManager::new(),
            perf: PerfMonitor::new(),
        }
    }

    /// Full process exit: terminate in the scheduler (Zombie, code stashed,
    /// children re-parented, waiters woken), drop the channels the process
    /// was an endpoint of, drop the handles it owned or held and tear down
    /// their leftover mappings, and stop watching it.
    pub fn exit_process(&mut self, pid: u64, code: i64) -> (r: Result<(), ProcessError>)
        requires
            old(self).wf(),
        ensures
            final(self).wf(),
            final(self).scheduler.current == old(self).scheduler.current,
            final(self).scheduler.next_pid == old(self).scheduler.next_pid,
            final(self).perf == old(self).perf,
            ({
                if !(-255 <= code <= 255) {
                    &&& r == Err::<(), ProcessError>(ProcessError::InvalidState)
                    &&& final(self).scheduler == old(self).scheduler
                    &&& final(self).channels == old(self).channels
                    &&& final(self).handles == old(self).handles
                    &&& final(self).page_tables == old(self).page_tables
                    &&& final(self).watchdog == old(self).watchdog
                } else if !spec_has_pid(old(self).scheduler.processes@, pid) {
                    &&& r == Err::<(), ProcessError>(ProcessError::NotFound)
                    &&& final(self).scheduler == old(self).scheduler
                    &&& final(self).channels == old(self).channels
                    &&& final(self).handles == old(self).handles
                    &&& final(self).page_tables == old(self).page_tables
                    &&& final(self).watchdog == old(self).watchdog
                } else {
                    &&& r == Ok::<(), ProcessError>(())
                    &&& spec_exited_rel(old(self).scheduler.processes@,
                            final(self).scheduler.processes@, pid, code as i32)
                    &&& final(self).channels.channels@ == old(self).channels.channels@.filter(
                            |c: crate::ipc::Channel| !c.spec_has_endpoint(pid))
                    &&& final(self).handles.handles@ == old(self).handles.handles@.filter(
                            |h: crate::handle::MemoryHandle|
                                !(h.owner_pid == pid || h.holder_pid == pid))
                    &&& if spec_has_record(old(self).watchdog.processes@, pid) {
                            final(self).watchdog.processes@
                                == old(self).watchdog.processes@.remove(
                                    spec_index_of_record(old(self).watchdog.processes@, pid))
                        } else {
                            final(self).watchdog.processes@ == old(self).watchdog.processes@
                        }
                }
            }),
    {
        match self.scheduler.exit(pid, code) {
            Err(e) => Err(e),
            Ok(_) => {
                self.channels.cleanup_process_channels(pid);
                let dropped = self.handles.cleanup_process_handles(pid);
                let ghost ksched = self.scheduler;
                let ghost kch = self.channels;
                let ghost kh = self.handles;
                let ghost kw = self.watchdog;
                let n = dropped.len();
                let mut i: usize = 0;
                while i < n
                    invariant
                        i <= n,
                        n == dropped@.len(),
                        self.page_tables.wf(),
                        self.scheduler == ksched,
                        self.channels == kch,
                        self.handles == kh,
                        self.watchdog == kw,
                        kw.wf(),
                        self.perf == old(self).perf,
                    decreases n - i,
                {
                    let (holder, range) = dropped[i];
                    if range.is_valid() && range.size as u64 <= u64::MAX - range.start_addr {
                        let count = range.size / 4096;
                        proof {
                            assert(count * 4096 == range.size);
                        }
                        let _ = self.page_tables.unmap_memory(holder, range.start_addr, count);
                    }
                    i = i + 1;
                }
                self.watchdog.unregister_process(pid);
                Ok(())
            },
        }
    }

    /// The timer interrupt's work: count the tick against the watchdog (a
    /// spent budget kills the running process and wakes its waiters), then
    /// run the scheduler on the outgoing saved frame.  Returns the frame of
    /// the process to resume and what the watchdog found, which is a pure
    /// function of the watchdog state before the tick.  While no budget
    /// runs out the step is exactly one context switch on the old table;
    /// on a timeout the forced kill lands between the watchdog check and
    /// that switch.
    pub fn timer_tick(&mut self, current_context_ptr: u64) -> (r: (u64, TimeoutState))
        requires
            old(self).wf(),
        ensures
            final(self).wf(),
            final(self).channels == old(self).channels,
            final(self).handles == old(self).handles,
            final(self).page_tables == old(self).page_tables,
            final(self).perf.context_switches
                == old(self).perf.context_switches.wrapping_add(1),
            r.1 == spec_tick_outcome(old(self).watchdog),
            final(self).watchdog.current_tick
                == old(self).watchdog.current_tick.wrapping_add(1),
            ({
                let w0 = old(self).watchdog;
                let s0 = w0.processes@;
                let pid = w0.current_user_pid;
                match spec_tick_outcome(w0) {
                    TimeoutState::Normal => {
                        &&& final(self).watchdog.processes@ == s0
                        &&& final(self).watchdog.user_mode_active == w0.user_mode_active
                        &&& final(self).watchdog.current_user_pid == pid
                    },
                    TimeoutState::Warning => ({
                        let ri = spec_index_of_record(s0, pid);
                        &&& final(self).watchdog.processes@ == s0.update(ri, ProcessTimeout {
                                warning_sent: true,
                                ..s0[ri]
                            })
                        &&& final(self).watchdog.user_mode_active
                        &&& final(self).watchdog.current_user_pid == pid
                    }),
                    TimeoutState::TimedOut => ({
                        let ri = spec_index_of_record(s0, pid);
                        let rec = s0[ri];
                        &&& final(self).watchdog.processes@ == s0.update(ri, ProcessTimeout {
                                pid: rec.pid,
                                start_time: 0,
                                limit: rec.limit,
                                state: TimeoutState::Normal,
                                warning_sent: false,
                            })
                        &&& !final(self).watchdog.user_mode_active
                        &&& final(self).watchdog.current_user_pid == 0
                    }),
                }
            }),
            ({
                let pid = old(self).watchdog.current_user_pid;
                if spec_tick_outcome(old(self).watchdog) is TimedOut {
                    exists|mid: Seq<Process>|
                        {
                            &&& #[trigger] spec_killed_table(old(self).scheduler.processes@,
                                    mid, pid)
                            &&& spec_schedule_step(mid, old(self).scheduler.current,
                                    current_context_ptr, final(self).scheduler.processes@,
                                    final(self).scheduler.current, r.0)
                        }
                } else {
                    spec_schedule_step(old(self).scheduler.processes@,
                        old(self).scheduler.current, current_context_ptr,
                        final(self).scheduler.processes@, final(self).scheduler.current, r.0)
                }
            }),
    {
        let st = self.watchdog.increment_tick(&mut self.scheduler);
        let ghost mid = self.scheduler.processes@;
        proof {
            if st is TimedOut {
                assert(spec_killed_table(old(self).scheduler.processes@, mid,
                    old(self).watchdog.current_user_pid));
            } else {
                assert(self.scheduler == old(self).scheduler);
            }
        }
        let next = self.scheduler.schedule(current_context_ptr);
        self.perf.increment_context_switches();
        (next, st)
    }
}

} // verus!
