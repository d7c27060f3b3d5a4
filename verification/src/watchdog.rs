//! The watchdog: a per-process budget of timer ticks that a user process may
//! hold the CPU, with a warning at half the budget and a forced kill when it
//! runs out.

use vstd::prelude::*;
use crate::scheduler::{spec_exited_rel, spec_has_pid, Scheduler};

verus! {

/// Ticks a process may spend in user mode before the watchdog kills it,
/// unless a limit of its own was set.
pub const DEFAULT_TIMEOUT_LIMIT: u64 = 30;

/// Where a watched process stands against its budget.
#[derive(Debug, Clone, Copy, PartialEq, Eq, Structural)]
pub enum TimeoutState {
    /// Within budget.
    Normal,
    /// Half the budget is spent and a warning has been issued.
    Warning,
    /// The budget ran out; the process has been killed.
    TimedOut,
}

/// The watchdog's record of one process.
#[derive(Debug, Clone, Copy, PartialEq, Eq, Structural)]
pub struct ProcessTimeout {
    /// The watched pid.
    pub pid: u64,
    /// Tick at which the current user-mode stretch began.
    pub start_time: u64,
    /// Budget in ticks.
    pub limit: u64,
    /// Where the process stands.
    pub state: TimeoutState,
    /// Whether the half-budget warning has been issued.
    pub warning_sent: bool,
}

impl ProcessTimeout {
    /// A fresh record: not started, within budget.
    pub fn new(pid: u64, limit: u64) -> (r: ProcessTimeout)
        ensures
            r == (ProcessTimeout {
                pid,
                start_time: 0,
                limit,
                state: TimeoutState::Normal,
                warning_sent: false,
            }),
    {
        ProcessTimeout { pid, start_time: 0, limit, state: TimeoutState::Normal, warning_sent: false }
    }

    /// Clear the record back to a fresh stretch.
    pub fn reset(&mut self)
        ensures
            *final(self) == (ProcessTimeout {
                start_time: 0,
                state: TimeoutState::Normal,
                warning_sent: false,
                ..*old(self)
            }),
    {
        self.start_time = 0;
        self.state = TimeoutState::Normal;
        self.warning_sent = false;
    }

    /// Begin a user-mode stretch at the given tick.
    pub fn start(&mut self, current_tick: u64)
        ensures
            *final(self) == (ProcessTimeout {
                start_time: current_tick,
                state: TimeoutState::Normal,
                warning_sent: false,
                ..*old(self)
            }),
    {
        self.start_time = current_tick;
        self.state = TimeoutState::Normal;
        self.warning_sent = false;
    }

    /// The elapsed share of the budget, saturating below zero.
    pub open spec fn spec_elapsed(self, current_tick: u64) -> int {
        if current_tick >= self.start_time {
            current_tick - self.start_time
        } else {
            0
        }
    }

    /// Advance the record against the clock: once the elapsed time reaches
    /// the budget the record is `TimedOut` and stays so; once it reaches
    /// half the budget a single `Warning` is returned and remembered;
    /// otherwise `Normal`.
    pub fn check_timeout(&mut self, current_tick: u64) -> (r: TimeoutState)
        ensures
            final(self).pid == old(self).pid,
            final(self).limit == old(self).limit,
            final(self).start_time == old(self).start_time,
            ({
                let elapsed = old(self).spec_elapsed(current_tick);
                if old(self).state is TimedOut {
                    &&& r is TimedOut
                    &&& *final(self) == *old(self)
                } else if elapsed >= old(self).limit {
                    &&& r is TimedOut
                    &&& final(self).state is TimedOut
                    &&& final(self).warning_sent == old(self).warning_sent
                } else if elapsed >= old(self).limit / 2 && !old(self).warning_sent {
                    &&& r is Warning
                    &&& final(self).state == old(self).state
                    &&& final(self).warning_sent
                } else {
                    &&& r is Normal
                    &&& *final(self) == *old(self)
                }
            }),
    {
        match self.state {
            TimeoutState::TimedOut => {
                return TimeoutState::TimedOut;
            },
            _ => {},
        }
        let elapsed = if current_tick >= self.start_time {
            current_tick - self.start_time
        } else {
            0
        };
        let warning_threshold = self.limit / 2;
        if elapsed >= self.limit {
            self.state = TimeoutState::TimedOut;
            TimeoutState::TimedOut
        } else if elapsed >= warning_threshold && !self.warning_sent {
            self.warning_sent = true;
            TimeoutState::Warning
        } else {
            TimeoutState::Normal
        }
    }
}

/// Whether some record in `s` watches `pid`.
pub open spec fn spec_has_record(s: Seq<ProcessTimeout>, pid: u64) -> bool {
    exists|i: int| 0 <= i < s.len() && (#[trigger] s[i]).pid == pid
}

/// The index of the record watching `pid` (unique under
/// `TimeoutManager::wf`).
pub open spec fn spec_index_of_record(s: Seq<ProcessTimeout>, pid: u64) -> int {
    choose|i: int| 0 <= i < s.len() && (#[trigger] s[i]).pid == pid
}

/// What one timer tick finds, as a function of the watchdog state before
/// the tick alone: while a user-mode stretch is active and its record
/// exists, a spent budget (or an already-dead record) is a timeout, half
/// the budget without a prior warning is a warning, anything else is
/// normal.
pub open spec fn spec_tick_outcome(w: TimeoutManager) -> TimeoutState {
    let tick = w.current_tick.wrapping_add(1);
    let s0 = w.processes@;
    let pid = w.current_user_pid;
    if w.user_mode_active && spec_has_record(s0, pid) {
        let rec = s0[spec_index_of_record(s0, pid)];
        let elapsed = rec.spec_elapsed(tick);
        if rec.state is TimedOut || elapsed >= rec.limit {
            TimeoutState::TimedOut
        } else if elapsed >= rec.limit / 2 && !rec.warning_sent {
            TimeoutState::Warning
        } else {
            TimeoutState::Normal
        }
    } else {
        TimeoutState::Normal
    }
}

/// The watchdog bookkeeping: one record per watched process, the global
/// tick, and whether a user process currently holds the CPU.
pub struct TimeoutManager {
    /// All watched processes.
    pub processes: Vec<ProcessTimeout>,
    /// The global tick counter, one per timer interrupt.
    pub current_tick: u64,
    /// Whether a user-mode stretch is being timed.
    pub user_mode_active: bool,
    /// The pid whose stretch is being timed.
    pub current_user_pid: u64,
}

impl TimeoutManager {
    /// At most one record per pid.
    pub open spec fn wf(self) -> bool {
        forall|i: int, j: int|
            0 <= i < j < self.processes@.len()
            ==> self.processes@[i].pid != self.processes@[j].pid
    }

    /// A fresh watchdog: nothing watched, tick zero, no user mode active.
    pub fn new() -> (r: TimeoutManager)
        ensures
            r.wf(),
            r.processes@.len() == 0,
            r.current_tick == 0,
            !r.user_mode_active,
            r.current_user_pid == 0,
    {
        TimeoutManager {
            processes: Vec::new(),
            current_tick: 0,
            user_mode_active: false,
            current_user_pid: 0,
        }
    }

    /// In a well-formed watchdog the chosen index of a pid is the index
    /// where its record stands.
    pub proof fn lemma_index_of_record(s: Seq<ProcessTimeout>, pid: u64, i: int)
        requires
            forall|a: int, b: int| 0 <= a < b < s.len() ==> s[a].pid != s[b].pid,
            0 <= i < s.len(),
            s[i].pid == pid,
        ensures
            spec_has_record(s, pid),
            spec_index_of_record(s, pid) == i,
    {
        assert(spec_has_record(s, pid));
        let j = spec_index_of_record(s, pid);
        if j < i {
            assert(s[j].pid != s[i].pid);
        }
        if i < j {
            assert(s[i].pid != s[j].pid);
        }
    }

    /// Find the position of the record watching `pid`.
    pub fn find_record(&self, pid: u64) -> (r: Option<usize>)
        ensures
            match r {
                Some(i) => i < self.processes@.len() && self.processes@[i as int].pid == pid,
                None => !spec_has_record(self.processes@, pid),
            },
    {
        let n = self.processes.len();
        let mut i: usize = 0;
        while i < n
            invariant
                i <= n,
                n == self.processes@.len(),
                forall|j: int| 0 <= j < i ==> (#[trigger] self.processes@[j]).pid != pid,
            decreases n - i,
        {
            if self.processes[i].pid == pid {
                return Some(i);
            }
            i = i + 1;
        }
        None
    }

    /// Put `pid` under watch with the given budget, or the default.  A pid
    /// already watched keeps its old record.
    pub fn register_process(&mut self, pid: u64, timeout_limit: Option<u64>)
        requires
            old(self).wf(),
        ensures
            final(self).wf(),
            final(self).current_tick == old(self).current_tick,
            final(self).user_mode_active == old(self).user_mode_active,
            final(self).current_user_pid == old(self).current_user_pid,
            ({
                let limit = match timeout_limit {
                    Some(l) => l,
                    None => DEFAULT_TIMEOUT_LIMIT,
                };
                if spec_has_record(old(self).processes@, pid) {
                    final(self).processes@ == old(self).processes@
                } else {
                    final(self).processes@ == old(self).processes@.push(ProcessTimeout {
                        pid,
                        start_time: 0,
                        limit,
                        state: TimeoutState::Normal,
                        warning_sent: false,
                    })
                }
            }),
    {
        match self.find_record(pid) {
            Some(_) => {},
            None => {
                let limit = match timeout_limit {
                    Some(l) => l,
                    None => DEFAULT_TIMEOUT_LIMIT,
                };
                self.processes.push(ProcessTimeout::new(pid, limit));
                proof {
                    assert forall|i: int, j: int| 0 <= i < j < self.processes@.len()
                        implies self.processes@[i].pid != self.processes@[j].pid by {
                        if j < old(self).processes@.len() {
                            assert(self.processes@[i] == old(self).processes@[i]);
                            assert(self.processes@[j] == old(self).processes@[j]);
                        } else {
                            assert(self.processes@[i] == old(self).processes@[i]);
                        }
                    }
                }
            },
        }
    }

    /// Stop watching `pid`.
    pub fn unregister_process(&mut self, pid: u64)
        requires
            old(self).wf(),
        ensures
            final(self).wf(),
            final(self).current_tick == old(self).current_tick,
            final(self).user_mode_active == old(self).user_mode_active,
            final(self).current_user_pid == old(self).current_user_pid,
            ({
                if spec_has_record(old(self).processes@, pid) {
                    final(self).processes@
                        == old(self).processes@.remove(spec_index_of_record(old(self).processes@, pid))
                } else {
                    final(self).processes@ == old(self).processes@
                }
            }),
    {
        let ghost s0 = self.processes@;
        match self.find_record(pid) {
            Some(i) => {
                proof {
                    Self::lemma_index_of_record(s0, pid, i as int);
                }
                self.processes.remove(i);
                proof {
                    assert forall|a: int, b: int| 0 <= a < b < self.processes@.len()
                        implies self.processes@[a].pid != self.processes@[b].pid by {
                        let oa = if a < i { a } else { a + 1 };
                        let ob = if b < i { b } else { b + 1 };
                        assert(self.processes@[a] == s0[oa]);
                        assert(self.processes@[b] == s0[ob]);
                    }
                }
            },
            None => {},
        }
    }

    /// Begin timing a user-mode stretch for `pid`: its record (created on
    /// the spot if the pid was not watched) starts at the current tick.
    pub fn start_user_mode(&mut self, pid: u64)
        requires
            old(self).wf(),
        ensures
            final(self).wf(),
            final(self).current_tick == old(self).current_tick,
            final(self).user_mode_active,
            final(self).current_user_pid == pid,
            spec_has_record(final(self).processes@, pid),
            ({
                let sf = final(self).processes@;
                let ri = spec_index_of_record(sf, pid);
                &&& sf[ri].start_time == old(self).current_tick
                &&& sf[ri].state is Normal
                &&& !sf[ri].warning_sent
                &&& sf[ri].limit == if spec_has_record(old(self).processes@, pid) {
                        old(self).processes@[spec_index_of_record(old(self).processes@, pid)].limit
                    } else {
                        DEFAULT_TIMEOUT_LIMIT
                    }
                &&& forall|j: int| 0 <= j < old(self).processes@.len() && j != spec_index_of_record(old(self).processes@, pid)
                        ==> sf[j] == old(self).processes@[j]
            }),
    {
        self.user_mode_active = true;
        self.current_user_pid = pid;
        let ghost s0 = self.processes@;
        let tick = self.current_tick;
        match self.find_record(pid) {
            Some(i) => {
                proof {
                    Self::lemma_index_of_record(s0, pid, i as int);
                }
                let mut rec = self.processes.remove(i);
                rec.start(tick);
                self.processes.insert(i, rec);
                proof {
                    assert(self.processes@ =~= s0.update(i as int, rec));
                    assert forall|a: int, b: int| 0 <= a < b < self.processes@.len()
                        implies self.processes@[a].pid != self.processes@[b].pid by {
                        assert(self.processes@[a].pid == s0[a].pid);
                        assert(self.processes@[b].pid == s0[b].pid);
                    }
                    Self::lemma_index_of_record(self.processes@, pid, i as int);
                }
            },
            None => {
                let mut rec = ProcessTimeout::new(pid, DEFAULT_TIMEOUT_LIMIT);
                rec.start(tick);
                self.processes.push(rec);
                proof {
                    assert forall|a: int, b: int| 0 <= a < b < self.processes@.len()
                        implies self.processes@[a].pid != self.processes@[b].pid by {
                        if b < s0.len() {
                            assert(self.processes@[a] == s0[a]);
                            assert(self.processes@[b] == s0[b]);
                        } else {
                            assert(self.processes@[a] == s0[a]);
                        }
                    }
                    Self::lemma_index_of_record(self.processes@, pid, s0.len() as int);
                }
            },
        }
    }

    /// Stop timing: the current stretch ends and its record is cleared.
    pub fn end_user_mode(&mut self)
        requires
            old(self).wf(),
        ensures
            final(self).wf(),
            final(self).current_tick == old(self).current_tick,
            !final(self).user_mode_active,
            final(self).current_user_pid == 0,
            ({
                let s0 = old(self).processes@;
                if spec_has_record(s0, old(self).current_user_pid) {
                    let ri = spec_index_of_record(s0, old(self).current_user_pid);
                    final(self).processes@ == s0.update(ri, ProcessTimeout {
                        start_time: 0,
                        state: TimeoutState::Normal,
                        warning_sent: false,
                        ..s0[ri]
                    })
                } else {
                    final(self).processes@ == s0
                }
            }),
    {
        self.user_mode_active = false;
        let ghost s0 = self.processes@;
        let pid = self.current_user_pid;
        match self.find_record(pid) {
            Some(i) => {
                proof {
                    Self::lemma_index_of_record(s0, pid, i as int);
                }
                let mut rec = self.processes.remove(i);
                rec.reset();
                self.processes.insert(i, rec);
                proof {
                    assert(self.processes@ =~= s0.update(i as int, rec));
                    assert forall|a: int, b: int| 0 <= a < b < self.processes@.len()
                        implies self.processes@[a].pid != self.processes@[b].pid by {
                        assert(self.processes@[a].pid == s0[a].pid);
                        assert(self.processes@[b].pid == s0[b].pid);
                    }
                }
            },
            None => {},
        }
        self.current_user_pid = 0;
    }

    /// Set (or create with) an explicit budget for `pid`.
    pub fn set_timeout_limit(&mut self, pid: u64, limit: u64)
        requires
            old(self).wf(),
        ensures
            final(self).wf(),
            final(self).current_tick == old(self).current_tick,
            final(self).user_mode_active == old(self).user_mode_active,
            final(self).current_user_pid == old(self).current_user_pid,
            ({
                let s0 = old(self).processes@;
                if spec_has_record(s0, pid) {
                    let ri = spec_index_of_record(s0, pid);
                    final(self).processes@ == s0.update(ri, ProcessTimeout { limit, ..s0[ri] })
                } else {
                    final(self).processes@ == s0.push(ProcessTimeout {
                        pid,
                        start_time: 0,
                        limit,
                        state: TimeoutState::Normal,
                        warning_sent: false,
                    })
                }
            }),
    {
        let ghost s0 = self.processes@;
        match self.find_record(pid) {
            Some(i) => {
                proof {
                    Self::lemma_index_of_record(s0, pid, i as int);
                }
                let mut rec = self.processes.remove(i);
                rec.limit = limit;
                self.processes.insert(i, rec);
                proof {
                    assert(self.processes@ =~= s0.update(i as int, rec));
                    assert forall|a: int, b: int| 0 <= a < b < self.processes@.len()
                        implies self.processes@[a].pid != self.processes@[b].pid by {
                        assert(self.processes@[a].pid == s0[a].pid);
                        assert(self.processes@[b].pid == s0[b].pid);
                    }
                }
            },
            None => {
                self.register_process(pid, Some(limit));
            },
        }
    }

    /// What the watchdog knows of `pid`: its state, the ticks elapsed in the
    /// current stretch, and its budget.
    pub fn get_status(&self, pid: u64) -> (r: Option<(TimeoutState, u64, u64)>)
        requires
            self.wf(),
        ensures
            ({
                let s = self.processes@;
                if spec_has_record(s, pid) {
                    let rec = s[spec_index_of_record(s, pid)];
                    r == Some((rec.state,
                               (rec.spec_elapsed(self.current_tick)) as u64,
                               rec.limit))
                } else {
                    r is None
                }
            }),
    {
        match self.find_record(pid) {
            Some(i) => {
                proof {
                    Self::lemma_index_of_record(self.processes@, pid, i as int);
                }
                let rec = self.processes[i];
                let elapsed = if self.current_tick >= rec.start_time {
                    self.current_tick - rec.start_time
                } else {
                    0
                };
                Some((rec.state, elapsed, rec.limit))
            },
            None => None,
        }
    }

    /// One timer tick: advance the clock and, while a user-mode stretch is
    /// active, check its budget.  A spent budget kills the process in the
    /// scheduler (Zombie, exit code -1, waiters woken) and ends the stretch;
    /// at half the budget a single warning is reported.  Returns what the
    /// check found.
    pub fn increment_tick(&mut self, sched: &mut Scheduler) -> (r: TimeoutState)
        requires
            old(self).wf(),
            old(sched).wf(),
        ensures
            final(self).wf(),
            final(sched).wf(),
            final(self).current_tick == old(self).current_tick.wrapping_add(1),
            r == spec_tick_outcome(*old(self)),
            ({
                let tick = old(self).current_tick.wrapping_add(1);
                let s0 = old(self).processes@;
                let pid = old(self).current_user_pid;
                if old(self).user_mode_active && spec_has_record(s0, pid) {
                    let ri = spec_index_of_record(s0, pid);
                    let rec = s0[ri];
                    let elapsed = rec.spec_elapsed(tick);
                    if rec.state is TimedOut || elapsed >= rec.limit {
                        &&& r is TimedOut
                        &&& !final(self).user_mode_active
                        &&& final(self).current_user_pid == 0
                        &&& final(self).processes@ == s0.update(ri, ProcessTimeout {
                                pid: rec.pid,
                                start_time: 0,
                                limit: rec.limit,
                                state: TimeoutState::Normal,
                                warning_sent: false,
                            })
                        &&& if spec_has_pid(old(sched).processes@, pid) {
                                &&& spec_exited_rel(old(sched).processes@,
                                        final(sched).processes@, pid, -1i32)
                                &&& final(sched).current == old(sched).current
                                &&& final(sched).next_pid == old(sched).next_pid
                            } else {
                                *final(sched) == *old(sched)
                            }
                    } else if elapsed >= rec.limit / 2 && !rec.warning_sent {
                        &&& r is Warning
                        &&& *final(sched) == *old(sched)
                        &&& final(self).user_mode_active
                        &&& final(self).current_user_pid == pid
                        &&& final(self).processes@ == s0.update(ri, ProcessTimeout {
                                warning_sent: true,
                                ..rec
                            })
                    } else {
                        &&& r is Normal
                        &&& *final(sched) == *old(sched)
                        &&& final(self).user_mode_active
                        &&& final(self).current_user_pid == pid
                        &&& final(self).processes@ == s0
                    }
                } else {
                    &&& r is Normal
                    &&& *final(sched) == *old(sched)
                    &&& final(self).processes@ == s0
                    &&& final(self).user_mode_active == old(self).user_mode_active
                    &&& final(self).current_user_pid == old(self).current_user_pid
                }
            }),
    {
        self.current_tick = self.current_tick.wrapping_add(1);
        if !self.user_mode_active {
            return TimeoutState::Normal;
        }
        let ghost s0 = self.processes@;
        let pid = self.current_user_pid;
        let tick = self.current_tick;
        match self.find_record(pid) {
            Some(i) => {
                proof {
                    Self::lemma_index_of_record(s0, pid, i as int);
                }
                let mut rec = self.processes.remove(i);
                let st = rec.check_timeout(tick);
                self.processes.insert(i, rec);
                proof {
                    assert(self.processes@ =~= s0.update(i as int, rec));
                    assert forall|a: int, b: int| 0 <= a < b < self.processes@.len()
                        implies self.processes@[a].pid != self.processes@[b].pid by {
                        assert(self.processes@[a].pid == s0[a].pid);
                        assert(self.processes@[b].pid == s0[b].pid);
                    }
                }
                match st {
                    TimeoutState::TimedOut => {
                        let ghost s1 = self.processes@;
                        let _found = sched.kill(pid);
                        proof {
                            Self::lemma_index_of_record(s1, pid, i as int);
                        }
                        self.end_user_mode();
                        proof {
                            assert(self.processes@ =~= s0.update(i as int, ProcessTimeout {
                                pid: s0[i as int].pid,
                                start_time: 0,
                                limit: s0[i as int].limit,
                                state: TimeoutState::Normal,
                                warning_sent: false,
                            }));
                        }
                        TimeoutState::TimedOut
                    },
                    TimeoutState::Warning => TimeoutState::Warning,
                    TimeoutState::Normal => {
                        proof {
                            assert(self.processes@ =~= s0);
                        }
                        TimeoutState::Normal
                    },
                }
            },
            None => TimeoutState::Normal,
        }
    }
}


/// One timer tick against the watchdog and scheduler; see
/// `TimeoutManager::increment_tick`.
pub fn increment_tick(manager: &mut TimeoutManager, sched: &mut Scheduler) -> (r: TimeoutState)
    requires
        old(manager).wf(),
        old(sched).wf(),
    ensures
        final(manager).wf(),
        final(sched).wf(),
        final(manager).current_tick == old(manager).current_tick.wrapping_add(1),
        r == spec_tick_outcome(*old(manager)),
        ({
            let tick = old(manager).current_tick.wrapping_add(1);
            let s0 = old(manager).processes@;
            let pid = old(manager).current_user_pid;
            if old(manager).user_mode_active && spec_has_record(s0, pid) {
                let ri = spec_index_of_record(s0, pid);
                let rec = s0[ri];
                let elapsed = rec.spec_elapsed(tick);
                if rec.state is TimedOut || elapsed >= rec.limit {
                    &&& r is TimedOut
                    &&& !final(manager).user_mode_active
                    &&& final(manager).current_user_pid == 0
                    &&& final(manager).processes@ == s0.update(ri, ProcessTimeout {
                            pid: rec.pid,
                            start_time: 0,
                            limit: rec.limit,
                            state: TimeoutState::Normal,
                            warning_sent: false,
                        })
                    &&& if crate::scheduler::spec_has_pid(old(sched).processes@, pid) {
                            &&& crate::scheduler::spec_exited_rel(old(sched).processes@,
                                    final(sched).processes@, pid, -1i32)
                            &&& final(sched).current == old(sched).current
                            &&& final(sched).next_pid == old(sched).next_pid
                        } else {
                            *final(sched) == *old(sched)
                        }
                } else if elapsed >= rec.limit / 2 && !rec.warning_sent {
                    &&& r is Warning
                    &&& *final(sched) == *old(sched)
                    &&& final(manager).user_mode_active
                    &&& final(manager).current_user_pid == pid
                    &&& final(manager).processes@ == s0.update(ri, ProcessTimeout {
                            warning_sent: true,
                            ..rec
                        })
                } else {
                    &&& r is Normal
                    &&& *final(sched) == *old(sched)
                    &&& final(manager).user_mode_active
                    &&& final(manager).current_user_pid == pid
                    &&& final(manager).processes@ == s0
                }
            } else {
                &&& r is Normal
                &&& *final(sched) == *old(sched)
                &&& final(manager).processes@ == s0
                &&& final(manager).user_mode_active == old(manager).user_mode_active
                &&& final(manager).current_user_pid == old(manager).current_user_pid
            }
        }),
{
    manager.increment_tick(sched)
}

/// One timer tick; kept beside `increment_tick` for callers of the older
/// name.
pub fn increment_timeout(manager: &mut TimeoutManager, sched: &mut Scheduler) -> (r: TimeoutState)
    requires
        old(manager).wf(),
        old(sched).wf(),
    ensures
        final(manager).wf(),
        final(sched).wf(),
        final(manager).current_tick == old(manager).current_tick.wrapping_add(1),
        r == spec_tick_outcome(*old(manager)),
        ({
            let tick = old(manager).current_tick.wrapping_add(1);
            let s0 = old(manager).processes@;
            let pid = old(manager).current_user_pid;
            if old(manager).user_mode_active && spec_has_record(s0, pid) {
                let ri = spec_index_of_record(s0, pid);
                let rec = s0[ri];
                let elapsed = rec.spec_elapsed(tick);
                if rec.state is TimedOut || elapsed >= rec.limit {
                    &&& r is TimedOut
                    &&& !final(manager).user_mode_active
                    &&& final(manager).current_user_pid == 0
                    &&& final(manager).processes@ == s0.update(ri, ProcessTimeout {
                            pid: rec.pid,
                            start_time: 0,
                            limit: rec.limit,
                            state: TimeoutState::Normal,
                            warning_sent: false,
                        })
                    &&& if crate::scheduler::spec_has_pid(old(sched).processes@, pid) {
                            &&& crate::scheduler::spec_exited_rel(old(sched).processes@,
                                    final(sched).processes@, pid, -1i32)
                            &&& final(sched).current == old(sched).current
                            &&& final(sched).next_pid == old(sched).next_pid
                        } else {
                            *final(sched) == *old(sched)
                        }
                } else if elapsed >= rec.limit / 2 && !rec.warning_sent {
                    &&& r is Warning
                    &&& *final(sched) == *old(sched)
                    &&& final(manager).user_mode_active
                    &&& final(manager).current_user_pid == pid
                    &&& final(manager).processes@ == s0.update(ri, ProcessTimeout {
                            warning_sent: true,
                            ..rec
                        })
                } else {
                    &&& r is Normal
                    &&& *final(sched) == *old(sched)
                    &&& final(manager).user_mode_active
                    &&& final(manager).current_user_pid == pid
                    &&& final(manager).processes@ == s0
                }
            } else {
                &&& r is Normal
                &&& *final(sched) == *old(sched)
                &&& final(manager).processes@ == s0
                &&& final(manager).user_mode_active == old(manager).user_mode_active
                &&& final(manager).current_user_pid == old(manager).current_user_pid
            }
        }),
{
    manager.increment_tick(sched)
}

/// Begin timing a user-mode stretch for `pid`; see
/// `TimeoutManager::start_user_mode`.
pub fn start_user_mode(manager: &mut TimeoutManager, pid: u64)
    requires
        old(manager).wf(),
    ensures
        final(manager).wf(),
        final(manager).current_tick == old(manager).current_tick,
        final(manager).user_mode_active,
        final(manager).current_user_pid == pid,
        spec_has_record(final(manager).processes@, pid),
        ({
            let sf = final(manager).processes@;
            let ri = spec_index_of_record(sf, pid);
            &&& sf[ri].start_time == old(manager).current_tick
            &&& sf[ri].state is Normal
            &&& !sf[ri].warning_sent
            &&& sf[ri].limit == if spec_has_record(old(manager).processes@, pid) {
                    old(manager).processes@[spec_index_of_record(old(manager).processes@, pid)].limit
                } else {
                    DEFAULT_TIMEOUT_LIMIT
                }
            &&& forall|j: int| 0 <= j < old(manager).processes@.len()
                    && j != spec_index_of_record(old(manager).processes@, pid)
                    ==> sf[j] == old(manager).processes@[j]
        }),
{
    manager.start_user_mode(pid);
}

/// End the current user-mode stretch; see `TimeoutManager::end_user_mode`.
pub fn end_user_mode(manager: &mut TimeoutManager)
    requires
        old(manager).wf(),
    ensures
        final(manager).wf(),
        final(manager).current_tick == old(manager).current_tick,
        !final(manager).user_mode_active,
        final(manager).current_user_pid == 0,
        ({
            let s0 = old(manager).processes@;
            if spec_has_record(s0, old(manager).current_user_pid) {
                let ri = spec_index_of_record(s0, old(manager).current_user_pid);
                final(manager).processes@ == s0.update(ri, ProcessTimeout {
                    start_time: 0,
                    state: TimeoutState::Normal,
                    warning_sent: false,
                    ..s0[ri]
                })
            } else {
                final(manager).processes@ == s0
            }
        }),
{
    manager.end_user_mode();
}

/// Put `pid` under watch; see `TimeoutManager::register_process`.
pub fn register_process(manager: &mut TimeoutManager, pid: u64, timeout_limit: Option<u64>)
    requires
        old(manager).wf(),
    ensures
        final(manager).wf(),
        ({
            let limit = match timeout_limit {
                Some(l) => l,
                None => DEFAULT_TIMEOUT_LIMIT,
            };
            if spec_has_record(old(manager).processes@, pid) {
                final(manager).processes@ == old(manager).processes@
            } else {
                final(manager).processes@ == old(manager).processes@.push(ProcessTimeout {
                    pid,
                    start_time: 0,
                    limit,
                    state: TimeoutState::Normal,
                    warning_sent: false,
                })
            }
        }),
{
    manager.register_process(pid, timeout_limit);
}

/// Stop watching `pid`; see `TimeoutManager::unregister_process`.
pub fn unregister_process(manager: &mut TimeoutManager, pid: u64)
    requires
        old(manager).wf(),
    ensures
        final(manager).wf(),
        !spec_has_record(final(manager).processes@, pid)
            || spec_has_record(old(manager).processes@, pid),
        ({
            if spec_has_record(old(manager).processes@, pid) {
                final(manager).processes@ == old(manager).processes@.remove(
                    spec_index_of_record(old(manager).processes@, pid))
            } else {
                final(manager).processes@ == old(manager).processes@
            }
        }),
{
    manager.unregister_process(pid);
}

/// Set an explicit budget for `pid`; see `TimeoutManager::set_timeout_limit`.
pub fn set_timeout_limit(manager: &mut TimeoutManager, pid: u64, limit: u64)
    requires
        old(manager).wf(),
    ensures
        final(manager).wf(),
        ({
            let s0 = old(manager).processes@;
            if spec_has_record(s0, pid) {
                let ri = spec_index_of_record(s0, pid);
                final(manager).processes@ == s0.update(ri, ProcessTimeout { limit, ..s0[ri] })
            } else {
                final(manager).processes@ == s0.push(ProcessTimeout {
                    pid,
                    start_time: 0,
                    limit,
                    state: TimeoutState::Normal,
                    warning_sent: false,
                })
            }
        }),
{
    manager.set_timeout_limit(pid, limit);
}

/// State, elapsed ticks and budget of `pid`; see `TimeoutManager::get_status`.
pub fn get_timeout_status(manager: &TimeoutManager, pid: u64) -> (r: Option<(TimeoutState, u64, u64)>)
    requires
        manager.wf(),
    ensures
        ({
            let s = manager.processes@;
            if spec_has_record(s, pid) {
                let rec = s[spec_index_of_record(s, pid)];
                r == Some((rec.state, (rec.spec_elapsed(manager.current_tick)) as u64, rec.limit))
            } else {
                r is None
            }
        }),
{
    manager.get_status(pid)
}

/// The global tick counter.
pub fn get_global_tick(manager: &TimeoutManager) -> (r: u64)
    ensures
        r == manager.current_tick,
{
    manager.current_tick
}

/// The global tick counter; kept beside `get_global_tick` for callers of
/// the older name.
pub fn get_timeout_counter(manager: &TimeoutManager) -> (r: u64)
    ensures
        r == manager.current_tick,
{
    manager.current_tick
}

/// End the current user-mode stretch; kept beside `end_user_mode` for
/// callers of the older name.
pub fn reset_timeout(manager: &mut TimeoutManager)
    requires
        old(manager).wf(),
    ensures
        final(manager).wf(),
        final(manager).current_tick == old(manager).current_tick,
        !final(manager).user_mode_active,
        final(manager).current_user_pid == 0,
        ({
            let s0 = old(manager).processes@;
            if spec_has_record(s0, old(manager).current_user_pid) {
                let ri = spec_index_of_record(s0, old(manager).current_user_pid);
                final(manager).processes@ == s0.update(ri, ProcessTimeout {
                    start_time: 0,
                    state: TimeoutState::Normal,
                    warning_sent: false,
                    ..s0[ri]
                })
            } else {
                final(manager).processes@ == s0
            }
        }),
{
    manager.end_user_mode();
}

} // verus!
