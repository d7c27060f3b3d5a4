//! Process table and scheduler: a single queue scanned priority-first, with
//! round-robin rotation inside a priority class, and the fork / exit / wait
//! lifecycle.

use vstd::prelude::*;
use crate::process::{Context, Process, ProcessState, ProcessStats, WaitReason, PID_ANY};
use crate::error::ProcessError;

verus! {

/// Upper bound the scheduler keeps on pids so that a pid always fits in the
/// non-negative range of a 64-bit syscall return value.
pub const MAX_PID: u64 = 0x7FFF_FFFF_FFFF_FFFF;

/// The process table and ready queue.  The vector order is the round-robin
/// order: selection takes the first Ready process of the best (numerically
/// least) priority, and a preempted process moves to the back.
pub struct Scheduler {
    /// All process control blocks, Zombies included until they are reaped.
    pub processes: Vec<Process>,
    /// Pid of the process dispatched last; the Running process, if any.
    pub current: u64,
    /// Next pid to allocate; pids are monotonic and start at 1.
    pub next_pid: u64,
}

/// Whether some entry of `s` carries pid `pid`.
pub open spec fn spec_has_pid(s: Seq<Process>, pid: u64) -> bool {
    exists|i: int| 0 <= i < s.len() && (#[trigger] s[i]).id == pid
}

/// The index of the entry carrying pid `pid` (meaningful only when
/// `spec_has_pid` holds; unique under `Scheduler::wf`).
pub open spec fn spec_index_of_pid(s: Seq<Process>, pid: u64) -> int {
    choose|i: int| 0 <= i < s.len() && (#[trigger] s[i]).id == pid
}

/// A preempted process as it re-enters the queue: the address of its saved
/// frame is stamped into the block and its state drops back to Ready.
pub open spec fn spec_stamped(p: Process, ctx: u64) -> Process {
    Process { context_ptr: ctx, state: ProcessState::Ready, ..p }
}

/// The queue after the bookkeeping on the outgoing process: if a Running
/// process exists it is stamped and moved to the back, otherwise the queue is
/// unchanged.
pub open spec fn spec_rotated(s: Seq<Process>, current: u64, ctx: u64) -> Seq<Process> {
    if exists|c: int| 0 <= c < s.len() && (#[trigger] s[c]).state is Running {
        let c = choose|c: int| 0 <= c < s.len() && (#[trigger] s[c]).state is Running;
        s.remove(c).push(spec_stamped(s[c], ctx))
    } else {
        s
    }
}

/// `p1` agrees with `p0` on every field outside the children list and its
/// counter.
pub open spec fn spec_same_except_children(p0: Process, p1: Process) -> bool {
    &&& p1.id == p0.id
    &&& p1.context_ptr == p0.context_ptr
    &&& p1.context == p0.context
    &&& p1.page_table_frame == p0.page_table_frame
    &&& p1.state == p0.state
    &&& p1.parent_id == p0.parent_id
    &&& p1.exit_code == p0.exit_code
    &&& p1.priority == p0.priority
    &&& p1.process_group_id == p0.process_group_id
    &&& p1.session_id == p0.session_id
    &&& p1.limits == p0.limits
    &&& p1.creation_time == p0.creation_time
    &&& p1.stats.cpu_time_used == p0.stats.cpu_time_used
    &&& p1.stats.memory_used == p0.stats.memory_used
    &&& p1.stats.files_opened == p0.stats.files_opened
}

/// The parent after a fork: the child pid appended to its children, the
/// children counter up by one, everything else untouched.
pub open spec fn spec_forked_parent(p0: Process, p1: Process, child: u64) -> bool {
    &&& spec_same_except_children(p0, p1)
    &&& p1.children@ == p0.children@.push(child)
    &&& p1.stats.children_count == p0.stats.children_count + 1
}

/// The parent after reaping the child at position `k` of its children list.
pub open spec fn spec_reaped_parent(p0: Process, p1: Process, k: int) -> bool {
    &&& spec_same_except_children(p0, p1)
    &&& 0 <= k < p0.children@.len()
    &&& p1.children@ == p0.children@.remove(k)
    &&& p1.stats.children_count == p0.stats.children_count - 1
}

/// How one table entry changes when process `pid` exits with `code`: the
/// exiting entry becomes a Zombie with the code stashed and its children list
/// cleared; every other entry is re-parented to init if its parent was `pid`,
/// and woken if it was waiting for `pid` (or for any child).
pub open spec fn spec_exit_update(p0: Process, p1: Process, pid: u64, code: i32) -> bool {
    if p0.id == pid {
        &&& spec_same_except_children(Process {
                state: ProcessState::Zombie,
                exit_code: code,
                ..p0
            }, p1)
        &&& p1.children@ =~= Seq::<u64>::empty()
        &&& p1.stats.children_count == 0
    } else {
        p1 == Process {
            parent_id: if p0.parent_id == pid { 0u64 } else { p0.parent_id },
            state: if spec_waits_for(p0, pid) { ProcessState::Ready } else { p0.state },
            ..p0
        }
    }
}

/// Whether `p` is blocked waiting for child `pid` (directly or as any child).
pub open spec fn spec_waits_for(p: Process, pid: u64) -> bool {
    p.state matches ProcessState::Waiting(r)
        && r matches WaitReason::Child(t)
        && (t == pid || t == PID_ANY)
}

/// The whole table after process `pid` exits with `code`.
pub open spec fn spec_exited_rel(s0: Seq<Process>, s1: Seq<Process>, pid: u64, code: i32) -> bool {
    &&& s1.len() == s0.len()
    &&& forall|i: int| 0 <= i < s0.len() ==> spec_exit_update(#[trigger] s0[i], s1[i], pid, code)
}

/// The child a fork creates, as a function of its parent: a fresh Ready
/// process that inherits priority, limits, process group and session, whose
/// saved context is the parent's with `rax` zeroed, and whose own bookkeeping
/// starts empty.
pub open spec fn spec_forked_child(parent: Process, c: Process, child: u64) -> bool {
    &&& c.id == child
    &&& c.parent_id == parent.id
    &&& c.state is Ready
    &&& c.priority == parent.priority
    &&& c.limits == parent.limits
    &&& c.process_group_id == parent.process_group_id
    &&& c.session_id == parent.session_id
    &&& c.context == Context { rax: 0, ..parent.context }
    &&& c.context_ptr == parent.context_ptr
    &&& c.page_table_frame == parent.page_table_frame
    &&& c.children@ =~= Seq::<u64>::empty()
    &&& c.stats == (ProcessStats { cpu_time_used: 0, memory_used: 0, children_count: 0, files_opened: 0 })
    &&& c.exit_code == 0
    &&& c.creation_time == 0
}

/// Position `m` of the children list `ch` names a child that `wait` can reap:
/// not the caller itself, matching the requested target, and a Zombie in the
/// table.
pub open spec fn spec_wait_match(s: Seq<Process>, ch: Seq<u64>, m: int, caller: u64, target: u64) -> bool {
    &&& 0 <= m < ch.len()
    &&& ch[m] != caller
    &&& (target == PID_ANY || ch[m] == target)
    &&& spec_has_pid(s, ch[m])
    &&& s[spec_index_of_pid(s, ch[m])].state is Zombie
}

/// Whether any entry of `s` is Ready.
pub open spec fn spec_has_ready(s: Seq<Process>) -> bool {
    exists|i: int| 0 <= i < s.len() && (#[trigger] s[i]).state is Ready
}

/// One context-switch step from table `s0` with current pid `cur0` and the
/// outgoing frame `ctx`: the Running entry is stamped and rotated to the
/// back, the selected Ready entry becomes Running, and its frame is
/// returned; with nothing runnable the rotated table stands and the same
/// frame comes back.  `s1`, `cur1` and `r` are the table, current pid and
/// returned frame afterwards.
pub open spec fn spec_schedule_step(
    s0: Seq<Process>,
    cur0: u64,
    ctx: u64,
    s1: Seq<Process>,
    cur1: u64,
    r: u64,
) -> bool {
    let rotated = spec_rotated(s0, cur0, ctx);
    if spec_has_ready(rotated) {
        exists|i: int|
            {
                &&& #[trigger] spec_selected(rotated, i)
                &&& s1 == rotated.update(i, Process { state: ProcessState::Running, ..rotated[i] })
                &&& cur1 == rotated[i].id
                &&& r == rotated[i].context_ptr
            }
    } else {
        &&& s1 == rotated
        &&& cur1 == cur0
        &&& r == ctx
    }
}

/// The table after the watchdog kills `pid`: the forced-exit relation with
/// code -1 when the pid is present, the same table when it is not.
pub open spec fn spec_killed_table(s0: Seq<Process>, s1: Seq<Process>, pid: u64) -> bool {
    if spec_has_pid(s0, pid) {
        spec_exited_rel(s0, s1, pid, -1i32)
    } else {
        s1 == s0
    }
}

/// `i` is the index the scheduler selects from `s`: the first Ready entry of
/// the numerically least priority among all Ready entries.
pub open spec fn spec_selected(s: Seq<Process>, i: int) -> bool {
    &&& 0 <= i < s.len()
    &&& s[i].state is Ready
    &&& forall|j: int| 0 <= j < s.len() && (#[trigger] s[j]).state is Ready
            ==> s[i].priority <= s[j].priority
    &&& forall|j: int| 0 <= j < i && (#[trigger] s[j]).state is Ready
            ==> s[i].priority < s[j].priority
}

impl Scheduler {
    /// Well-formedness of the whole table: every block is well formed, pids
    /// are unique, below `next_pid` and within the pid bound, and only the
    /// current process can be Running.
    pub open spec fn wf(self) -> bool {
        &&& forall|i: int| 0 <= i < self.processes@.len()
                ==> (#[trigger] self.processes@[i]).wf()
        &&& forall|i: int, j: int|
                0 <= i < j < self.processes@.len()
                ==> self.processes@[i].id != self.processes@[j].id
        &&& forall|i: int| 0 <= i < self.processes@.len()
                ==> (#[trigger] self.processes@[i]).id < self.next_pid
        &&& forall|i: int| 0 <= i < self.processes@.len()
                ==> ((#[trigger] self.processes@[i]).state is Running
                     ==> self.processes@[i].id == self.current)
        &&& 1 <= self.next_pid <= MAX_PID
        &&& self.current <= MAX_PID
    }

    /// An empty table: nothing runs, the first pid to allocate is 1.
    pub fn new() -> (s: Scheduler)
        ensures
            s.wf(),
            s.processes@.len() == 0,
            s.current == 0,
            s.next_pid == 1,
    {
        Scheduler { processes: Vec::new(), current: 0, next_pid: 1 }
    }

    /// Find the position of a pid in the table.
    pub fn find_index(&self, pid: u64) -> (r: Option<usize>)
        ensures
            match r {
                Some(i) => i < self.processes@.len() && self.processes@[i as int].id == pid,
                None => !spec_has_pid(self.processes@, pid),
            },
    {
        let n = self.processes.len();
        let mut i: usize = 0;
        while i < n
            invariant
                i <= n,
                n == self.processes@.len(),
                forall|j: int| 0 <= j < i ==> (#[trigger] self.processes@[j]).id != pid,
            decreases n - i,
        {
            if self.processes[i].id == pid {
                return Some(i);
            }
            i = i + 1;
        }
        None
    }

    /// Admit a pre-built process into the table in the Ready state.  The pid
    /// must be fresh; `next_pid` moves past it so later allocations stay
    /// unique.
    pub fn add_process(&mut self, process: Process)
        requires
            old(self).wf(),
            process.wf(),
            process.state is Ready,
            process.id < MAX_PID,
            !spec_has_pid(old(self).processes@, process.id),
        ensures
            final(self).wf(),
            final(self).processes@ == old(self).processes@.push(process),
            final(self).current == old(self).current,
            final(self).next_pid == if process.id >= old(self).next_pid {
                (process.id + 1) as u64
            } else {
                old(self).next_pid
            },
    {
        if process.id >= self.next_pid {
            self.next_pid = process.id + 1;
        }
        self.processes.push(process);
    }

    /// At most one entry is Running: two Running indices coincide.
    pub proof fn lemma_running_unique(self, i: int, j: int)
        requires
            self.wf(),
            0 <= i < self.processes@.len(),
            0 <= j < self.processes@.len(),
            self.processes@[i].state is Running,
            self.processes@[j].state is Running,
        ensures
            i == j,
    {
        if i != j {
            assert(self.processes@[i].id == self.current);
            assert(self.processes@[j].id == self.current);
            if i < j {
                assert(self.processes@[i].id != self.processes@[j].id);
            } else {
                assert(self.processes@[j].id != self.processes@[i].id);
            }
        }
    }

    /// Law: a Running process is the scheduler's current process.  Whatever
    /// entry of the table is Running carries the pid in `current`.
    pub proof fn lemma_running_is_current(self, i: int)
        requires
            self.wf(),
            0 <= i < self.processes@.len(),
            self.processes@[i].state is Running,
        ensures
            self.processes@[i].id == self.current,
    {
    }

    /// Law: a process that exits stays in the table as a Zombie, with its
    /// code stashed, until its parent reaps it; the reaping itself
    /// (`wait`) removes exactly that one entry.
    pub proof fn lemma_zombie_stays_until_reaped(
        s0: Seq<Process>,
        s1: Seq<Process>,
        pid: u64,
        code: i32,
        i: int,
    )
        requires
            spec_exited_rel(s0, s1, pid, code),
            0 <= i < s0.len(),
            s0[i].id == pid,
        ensures
            s1.len() == s0.len(),
            s1[i].id == pid,
            s1[i].state is Zombie,
            s1[i].exit_code == code,
    {
        assert(spec_exit_update(s0[i], s1[i], pid, code));
    }

    /// Law: the children counter of every process equals the length of its
    /// children list.
    pub proof fn lemma_children_count_matches(self, i: int)
        requires
            self.wf(),
            0 <= i < self.processes@.len(),
        ensures
            self.processes@[i].stats.children_count == self.processes@[i].children@.len(),
    {
    }

    /// The selected index is unique.
    pub proof fn lemma_selected_unique(s: Seq<Process>, i: int, j: int)
        requires
            spec_selected(s, i),
            spec_selected(s, j),
        ensures
            i == j,
    {
        if i < j {
            assert(s[j].priority < s[i].priority);
            assert(s[i].priority <= s[j].priority);
        }
        if j < i {
            assert(s[i].priority < s[j].priority);
            assert(s[j].priority <= s[i].priority);
        }
    }

    /// Context switch bookkeeping, called from the timer path or from the
    /// yield syscall with the address of the outgoing saved frame.  The
    /// outgoing Running process is stamped with that address and moved to the
    /// back in the Ready state; the first Ready process of the best priority
    /// becomes Running and its saved frame address is returned.  With no
    /// runnable process the same frame address comes back and the table is
    /// left rotated only.
    pub fn schedule(&mut self, current_context_ptr: u64) -> (r: u64)
        requires
            old(self).wf(),
        ensures
            final(self).wf(),
            final(self).next_pid == old(self).next_pid,
            spec_schedule_step(old(self).processes@, old(self).current, current_context_ptr,
                final(self).processes@, final(self).current, r),
    {
        let ghost s0 = self.processes@;
        // Stamp and rotate the outgoing Running process, if there is one.
        let n = self.processes.len();
        let mut cur_idx: Option<usize> = None;
        let mut i: usize = 0;
        while i < n
            invariant
                i <= n,
                n == self.processes@.len(),
                self.processes@ == s0,
                match cur_idx {
                    Some(c) => c < i && s0[c as int].state is Running,
                    None => forall|j: int| 0 <= j < i ==> !((#[trigger] s0[j]).state is Running),
                },
            decreases n - i,
        {
            if cur_idx.is_none() {
                match self.processes[i].state {
                    ProcessState::Running => { cur_idx = Some(i); }
                    _ => {}
                }
            }
            i = i + 1;
        }
        match cur_idx {
            Some(c) => {
                let mut outgoing = self.processes.remove(c);
                outgoing.context_ptr = current_context_ptr;
                outgoing.state = ProcessState::Ready;
                self.processes.push(outgoing);
                proof {
                    let cc = choose|cc: int| 0 <= cc < s0.len() && (#[trigger] s0[cc]).state is Running;
                    Self::lemma_running_unique_seq(s0, old(self).current, old(self).next_pid, cc, c as int);
                    assert(self.processes@ == spec_rotated(s0, old(self).current, current_context_ptr));
                }
            }
            None => {
                proof {
                    assert(self.processes@ == spec_rotated(s0, old(self).current, current_context_ptr));
                }
            }
        }
        let ghost rotated = self.processes@;
        proof {
            self.lemma_rotated_wf_helper(old(self), current_context_ptr, rotated);
        }

        // Select the first Ready entry of the least priority.
        let n2 = self.processes.len();
        let mut best: Option<usize> = None;
        let mut k: usize = 0;
        while k < n2
            invariant
                k <= n2,
                n2 == self.processes@.len(),
                self.processes@ == rotated,
                match best {
                    Some(b) => {
                        &&& b < k
                        &&& rotated[b as int].state is Ready
                        &&& forall|j: int| 0 <= j < k && (#[trigger] rotated[j]).state is Ready
                                ==> rotated[b as int].priority <= rotated[j].priority
                        &&& forall|j: int| 0 <= j < b && (#[trigger] rotated[j]).state is Ready
                                ==> rotated[b as int].priority < rotated[j].priority
                    },
                    None => forall|j: int| 0 <= j < k ==> !((#[trigger] rotated[j]).state is Ready),
                },
            decreases n2 - k,
        {
            let is_ready = match self.processes[k].state {
                ProcessState::Ready => true,
                _ => false,
            };
            if is_ready {
                match best {
                    Some(b) => {
                        if self.processes[k].priority < self.processes[b].priority {
                            best = Some(k);
                        }
                    }
                    None => { best = Some(k); }
                }
            }
            k = k + 1;
        }

        match best {
            Some(b) => {
                let mut chosen = self.processes.remove(b);
                chosen.state = ProcessState::Running;
                let pid = chosen.id;
                let r = chosen.context_ptr;
                self.processes.insert(b, chosen);
                self.current = pid;
                proof {
                    assert(spec_selected(rotated, b as int));
                    assert(self.processes@ =~= rotated.update(b as int,
                        Process { state: ProcessState::Running, ..rotated[b as int] }));
                    assert(r == rotated[b as int].context_ptr);
                }
                r
            }
            None => {
                proof {
                    assert(!spec_has_ready(rotated));
                }
                current_context_ptr
            }
        }
    }

    /// In a table satisfying the scheduler invariants, the Running entry is
    /// unique (sequence-level form used while `self` is mid-update).
    proof fn lemma_running_unique_seq(s: Seq<Process>, current: u64, next_pid: u64, i: int, j: int)
        requires
            forall|a: int, b: int| 0 <= a < b < s.len() ==> s[a].id != s[b].id,
            forall|a: int| 0 <= a < s.len()
                ==> ((#[trigger] s[a]).state is Running ==> s[a].id == current),
            0 <= i < s.len(),
            0 <= j < s.len(),
            s[i].state is Running,
            s[j].state is Running,
        ensures
            i == j,
    {
        if i < j {
            assert(s[i].id != s[j].id);
        }
        if j < i {
            assert(s[j].id != s[i].id);
        }
    }

    /// The rotated queue keeps every scheduler invariant except that nothing
    /// in it is Running.
    proof fn lemma_rotated_wf_helper(&self, prev: &Scheduler, ctx: u64, rotated: Seq<Process>)
        requires
            prev.wf(),
            rotated == spec_rotated(prev.processes@, prev.current, ctx),
            self.processes@ == rotated,
            self.current == prev.current,
            self.next_pid == prev.next_pid,
        ensures
            self.wf(),
            rotated.len() == prev.processes@.len(),
            forall|i: int| 0 <= i < rotated.len() ==> !((#[trigger] rotated[i]).state is Running),
    {
        let s = prev.processes@;
        if exists|c: int| 0 <= c < s.len() && (#[trigger] s[c]).state is Running {
            let c = choose|c: int| 0 <= c < s.len() && (#[trigger] s[c]).state is Running;
            assert forall|i: int| 0 <= i < rotated.len()
                implies !((#[trigger] rotated[i]).state is Running) by {
                if i < rotated.len() - 1 {
                    let oi = if i < c { i } else { i + 1 };
                    assert(rotated[i] == s[oi]);
                    if s[oi].state is Running {
                        Self::lemma_running_unique_seq(s, prev.current, prev.next_pid, oi, c);
                    }
                }
            }
            assert forall|i: int, j: int| 0 <= i < j < rotated.len()
                implies rotated[i].id != rotated[j].id by {
                let oi = if i < c { i } else { i + 1 };
                if j < rotated.len() - 1 {
                    let oj = if j < c { j } else { j + 1 };
                    assert(rotated[i] == s[oi]);
                    assert(rotated[j] == s[oj]);
                } else {
                    assert(rotated[i] == s[oi]);
                    assert(rotated[j].id == s[c].id);
                }
            }
            assert forall|i: int| 0 <= i < rotated.len()
                implies (#[trigger] rotated[i]).wf() && rotated[i].id < prev.next_pid by {
                if i < rotated.len() - 1 {
                    let oi = if i < c { i } else { i + 1 };
                    assert(rotated[i] == s[oi]);
                } else {
                    assert(rotated[i] == spec_stamped(s[c], ctx));
                }
            }
        } else {
            assert(rotated == s);
            assert forall|i: int| 0 <= i < rotated.len()
                implies !((#[trigger] rotated[i]).state is Running) by {
            }
        }
    }

    /// In a table with unique pids, the chosen index of a pid is the index
    /// where it stands.
    pub proof fn lemma_index_of_pid(s: Seq<Process>, pid: u64, i: int)
        requires
            forall|a: int, b: int| 0 <= a < b < s.len() ==> s[a].id != s[b].id,
            0 <= i < s.len(),
            s[i].id == pid,
        ensures
            spec_has_pid(s, pid),
            spec_index_of_pid(s, pid) == i,
    {
        assert(spec_has_pid(s, pid));
        let j = spec_index_of_pid(s, pid);
        if j < i {
            assert(s[j].id != s[i].id);
        }
        if i < j {
            assert(s[i].id != s[j].id);
        }
    }

    /// Fork: allocate a fresh pid, duplicate the parent's block with the
    /// child conventions of `spec_forked_child`, append the child pid to the
    /// parent's children, and enqueue the child Ready.  Succeeds exactly when
    /// the parent exists and the pid space is not exhausted.
    #[verifier::rlimit(100)]
    #[verifier::spinoff_prover]
    pub fn fork(&mut self, parent_pid: u64) -> (r: Result<u64, ProcessError>)
        requires
            old(self).wf(),
        ensures
            final(self).wf(),
            final(self).current == old(self).current,
            ({
                let s0 = old(self).processes@;
                match r {
                    Ok(child) => {
                        &&& spec_has_pid(s0, parent_pid)
                        &&& old(self).next_pid < MAX_PID
                        &&& child == old(self).next_pid
                        &&& child != parent_pid
                        &&& final(self).next_pid == old(self).next_pid + 1
                        &&& ({
                            let pi = spec_index_of_pid(s0, parent_pid);
                            let parent = s0[pi];
                            exists|w: Process, c: Process|
                                {
                                    &&& #[trigger] spec_forked_parent(parent, w, child)
                                    &&& #[trigger] spec_forked_child(parent, c, child)
                                    &&& final(self).processes@ == s0.update(pi, w).push(c)
                                }
                        })
                    },
                    Err(e) => {
                        &&& *final(self) == *old(self)
                        &&& (e == ProcessError::NotFound <==> !spec_has_pid(s0, parent_pid))
                        &&& (e == ProcessError::InvalidPid
                             ==> spec_has_pid(s0, parent_pid) && old(self).next_pid >= MAX_PID)
                        &&& (e == ProcessError::NotFound || e == ProcessError::InvalidPid)
                    },
                }
            }),
    {
        let ghost s0 = self.processes@;
        let pi = match self.find_index(parent_pid) {
            None => {
                return Err(ProcessError::NotFound);
            },
            Some(x) => x,
        };
        if self.next_pid >= MAX_PID {
            proof {
                Self::lemma_index_of_pid(s0, parent_pid, pi as int);
            }
            return Err(ProcessError::InvalidPid);
        }
        proof {
            Self::lemma_index_of_pid(s0, parent_pid, pi as int);
        }
        let child_pid = self.next_pid;
        self.next_pid = self.next_pid + 1;

        let mut parent = self.processes.remove(pi);
        let ghost parent0 = s0[pi as int];
        parent.children.push(child_pid);
        let l = parent.children.len();
        assert(parent.stats.children_count == l - 1);
        parent.stats.children_count = parent.stats.children_count + 1;

        let mut child_context = parent.context;
        child_context.rax = 0;
        let child = Process {
            id: child_pid,
            context_ptr: parent.context_ptr,
            context: child_context,
            page_table_frame: parent.page_table_frame,
            state: ProcessState::Ready,
            parent_id: parent.id,
            children: Vec::new(),
            exit_code: 0,
            priority: parent.priority,
            process_group_id: parent.process_group_id,
            session_id: parent.session_id,
            limits: parent.limits,
            stats: ProcessStats { cpu_time_used: 0, memory_used: 0, children_count: 0, files_opened: 0 },
            creation_time: 0,
        };
        let ghost w = parent;
        let ghost c = child;
        self.processes.insert(pi, parent);
        proof {
            assert(self.processes@ =~= s0.update(pi as int, w));
        }
        self.processes.push(child);
        proof {
            assert(self.processes@ == s0.update(pi as int, w).push(c));
            assert(spec_forked_parent(parent0, w, child_pid));
            assert(spec_forked_child(parent0, c, child_pid));
            let sf = self.processes@;
            assert forall|i: int| 0 <= i < sf.len() implies (#[trigger] sf[i]).wf() by {
                if i < s0.len() && i != pi {
                    assert(sf[i] == s0[i]);
                }
            }
            assert forall|i: int, j: int| 0 <= i < j < sf.len()
                implies sf[i].id != sf[j].id by {
                if j < s0.len() {
                    let ii = if i == pi { pi as int } else { i };
                    assert(sf[i].id == s0[i].id);
                    assert(sf[j].id == s0[j].id);
                } else {
                    assert(sf[j].id == child_pid);
                    assert(sf[i].id == s0[i].id);
                    assert(s0[i].id < old(self).next_pid);
                }
            }
            assert forall|i: int| 0 <= i < sf.len()
                implies (#[trigger] sf[i]).id < self.next_pid by {
                if i < s0.len() {
                    assert(sf[i].id == s0[i].id);
                }
            }
            assert forall|i: int| 0 <= i < sf.len()
                implies ((#[trigger] sf[i]).state is Running ==> sf[i].id == self.current) by {
                if i < s0.len() {
                    assert(sf[i].state == s0[i].state);
                    assert(sf[i].id == s0[i].id);
                }
            }
            assert(s0[pi as int].id == parent_pid);
            assert(parent_pid < old(self).next_pid);
        }
        Ok(child_pid)
    }

    /// Mark `pid` a Zombie with `code` stashed, clear its children list,
    /// re-parent its children to init, and wake every process waiting for it
    /// (or for any child).  Returns whether the pid was found; on a miss the
    /// table is untouched.
    fn terminate(&mut self, pid: u64, code: i32) -> (found: bool)
        requires
            old(self).wf(),
        ensures
            final(self).wf(),
            final(self).current == old(self).current,
            final(self).next_pid == old(self).next_pid,
            found == spec_has_pid(old(self).processes@, pid),
            if found {
                spec_exited_rel(old(self).processes@, final(self).processes@, pid, code)
            } else {
                *final(self) == *old(self)
            },
    {
        let ghost s0 = self.processes@;
        match self.find_index(pid) {
            None => {
                return false;
            },
            Some(ix) => {
                proof {
                    Self::lemma_index_of_pid(s0, pid, ix as int);
                }
            },
        }
        let n = self.processes.len();
        let mut i: usize = 0;
        while i < n
            invariant
                i <= n,
                n == self.processes@.len(),
                self.processes@.len() == s0.len(),
                self.current == old(self).current,
                self.next_pid == old(self).next_pid,
                forall|j: int| 0 <= j < i ==> spec_exit_update(#[trigger] s0[j], self.processes@[j], pid, code),
                forall|j: int| i <= j < s0.len() ==> self.processes@[j] == #[trigger] s0[j],
            decreases n - i,
        {
            let mut p = self.processes.remove(i);
            if p.id == pid {
                p.state = ProcessState::Zombie;
                p.exit_code = code;
                p.children = Vec::new();
                p.stats.children_count = 0;
            } else {
                if p.parent_id == pid {
                    p.parent_id = 0;
                }
                let wake = match p.state {
                    ProcessState::Waiting(WaitReason::Child(t)) => t == pid || t == PID_ANY,
                    _ => false,
                };
                if wake {
                    p.state = ProcessState::Ready;
                }
            }
            self.processes.insert(i, p);
            proof {
                assert(self.processes@ =~= self.processes@);
                assert(spec_exit_update(s0[i as int], self.processes@[i as int], pid, code));
            }
            i = i + 1;
        }
        proof {
            let sf = self.processes@;
            assert forall|a: int| 0 <= a < sf.len() implies (#[trigger] sf[a]).wf() by {
                assert(spec_exit_update(s0[a], sf[a], pid, code));
            }
            assert forall|a: int, b: int| 0 <= a < b < sf.len()
                implies sf[a].id != sf[b].id by {
                assert(spec_exit_update(s0[a], sf[a], pid, code));
                assert(spec_exit_update(s0[b], sf[b], pid, code));
            }
            assert forall|a: int| 0 <= a < sf.len()
                implies (#[trigger] sf[a]).id < self.next_pid by {
                assert(spec_exit_update(s0[a], sf[a], pid, code));
            }
            assert forall|a: int| 0 <= a < sf.len()
                implies ((#[trigger] sf[a]).state is Running ==> sf[a].id == self.current) by {
                assert(spec_exit_update(s0[a], sf[a], pid, code));
            }
        }
        true
    }

    /// The exit syscall's core: validate the exit code, then terminate the
    /// caller.  The Zombie stays in the table until its parent reaps it.
    pub fn exit(&mut self, pid: u64, code: i64) -> (r: Result<(), ProcessError>)
        requires
            old(self).wf(),
        ensures
            final(self).wf(),
            final(self).current == old(self).current,
            final(self).next_pid == old(self).next_pid,
            ({
                if !(-255 <= code <= 255) {
                    &&& r == Err::<(), ProcessError>(ProcessError::InvalidState)
                    &&& *final(self) == *old(self)
                } else if !spec_has_pid(old(self).processes@, pid) {
                    &&& r == Err::<(), ProcessError>(ProcessError::NotFound)
                    &&& *final(self) == *old(self)
                } else {
                    &&& r == Ok::<(), ProcessError>(())
                    &&& spec_exited_rel(old(self).processes@, final(self).processes@, pid, code as i32)
                }
            }),
    {
        if code < -255 || code > 255 {
            return Err(ProcessError::InvalidState);
        }
        if self.terminate(pid, code as i32) {
            Ok(())
        } else {
            Err(ProcessError::NotFound)
        }
    }

    /// Forced termination, used by the watchdog: like exit with code -1,
    /// with no code validation.  Returns whether the pid was found.
    pub fn kill(&mut self, pid: u64) -> (found: bool)
        requires
            old(self).wf(),
        ensures
            final(self).wf(),
            final(self).current == old(self).current,
            final(self).next_pid == old(self).next_pid,
            found == spec_has_pid(old(self).processes@, pid),
            if found {
                spec_exited_rel(old(self).processes@, final(self).processes@, pid, -1i32)
            } else {
                *final(self) == *old(self)
            },
    {
        self.terminate(pid, -1i32)
    }

    /// The wait syscall's core: scan the caller's children in order for the
    /// first reapable Zombie matching `target` (`PID_ANY` for any child).
    /// Reaping removes exactly that one table entry and its slot in the
    /// children list, and returns its pid and exit code.  With nothing to
    /// reap the caller blocks in `Waiting(Child(target))`.
    pub fn wait(&mut self, caller: u64, target: u64) -> (r: Result<(u64, i32), ProcessError>)
        requires
            old(self).wf(),
        ensures
            final(self).wf(),
            final(self).current == old(self).current,
            final(self).next_pid == old(self).next_pid,
            r matches Ok(p) ==> p.0 < old(self).next_pid && p.0 >= 1,
            ({
                let s0 = old(self).processes@;
                if !spec_has_pid(s0, caller) {
                    &&& r == Err::<(u64, i32), ProcessError>(ProcessError::InvalidPid)
                    &&& *final(self) == *old(self)
                } else {
                    let ci = spec_index_of_pid(s0, caller);
                    let cp = s0[ci];
                    match r {
                        Ok((cpid, code)) => exists|k: int|
                            {
                                &&& #[trigger] spec_wait_match(s0, cp.children@, k, caller, target)
                                &&& forall|m: int| 0 <= m < k
                                        ==> !spec_wait_match(s0, cp.children@, m, caller, target)
                                &&& cpid == cp.children@[k]
                                &&& code == s0[spec_index_of_pid(s0, cpid)].exit_code
                                &&& exists|w: Process|
                                    {
                                        &&& #[trigger] spec_reaped_parent(cp, w, k)
                                        &&& final(self).processes@
                                            == s0.update(ci, w).remove(spec_index_of_pid(s0, cpid))
                                    }
                            },
                        Err(e) => {
                            &&& e == ProcessError::NotFound
                            &&& forall|m: int| !spec_wait_match(s0, cp.children@, m, caller, target)
                            &&& final(self).processes@ == s0.update(ci,
                                    Process {
                                        state: ProcessState::Waiting(WaitReason::Child(target)),
                                        ..cp
                                    })
                        },
                    }
                }
            }),
    {
        let ghost s0 = self.processes@;
        let ci = match self.find_index(caller) {
            None => {
                return Err(ProcessError::InvalidPid);
            },
            Some(x) => x,
        };
        proof {
            Self::lemma_index_of_pid(s0, caller, ci as int);
        }
        let ghost cp = s0[ci as int];
        let nch = self.processes[ci].children.len();
        let mut k: usize = 0;
        while k < nch
            invariant
                k <= nch,
                old(self).wf(),
                s0 == old(self).processes@,
                self.processes@ == s0,
                self.current == old(self).current,
                self.next_pid == old(self).next_pid,
                ci < s0.len(),
                s0[ci as int] == cp,
                s0[ci as int].id == caller,
                nch == cp.children@.len(),
                forall|m: int| 0 <= m < k ==> !spec_wait_match(s0, cp.children@, m, caller, target),
            decreases nch - k,
        {
            let cpid = self.processes[ci].children[k];
            let mut reap_at: Option<usize> = None;
            if cpid != caller && (target == PID_ANY || cpid == target) {
                match self.find_index(cpid) {
                    Some(zi) => {
                        let is_zombie = match self.processes[zi].state {
                            ProcessState::Zombie => true,
                            _ => false,
                        };
                        if is_zombie {
                            reap_at = Some(zi);
                        } else {
                            proof {
                                Self::lemma_index_of_pid(s0, cpid, zi as int);
                            }
                        }
                    },
                    None => {},
                }
            }
            match reap_at {
                Some(zi) => {
                    proof {
                        Self::lemma_index_of_pid(s0, cpid, zi as int);
                        assert(spec_wait_match(s0, cp.children@, k as int, caller, target));
                        assert(zi != ci);
                    }
                    let mut callerp = self.processes.remove(ci);
                    callerp.children.remove(k);
                    callerp.stats.children_count = callerp.stats.children_count - 1;
                    let ghost w = callerp;
                    self.processes.insert(ci, callerp);
                    proof {
                        assert(self.processes@ =~= s0.update(ci as int, w));
                        assert(spec_reaped_parent(cp, w, k as int));
                    }
                    let z = self.processes.remove(zi);
                    let code = z.exit_code;
                    proof {
                        assert(z.id == cpid);
                        assert(z.wf());
                    }
                    proof {
                        let sf = self.processes@;
                        assert(sf == s0.update(ci as int, w).remove(zi as int));
                        let su = s0.update(ci as int, w);
                        assert forall|a: int| 0 <= a < sf.len() implies (#[trigger] sf[a]).wf() by {
                            let oa = if a < zi { a } else { a + 1 };
                            assert(sf[a] == su[oa]);
                        }
                        assert forall|a: int, b: int| 0 <= a < b < sf.len()
                            implies sf[a].id != sf[b].id by {
                            let oa = if a < zi { a } else { a + 1 };
                            let ob = if b < zi { b } else { b + 1 };
                            assert(sf[a] == su[oa]);
                            assert(sf[b] == su[ob]);
                            assert(su[oa].id == s0[oa].id);
                            assert(su[ob].id == s0[ob].id);
                        }
                        assert forall|a: int| 0 <= a < sf.len()
                            implies (#[trigger] sf[a]).id < self.next_pid by {
                            let oa = if a < zi { a } else { a + 1 };
                            assert(sf[a] == su[oa]);
                            assert(su[oa].id == s0[oa].id);
                        }
                        assert forall|a: int| 0 <= a < sf.len()
                            implies ((#[trigger] sf[a]).state is Running
                                     ==> sf[a].id == self.current) by {
                            let oa = if a < zi { a } else { a + 1 };
                            assert(sf[a] == su[oa]);
                            assert(su[oa].state == s0[oa].state || oa == ci);
                            assert(su[oa].id == s0[oa].id);
                        }
                    }
                    return Ok((cpid, code));
                },
                None => {},
            }
            proof {
                if spec_wait_match(s0, cp.children@, k as int, caller, target) {
                    let zpid = cp.children@[k as int];
                    let zj = spec_index_of_pid(s0, zpid);
                    assert(0 <= zj < s0.len() && s0[zj].id == zpid);
                }
            }
            k = k + 1;
        }
        let mut callerp = self.processes.remove(ci);
        callerp.state = ProcessState::Waiting(WaitReason::Child(target));
        self.processes.insert(ci, callerp);
        proof {
            assert(self.processes@ =~= s0.update(ci as int,
                Process { state: ProcessState::Waiting(WaitReason::Child(target)), ..cp }));
            assert forall|m: int| !spec_wait_match(s0, cp.children@, m, caller, target) by {
                if 0 <= m < cp.children@.len() {
                    assert(!spec_wait_match(s0, cp.children@, m, caller, target));
                }
            }
            let sf = self.processes@;
            assert forall|a: int| 0 <= a < sf.len() implies (#[trigger] sf[a]).wf() by {
                if a != ci {
                    assert(sf[a] == s0[a]);
                }
            }
        }
        Err(ProcessError::NotFound)
    }
}

} // verus!
