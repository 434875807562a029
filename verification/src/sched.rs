use vstd::prelude::*;

use crate::arch::context::TaskContext;

verus! {

pub const BOOTSTRAP_TARGET_TICKS: u64 = 3;
pub const BOOTSTRAP_TIMEOUT_NS: u64 = 500_000_000;
pub const MAX_THREADS: usize = 8;
pub const KERNEL_STACK_SIZE: usize = 16 * 1024;

/// What the scheduler reports after its timer has started.
#[derive(Copy, Clone, Debug)]
pub struct SchedulerBootstrap {
    pub source: &'static str,
    pub vector: u8,
    pub divide_value: u32,
    pub initial_count: u32,
    pub ticks_observed: u64,
    pub thread_count: usize,
    pub runqueue_depth: usize,
    pub current_thread_id: u64,
    pub current_thread_name: &'static str,
    pub current_thread_role: &'static str,
    pub context_switches: u64,
    pub bootstrap_thread_id: u64,
    pub idle_thread_id: u64,
}

/// Counters and the current thread of the scheduler.
#[derive(Copy, Clone, Debug)]
pub struct SchedulerStats {
    pub thread_count: usize,
    pub runqueue_depth: usize,
    pub current_thread_id: u64,
    pub current_thread_name: &'static str,
    pub current_thread_role: &'static str,
    pub current_thread_state: &'static str,
    pub total_ticks: u64,
    pub context_switches: u64,
    pub bootstrap_thread_id: u64,
    pub idle_thread_id: u64,
}

/// What an exit request did: which thread left and which one runs now.
#[derive(Copy, Clone, Debug)]
pub struct ExitGroupRecord {
    pub status: i32,
    pub exited_thread_id: u64,
    pub exited_thread_name: &'static str,
    pub next_thread_id: u64,
    pub next_thread_name: &'static str,
    pub runqueue_depth: usize,
}

/// Why the scheduler failed.
#[derive(Copy, Clone, PartialEq, Eq, Structural, Debug)]
pub enum SchedulerError {
    Timer,
    Timeout,
    ThreadTableFull,
    RunQueueFull,
    MissingIdleThread,
}

impl SchedulerError {
    pub fn as_str(self) -> (s: &'static str)
        ensures
            self == SchedulerError::Timeout ==> s@ == "scheduler bootstrap timed out waiting for periodic timer ticks"@,
            self == SchedulerError::ThreadTableFull ==> s@ == "scheduler thread table is full"@,
            self == SchedulerError::RunQueueFull ==> s@ == "scheduler run queue is full"@,
            self == SchedulerError::MissingIdleThread ==> s@ == "scheduler idle thread is missing"@,
            self == SchedulerError::Timer ==> s@ == "local APIC timer could not be started"@,
    {
        match self {
            Self::Timer => "local APIC timer could not be started",
            Self::Timeout => "scheduler bootstrap timed out waiting for periodic timer ticks",
            Self::ThreadTableFull => "scheduler thread table is full",
            Self::RunQueueFull => "scheduler run queue is full",
            Self::MissingIdleThread => "scheduler idle thread is missing",
        }
    }
}

/// What a thread is for.
#[derive(Copy, Clone, PartialEq, Eq, Structural, Debug)]
pub enum ThreadRole {
    Unassigned,
    Bootstrap,
    Idle,
}

impl ThreadRole {
    pub fn as_str(self) -> (s: &'static str)
        ensures
            s@ == spec_role_text(self),
    {
        match self {
            Self::Unassigned => "none",
            Self::Bootstrap => "bootstrap",
            Self::Idle => "idle",
        }
    }
}

pub open spec fn spec_role_text(r: ThreadRole) -> Seq<char> {
    match r {
        ThreadRole::Unassigned => "none"@,
        ThreadRole::Bootstrap => "bootstrap"@,
        ThreadRole::Idle => "idle"@,
    }
}

/// Where a thread is in its life.
#[derive(Copy, Clone, PartialEq, Eq, Structural, Debug)]
pub enum ThreadState {
    Unused,
    Runnable,
    Running,
    Exited,
}

impl ThreadState {
    pub fn as_str(self) -> (s: &'static str)
        ensures
            s@ == spec_state_text(self),
    {
        match self {
            Self::Unused => "unused",
            Self::Runnable => "runnable",
            Self::Running => "running",
            Self::Exited => "exited",
        }
    }
}

pub open spec fn spec_state_text(s: ThreadState) -> Seq<char> {
    match s {
        ThreadState::Unused => "unused"@,
        ThreadState::Runnable => "runnable"@,
        ThreadState::Running => "running"@,
        ThreadState::Exited => "exited"@,
    }
}

/// A kernel thread.
#[derive(Copy, Clone, Debug)]
pub struct Thread {
    pub id: u64,
    pub name: &'static str,
    pub role: ThreadRole,
    pub state: ThreadState,
    pub total_ticks: u64,
    pub dispatch_count: u64,
    pub context: TaskContext,
}

impl Thread {
    /// The unused thread slot.
    pub fn empty() -> (t: Self)
        ensures
            t.id == 0 && t.role == ThreadRole::Unassigned && t.state == ThreadState::Unused,
            t.total_ticks == 0 && t.dispatch_count == 0,
            t.name@ == ""@,
    {
        Thread {
            id: 0,
            name: "",
            role: ThreadRole::Unassigned,
            state: ThreadState::Unused,
            total_ticks: 0,
            dispatch_count: 0,
            context: TaskContext::empty(),
        }
    }
}

/// Which thread a timer tick left running.
#[derive(Copy, Clone, Debug)]
pub struct DispatchDecision {
    pub current_thread_id: u64,
    pub current_thread_name: &'static str,
    pub current_thread_role: &'static str,
    pub context_switches: u64,
}

/// A round-robin scheduler over at most `MAX_THREADS` threads.
///
/// `runqueue` holds thread slots in dispatch order; `current_runqueue_index`
/// points at the running one.
pub struct Scheduler {
    pub initialized: bool,
    pub next_thread_id: u64,
    pub threads: Vec<Thread>,
    pub runqueue: Vec<usize>,
    pub current_runqueue_index: usize,
    pub context_switches: u64,
    pub bootstrap_thread_id: u64,
    pub idle_thread_id: u64,
}

pub open spec fn sat_inc(v: u64) -> u64 {
    if v == u64::MAX { v } else { (v + 1) as u64 }
}

impl Scheduler {
    /// Both tables fit, every queued slot names a thread, and the current index is in range.
    pub open spec fn wf(&self) -> bool {
        &&& self.threads@.len() <= MAX_THREADS
        &&& self.runqueue@.len() <= MAX_THREADS
        &&& forall|i: int| 0 <= i < self.runqueue@.len() ==> #[trigger] self.runqueue@[i] < self.threads@.len()
        &&& (self.runqueue@.len() > 0 ==> self.current_runqueue_index < self.runqueue@.len())
        &&& (self.runqueue@.len() == 0 ==> self.current_runqueue_index == 0)
    }

    /// The slot of the running thread.
    pub open spec fn current_slot(&self) -> int {
        self.runqueue@[self.current_runqueue_index as int] as int
    }

    /// A scheduler with no thread.
    pub fn new() -> (s: Self)
        ensures
            s.wf(),
            !s.initialized,
            s.next_thread_id == 1,
            s.threads@.len() == 0,
            s.runqueue@.len() == 0,
            s.context_switches == 0 && s.bootstrap_thread_id == 0 && s.idle_thread_id == 0,
    {
        Scheduler {
            initialized: false,
            next_thread_id: 1,
            threads: Vec::new(),
            runqueue: Vec::new(),
            current_runqueue_index: 0,
            context_switches: 0,
            bootstrap_thread_id: 0,
            idle_thread_id: 0,
        }
    }

    /// Adds a runnable thread with the next id.
    pub fn create_thread(&mut self, name: &'static str, role: ThreadRole) -> (result: Result<usize, SchedulerError>)
        requires
            old(self).wf(),
        ensures
            final(self).wf(),
            old(self).threads@.len() >= MAX_THREADS ==> result == Err::<usize, SchedulerError>(SchedulerError::ThreadTableFull)
                && *final(self) == *old(self),
            old(self).threads@.len() < MAX_THREADS ==> {
                &&& result == Ok::<usize, SchedulerError>(old(self).threads@.len() as usize)
                &&& final(self).threads@ == old(self).threads@.push(
                    Thread {
                        id: old(self).next_thread_id,
                        name,
                        role,
                        state: ThreadState::Runnable,
                        total_ticks: 0,
                        dispatch_count: 0,
                        context: TaskContext { rsp: 0, rbx: 0, rbp: 0, r12: 0, r13: 0, r14: 0, r15: 0 },
                    },
                )
                &&& final(self).next_thread_id == sat_inc(old(self).next_thread_id)
                &&& final(self).runqueue@ == old(self).runqueue@
                &&& final(self).current_runqueue_index == old(self).current_runqueue_index
                &&& final(self).initialized == old(self).initialized
                &&& final(self).context_switches == old(self).context_switches
                &&& final(self).bootstrap_thread_id == old(self).bootstrap_thread_id
                &&& final(self).idle_thread_id == old(self).idle_thread_id
            },
    {
        let slot = self.threads.len();
        if slot >= MAX_THREADS {
            return Err(SchedulerError::ThreadTableFull);
        }
        let thread_id = self.next_thread_id;
        self.next_thread_id = self.next_thread_id.saturating_add(1);
        self.threads.push(
            Thread {
                id: thread_id,
                name,
                role,
                state: ThreadState::Runnable,
                total_ticks: 0,
                dispatch_count: 0,
                context: TaskContext::empty(),
            },
        );
        Ok(slot)
    }

    /// Appends a thread slot to the run queue.
    pub fn enqueue(&mut self, slot: usize) -> (result: Result<(), SchedulerError>)
        requires
            old(self).wf(),
            slot < old(self).threads@.len(),
        ensures
            final(self).wf(),
            old(self).runqueue@.len() >= MAX_THREADS ==> result == Err::<(), SchedulerError>(SchedulerError::RunQueueFull)
                && *final(self) == *old(self),
            old(self).runqueue@.len() < MAX_THREADS ==> result == Ok::<(), SchedulerError>(())
                && final(self).runqueue@ == old(self).runqueue@.push(slot) && final(self).threads@ == old(self).threads@
                && final(self).current_runqueue_index == old(self).current_runqueue_index
                && final(self).initialized == old(self).initialized
                && final(self).next_thread_id == old(self).next_thread_id
                && final(self).context_switches == old(self).context_switches
                && final(self).bootstrap_thread_id == old(self).bootstrap_thread_id
                && final(self).idle_thread_id == old(self).idle_thread_id,
    {
        if self.runqueue.len() >= MAX_THREADS {
            return Err(SchedulerError::RunQueueFull);
        }
        self.runqueue.push(slot);
        Ok(())
    }

    fn set_thread_state(&mut self, slot: usize, state: ThreadState)
        requires
            old(self).wf(),
            slot < old(self).threads@.len(),
        ensures
            final(self).wf(),
            final(self).threads@ == old(self).threads@.update(slot as int, Thread { state, ..old(self).threads@[slot as int] }),
            final(self).runqueue@ == old(self).runqueue@,
            final(self).current_runqueue_index == old(self).current_runqueue_index,
            final(self).initialized == old(self).initialized,
            final(self).next_thread_id == old(self).next_thread_id,
            final(self).context_switches == old(self).context_switches,
            final(self).bootstrap_thread_id == old(self).bootstrap_thread_id,
            final(self).idle_thread_id == old(self).idle_thread_id,
    {
        let t = self.threads[slot];
        self.threads.set(slot, Thread { state, ..t });
    }
}

} // verus!

verus! {

/// Offset, from `start`, of the first queued thread at or after offset `j` that has not exited,
/// walking the run queue cyclically; the queue length when every one has exited.
pub open spec fn live_from(ts: Seq<Thread>, rq: Seq<usize>, start: int, j: int) -> int
    decreases rq.len() - j,
{
    if j < 0 || j >= rq.len() {
        rq.len() as int
    } else if ts[rq[(start + j) % (rq.len() as int)] as int].state != ThreadState::Exited {
        j
    } else {
        live_from(ts, rq, start, j + 1)
    }
}

proof fn lemma_live_from_bounds(ts: Seq<Thread>, rq: Seq<usize>, start: int, j: int)
    requires
        0 <= j <= rq.len(),
    ensures
        j <= live_from(ts, rq, start, j) <= rq.len(),
        live_from(ts, rq, start, j) < rq.len() ==> ts[rq[(start + live_from(ts, rq, start, j)) % (rq.len() as int)] as int].state
            != ThreadState::Exited,
    decreases rq.len() - j,
{
    if j < rq.len() && ts[rq[(start + j) % (rq.len() as int)] as int].state == ThreadState::Exited {
        lemma_live_from_bounds(ts, rq, start, j + 1);
    }
}

/// The threads after a tick charged the running thread.
pub open spec fn charged(ts: Seq<Thread>, cur: int) -> Seq<Thread> {
    if ts[cur].state == ThreadState::Running {
        ts.update(cur, Thread { total_ticks: sat_inc(ts[cur].total_ticks), ..ts[cur] })
    } else {
        ts
    }
}

/// The threads after the running thread was preempted.
pub open spec fn preempted(ts: Seq<Thread>, cur: int) -> Seq<Thread> {
    if ts[cur].state == ThreadState::Running {
        ts.update(cur, Thread { state: ThreadState::Runnable, ..ts[cur] })
    } else {
        ts
    }
}

/// The decision that describes thread `t` after `switches` context switches.
pub open spec fn decision_of(d: DispatchDecision, t: Thread, switches: u64) -> bool {
    &&& d.current_thread_id == t.id
    &&& d.current_thread_name == t.name
    &&& d.current_thread_role@ == spec_role_text(t.role)
    &&& d.context_switches == switches
}

impl Scheduler {
    fn dispatch_snapshot(&self, slot: usize) -> (d: DispatchDecision)
        requires
            slot < self.threads@.len(),
        ensures
            decision_of(d, self.threads@[slot as int], self.context_switches),
    {
        let thread = self.threads[slot];
        DispatchDecision {
            current_thread_id: thread.id,
            current_thread_name: thread.name,
            current_thread_role: thread.role.as_str(),
            context_switches: self.context_switches,
        }
    }

    /// Charges the running thread one tick and moves to the next queued thread that has not exited.
    pub fn on_timer_tick(&mut self) -> (decision: Option<DispatchDecision>)
        requires
            old(self).wf(),
        ensures
            final(self).wf(),
            final(self).runqueue@ == old(self).runqueue@,
            final(self).initialized == old(self).initialized,
            final(self).next_thread_id == old(self).next_thread_id,
            final(self).bootstrap_thread_id == old(self).bootstrap_thread_id,
            final(self).idle_thread_id == old(self).idle_thread_id,
            ({
                let rq = old(self).runqueue@;
                let d = rq.len() as int;
                let ci = old(self).current_runqueue_index as int;
                let cur = old(self).current_slot();
                let t1 = charged(old(self).threads@, cur);
                let t2 = preempted(t1, cur);
                let j = live_from(t2, rq, ci + 1, 0);
                let ni = (ci + 1 + j) % d;
                let ns = rq[ni] as int;
                if !old(self).initialized || d == 0 {
                    decision is None && *final(self) == *old(self)
                } else if d == 1 {
                    &&& final(self).threads@ == t1
                    &&& final(self).current_runqueue_index == old(self).current_runqueue_index
                    &&& final(self).context_switches == old(self).context_switches
                    &&& if t1[cur].state == ThreadState::Exited {
                        decision is None
                    } else {
                        decision matches Some(dd) && decision_of(dd, t1[cur], old(self).context_switches)
                    }
                } else if j == d {
                    &&& decision is None
                    &&& final(self).threads@ == t2
                    &&& final(self).current_runqueue_index == old(self).current_runqueue_index
                    &&& final(self).context_switches == old(self).context_switches
                } else {
                    &&& final(self).current_runqueue_index == ni
                    &&& final(self).threads@ == t2.update(
                        ns,
                        Thread { state: ThreadState::Running, dispatch_count: sat_inc(t2[ns].dispatch_count), ..t2[ns] },
                    )
                    &&& final(self).context_switches == if ns != cur {
                        sat_inc(old(self).context_switches)
                    } else {
                        old(self).context_switches
                    }
                    &&& decision matches Some(dd) && decision_of(dd, final(self).threads@[ns], final(self).context_switches)
                    &&& t2[ns].state != ThreadState::Exited
                }
            }),
    {
        if !self.initialized || self.runqueue.len() == 0 {
            return None;
        }
        let depth = self.runqueue.len();
        let ci = self.current_runqueue_index;
        let current_slot = self.runqueue[ci];
        let t = self.threads[current_slot];
        if t.state == ThreadState::Running {
            self.threads.set(current_slot, Thread { total_ticks: t.total_ticks.saturating_add(1), ..t });
        }
        if depth == 1 {
            if self.threads[current_slot].state == ThreadState::Exited {
                return None;
            }
            return Some(self.dispatch_snapshot(current_slot));
        }
        if self.threads[current_slot].state == ThreadState::Running {
            self.set_thread_state(current_slot, ThreadState::Runnable);
        }
        let ghost t2 = self.threads@;
        let ghost rq = self.runqueue@;
        proof {
            lemma_live_from_bounds(t2, rq, ci + 1, 0);
        }
        let mut next_index = (ci + 1) % depth;
        let mut found = false;
        let mut step: usize = 0;
        while step < depth
            invariant_except_break
                !found,
            invariant
                t2 == self.threads@,
                rq == self.runqueue@,
                self.wf(),
                depth == rq.len(),
                depth >= 2,
                ci < depth,
                step <= depth,
                next_index == (ci + 1 + step) % (depth as int),
                live_from(t2, rq, ci + 1, 0) == live_from(t2, rq, ci + 1, step as int),
            ensures
                found ==> step < depth && live_from(t2, rq, ci + 1, 0) == step && next_index == (ci + 1 + step) % (depth as int),
                !found ==> live_from(t2, rq, ci + 1, 0) == depth,
            decreases depth - step,
        {
            let candidate = self.runqueue[next_index];
            if self.threads[candidate].state != ThreadState::Exited {
                found = true;
                break;
            }
            proof {
                vstd::arithmetic::div_mod::lemma_add_mod_noop(ci + 1 + step, 1, depth as int);
                vstd::arithmetic::div_mod::lemma_mod_twice(ci + 1 + step, depth as int);
                vstd::arithmetic::div_mod::lemma_small_mod(1, depth as nat);
            }
            next_index = (next_index + 1) % depth;
            step = step + 1;
        }
        if !found {
            return None;
        }
        self.current_runqueue_index = next_index;
        let next_slot = self.runqueue[next_index];
        let nt = self.threads[next_slot];
        self.threads.set(
            next_slot,
            Thread { state: ThreadState::Running, dispatch_count: nt.dispatch_count.saturating_add(1), ..nt },
        );
        if next_slot != current_slot {
            self.context_switches = self.context_switches.saturating_add(1);
        }
        Some(self.dispatch_snapshot(next_slot))
    }
}

} // verus!

verus! {

impl Scheduler {
    /// The running thread, or the empty thread when nothing is queued.
    pub open spec fn spec_current_thread(&self) -> Option<Thread> {
        if !self.initialized || self.runqueue@.len() == 0 {
            None
        } else {
            Some(self.threads@[self.current_slot()])
        }
    }

    pub fn current_thread(&self) -> (t: Thread)
        requires
            self.wf(),
        ensures
            match self.spec_current_thread() {
                Some(c) => t == c,
                None => t.id == 0 && t.role == ThreadRole::Unassigned && t.state == ThreadState::Unused
                    && t.name@ == ""@,
            },
    {
        if !self.initialized || self.runqueue.len() == 0 {
            return Thread::empty();
        }
        self.threads[self.runqueue[self.current_runqueue_index]]
    }

    /// Counters and the running thread, with `total_ticks` timer ticks seen.
    pub fn stats(&self, total_ticks: u64) -> (s: SchedulerStats)
        requires
            self.wf(),
        ensures
            s.thread_count == self.threads@.len(),
            s.runqueue_depth == self.runqueue@.len(),
            s.total_ticks == total_ticks,
            s.context_switches == self.context_switches,
            s.bootstrap_thread_id == self.bootstrap_thread_id,
            s.idle_thread_id == self.idle_thread_id,
            match self.spec_current_thread() {
                Some(c) => s.current_thread_id == c.id && s.current_thread_name == c.name
                    && s.current_thread_role@ == spec_role_text(c.role) && s.current_thread_state@ == spec_state_text(
                    c.state,
                ),
                None => s.current_thread_id == 0 && s.current_thread_name@ == ""@ && s.current_thread_role@ == "none"@
                    && s.current_thread_state@ == "unused"@,
            },
    {
        let current = self.current_thread();
        SchedulerStats {
            thread_count: self.threads.len(),
            runqueue_depth: self.runqueue.len(),
            current_thread_id: current.id,
            current_thread_name: current.name,
            current_thread_role: current.role.as_str(),
            current_thread_state: current.state.as_str(),
            total_ticks,
            context_switches: self.context_switches,
            bootstrap_thread_id: self.bootstrap_thread_id,
            idle_thread_id: self.idle_thread_id,
        }
    }

    /// Makes the idle thread the running one.
    pub fn activate_idle_thread(&mut self) -> (result: Result<(), SchedulerError>)
        requires
            old(self).wf(),
        ensures
            final(self).wf(),
            final(self).runqueue@ == old(self).runqueue@,
            final(self).idle_thread_id == old(self).idle_thread_id,
            final(self).initialized == old(self).initialized,
            !old(self).initialized || old(self).runqueue@.len() == 0 || old(self).idle_thread_id == 0 ==> result
                == Err::<(), SchedulerError>(SchedulerError::MissingIdleThread) && *final(self) == *old(self),
            result is Ok ==> final(self).threads@[final(self).current_slot()].id == old(self).idle_thread_id
                && final(self).threads@[final(self).current_slot()].state == ThreadState::Running,
    {
        if !self.initialized || self.runqueue.len() == 0 || self.idle_thread_id == 0 {
            return Err(SchedulerError::MissingIdleThread);
        }
        let current_slot = self.runqueue[self.current_runqueue_index];
        if self.threads[current_slot].id == self.idle_thread_id {
            self.set_thread_state(current_slot, ThreadState::Running);
            return Ok(());
        }
        self.set_thread_state(current_slot, ThreadState::Runnable);
        let mut index: usize = 0;
        while index < self.runqueue.len()
            invariant
                self.wf(),
                self.initialized,
                old(self).initialized,
                old(self).runqueue@.len() > 0,
                old(self).idle_thread_id != 0,
                self.runqueue@ == old(self).runqueue@,
                self.idle_thread_id == old(self).idle_thread_id,
                index <= self.runqueue@.len(),
            decreases self.runqueue@.len() - index,
        {
            let slot = self.runqueue[index];
            if self.threads[slot].id == self.idle_thread_id {
                self.current_runqueue_index = index;
                self.set_thread_state(slot, ThreadState::Running);
                self.context_switches = self.context_switches.saturating_add(1);
                return Ok(());
            }
            index = index + 1;
        }
        Err(SchedulerError::MissingIdleThread)
    }

    /// Drops entry `index` of the run queue; the current index wraps to the front when it falls off.
    pub fn remove_runqueue_index(&mut self, index: usize)
        requires
            old(self).wf(),
        ensures
            final(self).wf(),
            final(self).threads@ == old(self).threads@,
            final(self).initialized == old(self).initialized,
            final(self).context_switches == old(self).context_switches,
            final(self).next_thread_id == old(self).next_thread_id,
            final(self).bootstrap_thread_id == old(self).bootstrap_thread_id,
            final(self).idle_thread_id == old(self).idle_thread_id,
            index >= old(self).runqueue@.len() ==> *final(self) == *old(self),
            index < old(self).runqueue@.len() ==> {
                &&& final(self).runqueue@ == old(self).runqueue@.remove(index as int)
                &&& final(self).current_runqueue_index == if old(self).current_runqueue_index >= final(self).runqueue@.len() {
                    0
                } else {
                    old(self).current_runqueue_index as int
                }
            },
    {
        if index >= self.runqueue.len() {
            return;
        }
        self.runqueue.remove(index);
        if self.runqueue.len() == 0 {
            self.current_runqueue_index = 0;
        } else if self.current_runqueue_index >= self.runqueue.len() {
            self.current_runqueue_index = 0;
        }
        proof {
            assert forall|i: int| 0 <= i < self.runqueue@.len() implies #[trigger] self.runqueue@[i] < self.threads@.len() by {
                if i < index {
                    assert(self.runqueue@[i] == old(self).runqueue@[i]);
                } else {
                    assert(self.runqueue@[i] == old(self).runqueue@[i + 1]);
                }
            }
        }
    }

    /// Ends the running thread with `status`: it leaves the run queue and the next queued thread runs.
    pub fn request_exit_group(&mut self, status: i32) -> (record: Option<ExitGroupRecord>)
        requires
            old(self).wf(),
        ensures
            final(self).wf(),
            final(self).initialized == old(self).initialized,
            ({
                let ci = old(self).current_runqueue_index as int;
                let cur = old(self).current_slot();
                let t0 = old(self).threads@;
                if !old(self).initialized || old(self).runqueue@.len() == 0 || t0[cur].state == ThreadState::Exited {
                    record is None && *final(self) == *old(self)
                } else {
                    let t1 = t0.update(cur, Thread { state: ThreadState::Exited, ..t0[cur] });
                    let rq = old(self).runqueue@.remove(ci);
                    let ni = if ci >= rq.len() { 0 } else { ci };
                    &&& final(self).runqueue@ == rq
                    &&& final(self).current_runqueue_index == ni
                    &&& record matches Some(r) && r.status == status && r.exited_thread_id == t0[cur].id
                        && r.exited_thread_name == t0[cur].name && r.runqueue_depth == rq.len()
                    &&& if rq.len() == 0 {
                        &&& final(self).threads@ == t1
                        &&& final(self).context_switches == old(self).context_switches
                        &&& record matches Some(r) && r.next_thread_id == 0 && r.next_thread_name@ == "<none>"@
                    } else {
                        let ns = rq[ni] as int;
                        &&& final(self).threads@ == if t1[ns].state != ThreadState::Exited {
                            t1.update(ns, Thread { state: ThreadState::Running, ..t1[ns] })
                        } else {
                            t1
                        }
                        &&& final(self).context_switches == sat_inc(old(self).context_switches)
                        &&& record matches Some(r) && r.next_thread_id == t1[ns].id && r.next_thread_name == t1[ns].name
                    }
                }
            }),
    {
        if !self.initialized || self.runqueue.len() == 0 {
            return None;
        }
        let current_index = self.current_runqueue_index;
        let current_slot = self.runqueue[current_index];
        let current = self.threads[current_slot];
        if current.state == ThreadState::Exited {
            return None;
        }
        self.set_thread_state(current_slot, ThreadState::Exited);
        self.remove_runqueue_index(current_index);
        let (next_thread_id, next_thread_name) = if self.runqueue.len() > 0 {
            let next_slot = self.runqueue[self.current_runqueue_index];
            if self.threads[next_slot].state != ThreadState::Exited {
                self.set_thread_state(next_slot, ThreadState::Running);
            }
            self.context_switches = self.context_switches.saturating_add(1);
            (self.threads[next_slot].id, self.threads[next_slot].name)
        } else {
            (0, "<none>")
        };
        Some(
            ExitGroupRecord {
                status,
                exited_thread_id: current.id,
                exited_thread_name: current.name,
                next_thread_id,
                next_thread_name,
                runqueue_depth: self.runqueue.len(),
            },
        )
    }
}

} // verus!

verus! {

impl Scheduler {
    /// Sets up the two boot threads: the running bootstrap thread and the runnable idle thread,
    /// whose stack spans `idle_stack_len` bytes from `idle_stack_base`.
    pub fn initialize_bootstrap_threads(&mut self, idle_stack_base: usize, idle_stack_len: usize) -> (result: Result<(), SchedulerError>)
        requires
            idle_stack_base + idle_stack_len <= usize::MAX,
            idle_stack_len >= 32,
        ensures
            final(self).wf(),
            result is Ok,
            final(self).initialized,
            final(self).threads@.len() == 2,
            final(self).runqueue@ == seq![0usize, 1usize],
            final(self).current_runqueue_index == 0,
            final(self).context_switches == 0,
            final(self).next_thread_id == 3,
            final(self).threads@[0].id == 1 && final(self).threads@[0].name@ == "kernel-bootstrap"@
                && final(self).threads@[0].role == ThreadRole::Bootstrap
                && final(self).threads@[0].state == ThreadState::Running
                && final(self).threads@[0].dispatch_count == 1 && final(self).threads@[0].total_ticks == 0,
            final(self).threads@[1].id == 2 && final(self).threads@[1].name@ == "kernel-idle"@
                && final(self).threads@[1].role == ThreadRole::Idle
                && final(self).threads@[1].state == ThreadState::Runnable
                && final(self).threads@[1].dispatch_count == 0 && final(self).threads@[1].total_ticks == 0
                && final(self).threads@[1].context.rsp == crate::arch::context::spec_thread_frame(
                idle_stack_base as int,
                idle_stack_len as int,
            ).2,
            final(self).bootstrap_thread_id == 1,
            final(self).idle_thread_id == 2,
    {
        *self = Scheduler::new();
        let bootstrap_slot = match self.create_thread("kernel-bootstrap", ThreadRole::Bootstrap) {
            Ok(s) => s,
            Err(e) => return Err(e),
        };
        let idle_slot = match self.create_thread("kernel-idle", ThreadRole::Idle) {
            Ok(s) => s,
            Err(e) => return Err(e),
        };
        match self.enqueue(bootstrap_slot) {
            Ok(()) => {},
            Err(e) => return Err(e),
        }
        match self.enqueue(idle_slot) {
            Ok(()) => {},
            Err(e) => return Err(e),
        }
        let b = self.threads[bootstrap_slot];
        self.threads.set(bootstrap_slot, Thread { state: ThreadState::Running, dispatch_count: 1, ..b });
        let i = self.threads[idle_slot];
        let mut idle_context = i.context;
        crate::arch::context::initialize_kernel_thread(&mut idle_context, idle_stack_base, idle_stack_len);
        self.threads.set(idle_slot, Thread { state: ThreadState::Runnable, context: idle_context, ..i });
        self.current_runqueue_index = 0;
        self.initialized = true;
        self.bootstrap_thread_id = self.threads[bootstrap_slot].id;
        self.idle_thread_id = self.threads[idle_slot].id;
        proof {
            assert(self.runqueue@ =~= seq![0usize, 1usize]);
        }
        Ok(())
    }

    /// Makes the idle thread current and names the slots of the context to save (the bootstrap
    /// thread's) and of the context to load (the idle thread's).
    pub fn idle_context_pair(&mut self) -> (result: Result<(usize, usize), SchedulerError>)
        requires
            old(self).wf(),
        ensures
            final(self).wf(),
            result matches Ok((b, i)) ==> b < final(self).threads@.len() && i < final(self).threads@.len() && b != i
                && final(self).threads@[b as int].role == ThreadRole::Bootstrap
                && final(self).threads@[i as int].role == ThreadRole::Idle
                && (forall|k: int| b < k < final(self).threads@.len() ==> #[trigger] final(self).threads@[k].role != ThreadRole::Bootstrap)
                && (forall|k: int| i < k < final(self).threads@.len() ==> #[trigger] final(self).threads@[k].role != ThreadRole::Idle),
    {
        match self.activate_idle_thread() {
            Ok(()) => {},
            Err(e) => return Err(e),
        }
        let mut bootstrap_slot: Option<usize> = None;
        let mut idle_slot: Option<usize> = None;
        let mut slot: usize = 0;
        while slot < self.threads.len()
            invariant
                slot <= self.threads@.len(),
                bootstrap_slot matches Some(b) ==> b < slot && self.threads@[b as int].role == ThreadRole::Bootstrap
                    && (forall|k: int| b < k < slot ==> #[trigger] self.threads@[k].role != ThreadRole::Bootstrap),
                bootstrap_slot is None ==> forall|k: int| 0 <= k < slot ==> #[trigger] self.threads@[k].role != ThreadRole::Bootstrap,
                idle_slot matches Some(x) ==> x < slot && self.threads@[x as int].role == ThreadRole::Idle
                    && (forall|k: int| x < k < slot ==> #[trigger] self.threads@[k].role != ThreadRole::Idle),
                idle_slot is None ==> forall|k: int| 0 <= k < slot ==> #[trigger] self.threads@[k].role != ThreadRole::Idle,
            decreases self.threads@.len() - slot,
        {
            match self.threads[slot].role {
                ThreadRole::Bootstrap => bootstrap_slot = Some(slot),
                ThreadRole::Idle => idle_slot = Some(slot),
                ThreadRole::Unassigned => {},
            }
            slot = slot + 1;
        }
        let b = match bootstrap_slot {
            Some(b) => b,
            None => return Err(SchedulerError::MissingIdleThread),
        };
        let i = match idle_slot {
            Some(i) => i,
            None => return Err(SchedulerError::MissingIdleThread),
        };
        if b == i {
            return Err(SchedulerError::MissingIdleThread);
        }
        Ok((b, i))
    }
}

/// Timer-tick bookkeeping around the scheduler: whether ticks are counted and how many there were.
pub struct SchedulerRuntime {
    pub bootstrap_active: bool,
    pub ready: bool,
    pub ticks: u64,
}

impl SchedulerRuntime {
    pub fn new() -> (r: Self)
        ensures
            !r.bootstrap_active && !r.ready && r.ticks == 0,
    {
        SchedulerRuntime { bootstrap_active: false, ready: false, ticks: 0 }
    }
}

/// What one timer interrupt did: the tick number and the scheduler's decision, and whether
/// it falls within the boot ticks that are reported.
pub struct TickOutcome {
    pub tick: u64,
    pub decision: Option<DispatchDecision>,
    pub report: bool,
}

/// Handles a timer interrupt: counts the tick and lets the scheduler pick the next thread,
/// unless the scheduler is neither bootstrapping nor ready.
pub fn on_timer_interrupt(runtime: &mut SchedulerRuntime, scheduler: &mut Scheduler) -> (outcome: Option<TickOutcome>)
    requires
        old(scheduler).wf(),
        old(runtime).ticks < u64::MAX,
    ensures
        final(scheduler).wf(),
        !old(runtime).bootstrap_active && !old(runtime).ready ==> outcome is None && *final(runtime) == *old(runtime)
            && *final(scheduler) == *old(scheduler),
        old(runtime).bootstrap_active || old(runtime).ready ==> (final(runtime).ticks == old(runtime).ticks + 1
            && final(runtime).bootstrap_active == old(runtime).bootstrap_active && final(runtime).ready == old(runtime).ready
            && (outcome matches Some(o) && o.tick == final(runtime).ticks && o.report == (o.tick
            <= BOOTSTRAP_TARGET_TICKS))),
{
    if !runtime.bootstrap_active && !runtime.ready {
        return None;
    }
    runtime.ticks = runtime.ticks + 1;
    let tick = runtime.ticks;
    let decision = scheduler.on_timer_tick();
    Some(TickOutcome { tick, decision, report: tick <= BOOTSTRAP_TARGET_TICKS })
}

/// Counters and the running thread.
pub fn stats(runtime: &SchedulerRuntime, scheduler: &Scheduler) -> (s: SchedulerStats)
    requires
        scheduler.wf(),
    ensures
        s.total_ticks == runtime.ticks,
        s.thread_count == scheduler.threads@.len(),
        s.runqueue_depth == scheduler.runqueue@.len(),
        s.context_switches == scheduler.context_switches,
{
    scheduler.stats(runtime.ticks)
}

/// Ends the running thread with `status`.
pub fn request_exit_group(scheduler: &mut Scheduler, status: i32) -> (record: Option<ExitGroupRecord>)
    requires
        old(scheduler).wf(),
    ensures
        final(scheduler).wf(),
        record is Some <==> (old(scheduler).initialized && old(scheduler).runqueue@.len() > 0
            && old(scheduler).threads@[old(scheduler).current_slot()].state != ThreadState::Exited),
{
    scheduler.request_exit_group(status)
}

/// The report of a finished bootstrap: the timer that drives the scheduler and its counters.
pub fn bootstrap_report(stats: &SchedulerStats, vector: u8, divide_value: u32, initial_count: u32) -> (b: SchedulerBootstrap)
    ensures
        b.source@ == "local-apic-periodic"@,
        b.vector == vector && b.divide_value == divide_value && b.initial_count == initial_count,
        b.ticks_observed == stats.total_ticks && b.thread_count == stats.thread_count
            && b.runqueue_depth == stats.runqueue_depth && b.current_thread_id == stats.current_thread_id
            && b.current_thread_name == stats.current_thread_name && b.current_thread_role == stats.current_thread_role
            && b.context_switches == stats.context_switches && b.bootstrap_thread_id == stats.bootstrap_thread_id
            && b.idle_thread_id == stats.idle_thread_id,
{
    SchedulerBootstrap {
        source: "local-apic-periodic",
        vector,
        divide_value,
        initial_count,
        ticks_observed: stats.total_ticks,
        thread_count: stats.thread_count,
        runqueue_depth: stats.runqueue_depth,
        current_thread_id: stats.current_thread_id,
        current_thread_name: stats.current_thread_name,
        current_thread_role: stats.current_thread_role,
        context_switches: stats.context_switches,
        bootstrap_thread_id: stats.bootstrap_thread_id,
        idle_thread_id: stats.idle_thread_id,
    }
}

} // verus!
