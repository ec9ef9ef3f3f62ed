//! The state shared by all address spaces and CPUs, and the steps of the
//! scheduling loop that work on it.
//!
//! Each step takes the CPU it runs on and the event that happened, updates
//! the state, and tells the caller what is left to do outside: which stack
//! to enter traps on, which page table to switch to, which stack to run the
//! next task on. What only the OS knows of a task (its state, priority,
//! process, kind) is asked of a [`TaskHost`].
use vstd::prelude::*;
use crate::interface::{
    TaskHost, TaskState, CPU_NUM, HIGHEST_PRIORITY, LOWEST_PRIORITY, PROCESS_NUM, READY_QUEUE_SIZE,
    STACK_POOL_SIZE, TRAP_WAIT_QUEUE_SIZE,
};
use crate::main_loop::{
    after_coroutine_poll, after_thread_yield, coroutine_yield_state, entry_target,
    prev_task_action, process_scheduler, requeue_target, switch_vspace, thread_entry_state,
    trap_entry_plan, trap_plan, vspace_switch, PrevTaskAction, TrapEntryError,
};
use crate::schedule::process_info::{
    law_pick_highest, pick_process, scan_has_valid, scan_start, ProcessInfo, ProcessInfoTable,
};
use crate::schedule::ready_queue::ReadyQueue;
use crate::schedule::scheduler::{Scheduler, Taken};
use crate::schedule::trap_wait_queue::trapped_task_requeue;
use crate::stack::handler::StackHandler;
use crate::stack::Stack;

verus! {

/// The kernel stack pool after a trap of CPU `cpu` entered on its trap
/// stack: `stack`, an empty stack of the pool when there was one (else one
/// from the host), is the new trap stack, and the stack the trap entered on
/// is the CPU's current stack.
pub open spec fn trap_stacks_post(old: StackHandler, new: StackHandler, cpu: usize, stack: usize) -> bool {
    &&& new.wf()
    &&& new.traps() == old.traps().update(cpu as int, Some(stack))
    &&& new.currents() == old.currents().update(cpu as int, old.trap(cpu as int))
    &&& if old.free().len() > 0 {
        old.free().contains(stack) && new.free() == old.free().remove(stack)
    } else {
        new.free() == old.free()
    }
}

/// CPU `cpu` moved onto the stack of a thread, `thread_stack` (or none):
/// the stack it ran on, if any, is kept for reuse or freed when the pool is
/// full (see [`StackHandler::get_thread_stack`]).
pub open spec fn thread_stack_post(
    old: StackHandler,
    new: StackHandler,
    cpu: usize,
    thread_stack: Option<usize>,
) -> bool {
    &&& new.wf()
    &&& new.traps() == old.traps()
    &&& new.currents() == old.currents().update(cpu as int, thread_stack)
    &&& match old.current(cpu as int) {
        None => new.free() == old.free(),
        Some(s) => new.free() == (if old.free().remove(s).len() < STACK_POOL_SIZE {
            old.free().insert(s)
        } else {
            old.free().remove(s)
        }),
    }
}

/// CPU `cpu` has an empty stack to run on: the one it had, or else an empty
/// stack of the pool when there was one (else one from the host) (see
/// [`StackHandler::get_empty_stack`]).
pub open spec fn empty_stack_post(old: StackHandler, new: StackHandler, cpu: usize) -> bool {
    &&& new.wf()
    &&& new.traps() == old.traps()
    &&& new.current(cpu as int) is Some
    &&& new.currents() == old.currents().update(cpu as int, new.current(cpu as int))
    &&& if old.current(cpu as int) is Some {
        new.currents() == old.currents() && new.free() == old.free()
    } else if old.free().len() > 0 {
        old.free().contains(new.current(cpu as int)->Some_0) && new.free() == old.free().remove(
            new.current(cpu as int)->Some_0,
        )
    } else {
        new.free() == old.free()
    }
}

/// CPU `cpu`, which had no trap stack, has one: an empty stack of the pool
/// when there was one (else one from the host).
pub open spec fn trap_stack_alloc_post(old: StackHandler, new: StackHandler, cpu: usize) -> bool {
    &&& new.wf()
    &&& new.currents() == old.currents()
    &&& new.trap(cpu as int) is Some
    &&& new.traps() == old.traps().update(cpu as int, new.trap(cpu as int))
    &&& if old.free().len() > 0 {
        old.free().contains(new.trap(cpu as int)->Some_0) && new.free() == old.free().remove(
            new.trap(cpu as int)->Some_0,
        )
    } else {
        new.free() == old.free()
    }
}

/// The value of `r` when it is `Ok`.
pub open spec fn ok_value(r: Result<usize, SchedError>) -> Option<usize> {
    match r {
        Ok(v) => Some(v),
        Err(_) => None,
    }
}

/// Why a step of the scheduling loop cannot go on.
#[derive(PartialEq, Eq, Structural, Clone, Copy, Debug)]
pub enum SchedError {
    /// The trap cannot be handled.
    Trap(TrapEntryError),
    /// A task reported a priority outside `HIGHEST_PRIORITY..=LOWEST_PRIORITY`.
    PriorityOutOfRange(isize),
    /// A task reported a process number outside the table.
    ProcessOutOfRange(usize),
    /// A task could not be put back on its scheduler (its level was full).
    RequeueFailed(usize),
    /// The trap queue of the CPU was full.
    TrapQueueFull,
    /// The CPU has no trap stack.
    NoTrapStack,
    /// The CPU has a trap stack already.
    TrapStackInUse,
    /// The CPU has no current stack.
    NoCurrentStack,
    /// A trap handler was found in a state it cannot be in.
    HandlerState(TaskState),
    /// The scheduler or stack pool needed is not set up.
    NotInitialised,
    /// What was to be set up is set up already.
    AlreadyInitialised,
    /// A null task was handed over.
    NullTask,
    /// No valid process was found to run.
    NoProcess,
    /// Every process number is taken.
    TableFull,
    /// A task whose trap was handled was found in this state, which it
    /// cannot be in.
    TrappedTaskState(TaskState),
}

/// What to do after a trap entered the scheduler.
#[derive(PartialEq, Eq, Structural, Clone, Copy, Debug)]
pub struct TrapEntryOutcome {
    /// Where to go next: 1 the kernel scheduler, 2 the user scheduler, 3 the
    /// kernel side of a switch requested by a user scheduler.
    pub next: usize,
    /// The new stack the next trap enters on, when it changed (its base goes
    /// to the trap entry register).
    pub trap_stack: Option<usize>,
    /// The state to give the interrupted task, when it changes.
    pub task_state: Option<TaskState>,
}

/// What is left to do once a task gave up the CPU.
#[derive(PartialEq, Eq, Structural, Clone, Copy, Debug)]
pub struct YieldOutcome {
    /// Where to go next: 0 the kernel scheduler, 1 the user scheduler.
    pub next: usize,
    /// The task that gave up the CPU.
    pub task: usize,
    /// The state to give it, when it changes.
    pub set_state: Option<TaskState>,
    /// The task to free: the task itself when it exited.
    pub free: Option<usize>,
}

/// The process number to give a task taken from a scheduler, when it is a
/// trap handler: `trap_of` says so (see [`Taken`]), and the handler works for
/// the process `tpid` of the trapped task, or for the kernel (0) when the
/// trap stopped no task. `None` when the task is no trap handler.
pub open spec fn handler_pid(trap_of: Option<Option<usize>>, tpid: usize) -> Option<usize> {
    match trap_of {
        None => None,
        Some(None) => Some(0usize),
        Some(Some(_)) => Some(tpid),
    }
}

/// Computes [`handler_pid`].
pub fn handler_pid_of(trap_of: Option<Option<usize>>, tpid: usize) -> (r: Option<usize>)
    ensures
        r == handler_pid(trap_of, tpid),
{
    match trap_of {
        None => None,
        Some(None) => Some(0),
        Some(Some(_)) => Some(tpid),
    }
}

/// The process a task taken from a scheduler runs for, as the host reports
/// it: for a trap handler (`trap_of` is `Some`), that of the task whose trap
/// it serves, or the kernel (0) when the trap stopped no task; otherwise that
/// of `task` itself.
fn taken_pid<H: TaskHost>(task: usize, trap_of: Option<Option<usize>>, host: &H) -> (r: usize)
    ensures
        trap_of == Some(None::<usize>) ==> r == 0,
{
    match trap_of {
        Some(None) => 0,
        Some(Some(t)) => host.pid(t),
        None => host.pid(task),
    }
}

/// What the kernel found when it took the next task of a process.
#[derive(PartialEq, Eq, Structural, Clone, Copy, Debug)]
pub enum KtaskOutcome {
    /// Run the new current task (`next` 0: a kernel task, through
    /// `run_task`; 1: a user task, through `krun_utask`), after switching to
    /// the page table root `switch_to` if any. When the task is a trap
    /// handler, `set_pid` is the process number to give it first.
    Run { next: usize, switch_to: Option<usize>, set_pid: Option<usize> },
    /// No task was taken: switch to the page table root `switch_to` if any,
    /// then pick a process again.
    Retry { switch_to: Option<usize> },
}

/// What a user scheduler found for its process.
#[derive(PartialEq, Eq, Structural, Clone, Copy, Debug)]
pub enum UtaskOutcome {
    /// Run the new current task, through `run_task`; when it is a trap
    /// handler, give it the process number `set_pid` first.
    Run { set_pid: Option<usize> },
    /// No task was taken: pick a process again.
    Retry,
    /// Another process is to run: enter the kernel.
    IntoKernel,
}

/// How to run the current task.
#[derive(PartialEq, Eq, Structural, Clone, Copy, Debug)]
pub enum RunPlan {
    /// Poll the coroutine on the empty stack `stack` (the CPU's current
    /// stack, whose base the stack pointer is set to).
    Coroutine { stack: usize },
    /// Restore the thread's context, on its own stack.
    Thread,
}

/// What a trap handler task does next.
#[derive(PartialEq, Eq, Structural, Clone, Copy, Debug)]
pub enum TrapWork {
    /// Give the handler `handler` process number `pid`, switch to the page
    /// table root `switch_to` if any, and handle the trap record `info`,
    /// which stopped `task` if any; then report the task with
    /// [`VvarData::trap_handled`].
    Handle { handler: usize, pid: usize, info: usize, task: Option<usize>, switch_to: Option<usize> },
    /// No trap is waiting: the handler `handler` is idle again; give it
    /// process number `pid` and state `state`, and let it give up the CPU.
    Park { handler: usize, pid: usize, state: TaskState },
}

/// The state shared by all address spaces and CPUs.
pub struct VvarData<HP, TT> {
    /// The task running on each CPU.
    pub current_task: Vec<usize>,
    /// The scheduler of each process, by process number: 0 is the kernel's.
    pub schedulers: Vec<Option<Scheduler<HP, TT>>>,
    /// Whether each CPU is in the kernel.
    pub in_kernel: Vec<bool>,
    /// The process whose address space each CPU is in.
    pub current_vspace: Vec<usize>,
    /// The process table.
    pub process_info_table: ProcessInfoTable,
    /// The kernel's stack pool.
    pub kernel_stacks: StackHandler,
    /// The stack pool of each process, by process number.
    pub user_stacks: Vec<Option<StackHandler>>,
}

impl<HP, TT> VvarData<HP, TT> where
    HP: Fn(usize, usize) -> isize,
    TT: Fn(usize, usize) -> (usize, isize),
 {
    /// One slot per CPU and per process; a well-formed table and stack
    /// pools; the scheduler of process `p`, where there is one, is numbered
    /// `p`, and a user process has one exactly when the table records its
    /// address; every CPU is in the address space of a process of the table.
    pub open spec fn wf(&self) -> bool {
        &&& self.current_task@.len() == CPU_NUM
        &&& self.in_kernel@.len() == CPU_NUM
        &&& self.current_vspace@.len() == CPU_NUM
        &&& self.schedulers@.len() == PROCESS_NUM
        &&& self.user_stacks@.len() == PROCESS_NUM
        &&& forall|c: int| 0 <= c < CPU_NUM ==> #[trigger] self.current_vspace@[c] < PROCESS_NUM
        &&& self.process_info_table.wf()
        &&& self.kernel_stacks.wf()
        &&& forall|p: int|
            0 <= p < PROCESS_NUM ==> match #[trigger] self.schedulers@[p] {
                Some(s) => s.wf() && s.index() == p,
                None => true,
            }
        &&& forall|p: int|
            0 < p < PROCESS_NUM ==> (#[trigger] self.process_info_table.entries()[p].scheduler != 0
                <==> self.schedulers@[p] is Some)
        &&& forall|p: int|
            0 <= p < PROCESS_NUM ==> match #[trigger] self.user_stacks@[p] {
                Some(h) => h.wf(),
                None => true,
            }
    }

    /// The state before initialisation: no task, no scheduler, no stack
    /// pool of a process, every CPU in the kernel address space at user
    /// level.
    pub fn new() -> (r: Self)
        ensures
            r.wf(),
            r.process_info_table.next() == 1,
            forall|p: int|
                0 <= p < PROCESS_NUM ==> #[trigger] r.schedulers@[p] is None && r.user_stacks@[p] is None
                    && r.process_info_table.entries()[p] == (ProcessInfo {
                    valid: p == 0,
                    highest_prio: isize::MAX,
                    vspace: 0,
                    scheduler: 0,
                }),
            forall|c: int|
                0 <= c < CPU_NUM ==> #[trigger] r.current_task@[c] == 0 && !r.in_kernel@[c]
                    && r.current_vspace@[c] == 0,
            forall|c: int| 0 <= c < CPU_NUM ==> r.kernel_stacks.current(c) is None && r.kernel_stacks.trap(c) is None,
            r.kernel_stacks.free() == Set::<usize>::empty(),
    {
        let mut current_task: Vec<usize> = Vec::new();
        let mut in_kernel: Vec<bool> = Vec::new();
        let mut current_vspace: Vec<usize> = Vec::new();
        let mut c: usize = 0;
        while c < CPU_NUM
            invariant
                c <= CPU_NUM,
                current_task@.len() == c,
                in_kernel@.len() == c,
                current_vspace@.len() == c,
                forall|k: int|
                    0 <= k < c ==> current_task@[k] == 0 && !in_kernel@[k] && current_vspace@[k]
                        == 0,
            decreases CPU_NUM - c,
        {
            current_task.push(0);
            in_kernel.push(false);
            current_vspace.push(0);
            c += 1;
        }
        let mut schedulers: Vec<Option<Scheduler<HP, TT>>> = Vec::new();
        let mut user_stacks: Vec<Option<StackHandler>> = Vec::new();
        let mut p: usize = 0;
        while p < PROCESS_NUM
            invariant
                p <= PROCESS_NUM,
                schedulers@.len() == p,
                user_stacks@.len() == p,
                forall|k: int| 0 <= k < p ==> #[trigger] schedulers@[k] is None,
                forall|k: int| 0 <= k < p ==> #[trigger] user_stacks@[k] is None,
            decreases PROCESS_NUM - p,
        {
            schedulers.push(None);
            user_stacks.push(None);
            p += 1;
        }
        let r = VvarData {
            current_task,
            schedulers,
            in_kernel,
            current_vspace,
            process_info_table: ProcessInfoTable::default(),
            kernel_stacks: StackHandler::default(),
            user_stacks,
        };
        assert forall|p: int|
            0 < p < PROCESS_NUM implies (#[trigger] r.process_info_table.entries()[p].scheduler != 0
            <==> r.schedulers@[p] is Some) by {
            assert(r.process_info_table.entries()[p].scheduler == 0);
        }
        r
    }

    /// The task running on CPU `cpu`.
    pub fn get_current_task(&self, cpu: usize) -> (r: usize)
        requires
            self.wf(),
            cpu < CPU_NUM,
        ensures
            r == self.current_task@[cpu as int],
    {
        self.current_task[cpu]
    }

    /// The task about to run on CPU `cpu`, the current one, with the state
    /// to give it first: `Running`.
    pub fn task_to_run(&self, cpu: usize) -> (r: (usize, TaskState))
        requires
            self.wf(),
            cpu < CPU_NUM,
        ensures
            r == (self.current_task@[cpu as int], TaskState::Running),
    {
        (self.current_task[cpu], TaskState::Running)
    }

    /// Makes `task` the task running on CPU `cpu` and returns the previous
    /// one.
    pub fn set_current_task(&mut self, cpu: usize, task: usize) -> (r: usize)
        requires
            old(self).wf(),
            cpu < CPU_NUM,
        ensures
            final(self).wf(),
            r == old(self).current_task@[cpu as int],
            *final(self) == (VvarData { current_task: final(self).current_task, ..*old(self) }),
            final(self).current_task@ == old(self).current_task@.update(cpu as int, task),
    {
        let prev = self.current_task[cpu];
        self.current_task.set(cpu, task);
        prev
    }

    /// The process whose address space CPU `cpu` is in.
    pub fn current_vspace(&self, cpu: usize) -> (r: usize)
        requires
            self.wf(),
            cpu < CPU_NUM,
        ensures
            r == self.current_vspace@[cpu as int],
    {
        self.current_vspace[cpu]
    }

    /// Everything but the schedulers and the process table is as in `old`.
    pub open spec fn same_cpu_state(old: Self, new: Self) -> bool {
        &&& new.current_task == old.current_task
        &&& new.in_kernel == old.in_kernel
        &&& new.current_vspace == old.current_vspace
        &&& new.kernel_stacks == old.kernel_stacks
        &&& new.user_stacks == old.user_stacks
    }

    /// What [`VvarData::enqueue`] does: a null task and a priority out of
    /// range are refused and a process without a scheduler is answered
    /// `false`, changing nothing; otherwise the task is pushed on the
    /// scheduler of process `target` (see [`Scheduler::push_task`]) and the
    /// answer is whether it went in.
    pub open spec fn enqueue_post(
        old: Self,
        new: Self,
        cpu: usize,
        target: usize,
        task: usize,
        prio: isize,
        r: Result<bool, SchedError>,
    ) -> bool {
        if task == 0 {
            r == Err::<bool, SchedError>(SchedError::NullTask) && new == old
        } else if prio < HIGHEST_PRIORITY || prio > LOWEST_PRIORITY {
            r == Err::<bool, SchedError>(SchedError::PriorityOutOfRange(prio)) && new == old
        } else if old.schedulers@[target as int] is None {
            r == Ok::<bool, SchedError>(false) && new == old
        } else {
            &&& r is Ok
            &&& Self::same_cpu_state(old, new)
            &&& new.schedulers@[target as int] is Some
            &&& new.schedulers@ == old.schedulers@.update(target as int, new.schedulers@[target as int])
            &&& Scheduler::push_task_post(
                old.schedulers@[target as int]->Some_0,
                new.schedulers@[target as int]->Some_0,
                old.process_info_table,
                new.process_info_table,
                task,
                prio,
                cpu,
                old.in_kernel@[cpu as int],
                if r->Ok_0 {
                    Ok::<(), usize>(())
                } else {
                    Err::<(), usize>(task)
                },
            )
        }
    }

    /// Puts `task`, of priority `prio`, on the scheduler of process
    /// `target`; see [`VvarData::enqueue_post`].
    pub fn enqueue(&mut self, cpu: usize, target: usize, task: usize, prio: isize) -> (r: Result<
        bool,
        SchedError,
    >)
        requires
            old(self).wf(),
            cpu < CPU_NUM,
            target < PROCESS_NUM,
        ensures
            final(self).wf(),
            Self::enqueue_post(*old(self), *final(self), cpu, target, task, prio, r),
            r == Self::enqueue_result(*old(self), target, task, prio),
    {
        if task == 0 {
            return Err(SchedError::NullTask);
        }
        if prio < HIGHEST_PRIORITY || prio > LOWEST_PRIORITY {
            return Err(SchedError::PriorityOutOfRange(prio));
        }
        if self.schedulers[target].is_none() {
            return Ok(false);
        }
        let in_kernel_now = self.in_kernel[cpu];
        let ghost old_table = self.process_info_table;
        let slot = &mut self.schedulers[target];
        let res = match slot {
            Some(s) => s.push_task(&mut self.process_info_table, task, prio, cpu, in_kernel_now),
            None => Ok(()),
        };
        proof {
            assert forall|p: int|
                0 < p < PROCESS_NUM implies (#[trigger] self.process_info_table.entries()[p].scheduler
                != 0 <==> self.schedulers@[p] is Some) by {
                assert(self.process_info_table.entries()[p].scheduler == old_table.entries()[p].scheduler);
            }
        }
        Ok(res.is_ok())
    }
    /// The answer [`VvarData::enqueue`] gives in state `old`.
    pub open spec fn enqueue_result(old: Self, target: usize, task: usize, prio: isize) -> Result<
        bool,
        SchedError,
    > {
        if task == 0 {
            Err(SchedError::NullTask)
        } else if prio < HIGHEST_PRIORITY || prio > LOWEST_PRIORITY {
            Err(SchedError::PriorityOutOfRange(prio))
        } else if old.schedulers@[target as int] is None {
            Ok(false)
        } else {
            Ok(
                old.schedulers@[target as int]->Some_0.ready()@[prio - HIGHEST_PRIORITY].len()
                    < READY_QUEUE_SIZE,
            )
        }
    }

    /// The process whose scheduler takes new tasks on CPU `cpu`: the
    /// kernel's in the kernel, else that of the current address space.
    pub open spec fn current_target(&self, cpu: usize) -> usize {
        if self.in_kernel@[cpu as int] {
            0
        } else {
            self.current_vspace@[cpu as int]
        }
    }

    /// Puts `task` on the scheduler of the current process and privilege
    /// level of CPU `cpu`; answers whether it went in. The priority is the
    /// one the host reports.
    pub fn push_task_into_current<H: TaskHost>(&mut self, cpu: usize, task: usize, host: &H) -> (r:
        Result<bool, SchedError>)
        requires
            old(self).wf(),
            cpu < CPU_NUM,
        ensures
            final(self).wf(),
            exists|prio: isize|
                #[trigger] Self::enqueue_post(
                    *old(self),
                    *final(self),
                    cpu,
                    old(self).current_target(cpu),
                    task,
                    prio,
                    r,
                ),
    {
        let target = if self.in_kernel[cpu] {
            0
        } else {
            self.current_vspace[cpu]
        };
        if task == 0 {
            let r = Err(SchedError::NullTask);
            assert(Self::enqueue_post(*old(self), *self, cpu, old(self).current_target(cpu), task, 0, r));
            return r;
        }
        let prio = host.priority(task);
        let r = self.enqueue(cpu, target, task, prio);
        assert(Self::enqueue_post(*old(self), *self, cpu, old(self).current_target(cpu), task, prio, r));
        r
    }

    /// What [`VvarData::push_task`] does when the host reports that `task`
    /// runs in the kernel when `is_kernel`, in process `pid`, at priority
    /// `prio`: a kernel task goes to the kernel scheduler; a user task to the
    /// scheduler of its process, unless the process number is out of range
    /// (refused) or the process is not registered or has no scheduler
    /// (answered `false`, nothing changes).
    pub open spec fn push_task_outcome(
        old: Self,
        new: Self,
        cpu: usize,
        task: usize,
        is_kernel: bool,
        pid: usize,
        prio: isize,
        r: Result<bool, SchedError>,
    ) -> bool {
        if task == 0 {
            r == Err::<bool, SchedError>(SchedError::NullTask) && new == old
        } else if is_kernel {
            Self::enqueue_post(old, new, cpu, 0, task, prio, r)
        } else if pid >= PROCESS_NUM {
            r == Err::<bool, SchedError>(SchedError::ProcessOutOfRange(pid)) && new == old
        } else if !old.process_info_table.entries()[pid as int].valid
            || old.process_info_table.entries()[pid as int].scheduler == 0 {
            r == Ok::<bool, SchedError>(false) && new == old
        } else {
            Self::enqueue_post(old, new, cpu, pid, task, prio, r)
        }
    }

    /// Puts `task` on the scheduler it belongs to; answers whether it went
    /// in. See [`VvarData::push_task_outcome`].
    pub fn push_task<H: TaskHost>(&mut self, cpu: usize, task: usize, host: &H) -> (r: Result<
        bool,
        SchedError,
    >)
        requires
            old(self).wf(),
            cpu < CPU_NUM,
        ensures
            final(self).wf(),
            exists|is_kernel: bool, pid: usize, prio: isize|
                #[trigger] Self::push_task_outcome(
                    *old(self),
                    *final(self),
                    cpu,
                    task,
                    is_kernel,
                    pid,
                    prio,
                    r,
                ),
    {
        if task == 0 {
            let r = Err(SchedError::NullTask);
            assert(Self::push_task_outcome(*old(self), *self, cpu, task, true, 0, 0, r));
            return r;
        }
        if host.is_kernel(task) {
            let prio = host.priority(task);
            let r = self.enqueue(cpu, 0, task, prio);
            assert(Self::push_task_outcome(*old(self), *self, cpu, task, true, 0, prio, r));
            return r;
        }
        let pid = host.pid(task);
        if pid >= PROCESS_NUM {
            let r = Err(SchedError::ProcessOutOfRange(pid));
            assert(Self::push_task_outcome(*old(self), *self, cpu, task, false, pid, 0, r));
            return r;
        }
        if process_scheduler(&self.process_info_table, pid).is_none() {
            let r = Ok(false);
            assert(Self::push_task_outcome(*old(self), *self, cpu, task, false, pid, 0, r));
            return r;
        }
        let prio = host.priority(task);
        let r = self.enqueue(cpu, pid, task, prio);
        assert(Self::push_task_outcome(*old(self), *self, cpu, task, false, pid, prio, r));
        r
    }

    /// Puts `task` on the scheduler of process `pid`; answers whether it
    /// went in: `false`, changing nothing, when the process is not
    /// registered or has no scheduler.
    pub fn push_task_into_process<H: TaskHost>(
        &mut self,
        cpu: usize,
        task: usize,
        pid: usize,
        host: &H,
    ) -> (r: Result<bool, SchedError>)
        requires
            old(self).wf(),
            cpu < CPU_NUM,
            pid < PROCESS_NUM,
        ensures
            final(self).wf(),
            !old(self).process_info_table.entries()[pid as int].valid
                || old(self).process_info_table.entries()[pid as int].scheduler == 0 ==> r == Ok::<
                bool,
                SchedError,
            >(false) && *final(self) == *old(self),
            old(self).process_info_table.entries()[pid as int].valid
                && old(self).process_info_table.entries()[pid as int].scheduler != 0 ==> exists|
                prio: isize,
            | #[trigger] Self::enqueue_post(*old(self), *final(self), cpu, pid, task, prio, r),
    {
        if process_scheduler(&self.process_info_table, pid).is_none() {
            return Ok(false);
        }
        if task == 0 {
            let r = Err(SchedError::NullTask);
            assert(Self::enqueue_post(*old(self), *self, cpu, pid, task, 0, r));
            return r;
        }
        let prio = host.priority(task);
        let r = self.enqueue(cpu, pid, task, prio);
        assert(Self::enqueue_post(*old(self), *self, cpu, pid, task, prio, r));
        r
    }
    /// The process whose scheduler a ready task goes back to: the kernel's
    /// for a kernel task or a process without a scheduler, else its own.
    pub open spec fn requeue_pid(old: Self, is_kernel: bool, pid: usize) -> usize {
        if is_kernel || old.process_info_table.entries()[pid as int].scheduler == 0 {
            0
        } else {
            pid
        }
    }

    /// What [`VvarData::push_prev_task`] answers when the current task of
    /// CPU `cpu` left it in state `state`, the host reporting `is_kernel`,
    /// `pid` and `prio` for it: the task to free, which is the task itself
    /// when it exited and none otherwise; or why a ready task could not go
    /// back.
    pub open spec fn prev_task_result(
        old: Self,
        cpu: usize,
        state: TaskState,
        is_kernel: bool,
        pid: usize,
        prio: isize,
    ) -> Result<Option<usize>, SchedError> {
        let task = old.current_task@[cpu as int];
        match state {
            TaskState::Ready => if !is_kernel && pid >= PROCESS_NUM {
                Err(SchedError::ProcessOutOfRange(pid))
            } else {
                match Self::enqueue_result(old, Self::requeue_pid(old, is_kernel, pid), task, prio) {
                    Ok(true) => Ok(None),
                    Ok(false) => Err(SchedError::RequeueFailed(task)),
                    Err(e) => Err(e),
                }
            },
            TaskState::Exited => Ok(Some(task)),
            _ => Ok(None),
        }
    }

    /// What [`VvarData::push_prev_task`] does to the state: a ready task is
    /// pushed back on its scheduler (see [`VvarData::requeue_pid`]); nothing
    /// else changes the state.
    pub open spec fn prev_task_post(
        old: Self,
        new: Self,
        cpu: usize,
        state: TaskState,
        is_kernel: bool,
        pid: usize,
        prio: isize,
    ) -> bool {
        let task = old.current_task@[cpu as int];
        match state {
            TaskState::Ready => if !is_kernel && pid >= PROCESS_NUM {
                new == old
            } else {
                let target = Self::requeue_pid(old, is_kernel, pid);
                Self::enqueue_post(
                    old,
                    new,
                    cpu,
                    target,
                    task,
                    prio,
                    Self::enqueue_result(old, target, task, prio),
                )
            },
            _ => new == old,
        }
    }

    /// Puts the task that just left CPU `cpu` where its new state `state`
    /// says: a ready task back on its scheduler (failing when it does not go
    /// in); an exited one is returned, to be freed; any other stays where it
    /// waits.
    pub fn push_prev_task<H: TaskHost>(&mut self, cpu: usize, state: TaskState, host: &H) -> (r:
        Result<Option<usize>, SchedError>)
        requires
            old(self).wf(),
            cpu < CPU_NUM,
        ensures
            final(self).wf(),
            exists|is_kernel: bool, pid: usize, prio: isize|
                #[trigger] Self::prev_task_post(
                    *old(self),
                    *final(self),
                    cpu,
                    state,
                    is_kernel,
                    pid,
                    prio,
                ) && r == Self::prev_task_result(*old(self), cpu, state, is_kernel, pid, prio),
    {
        let task = self.current_task[cpu];
        match prev_task_action(state) {
            PrevTaskAction::Requeue => {
                let is_kernel = host.is_kernel(task);
                let pid = if is_kernel {
                    0
                } else {
                    host.pid(task)
                };
                if !is_kernel && pid >= PROCESS_NUM {
                    let r = Err(SchedError::ProcessOutOfRange(pid));
                    assert(Self::prev_task_post(*old(self), *self, cpu, state, is_kernel, pid, 0));
                    return r;
                }
                let target = match requeue_target(&self.process_info_table, is_kernel, pid) {
                    None => 0,
                    Some(_) => pid,
                };
                let prio = host.priority(task);
                let res = self.enqueue(cpu, target, task, prio);
                assert(Self::prev_task_post(*old(self), *self, cpu, state, is_kernel, pid, prio));
                match res {
                    Ok(true) => Ok(None),
                    Ok(false) => Err(SchedError::RequeueFailed(task)),
                    Err(e) => Err(e),
                }
            },
            PrevTaskAction::Dealloc => {
                assert(Self::prev_task_post(*old(self), *self, cpu, state, true, 0, 0));
                Ok(Some(task))
            },
            PrevTaskAction::Keep => {
                assert(Self::prev_task_post(*old(self), *self, cpu, state, true, 0, 0));
                Ok(None)
            },
        }
    }

    /// What is left to do once the current task of CPU `cpu`, found in
    /// state `now`, left it in state `after` and was put away with answer
    /// `pushed` (see [`VvarData::push_prev_task`]): go to the kernel
    /// scheduler (0) or the user scheduler (1), give the task state `after`
    /// when it differs from `now`, and free the task `pushed` names. An error
    /// of [`VvarData::push_prev_task`] is passed on.
    pub open spec fn entry_result(
        old: Self,
        cpu: usize,
        now: TaskState,
        after: TaskState,
        pushed: Result<Option<usize>, SchedError>,
    ) -> Result<YieldOutcome, SchedError> {
        match pushed {
            Ok(free) => Ok(
                YieldOutcome {
                    next: if old.in_kernel@[cpu as int] {
                        0usize
                    } else {
                        1usize
                    },
                    task: old.current_task@[cpu as int],
                    set_state: if after != now {
                        Some(after)
                    } else {
                        None
                    },
                    free,
                },
            ),
            Err(e) => Err(e),
        }
    }

    /// A thread gives up CPU `cpu`: a blocking thread becomes blocked and a
    /// running one ready (the host reports its state as `state`); it is put
    /// away (see [`VvarData::push_prev_task`]); the answer (see
    /// [`VvarData::entry_result`]) says which scheduler runs next, the state
    /// to give the thread and whether to free it.
    pub fn thread_entry<H: TaskHost>(&mut self, cpu: usize, host: &H) -> (r: Result<YieldOutcome, SchedError>)
        requires
            old(self).wf(),
            cpu < CPU_NUM,
        ensures
            final(self).wf(),
            exists|state: TaskState, is_kernel: bool, pid: usize, prio: isize|
                #[trigger] Self::prev_task_post(
                    *old(self),
                    *final(self),
                    cpu,
                    after_thread_yield(state),
                    is_kernel,
                    pid,
                    prio,
                ) && r == Self::entry_result(
                    *old(self),
                    cpu,
                    state,
                    after_thread_yield(state),
                    Self::prev_task_result(*old(self), cpu, after_thread_yield(state), is_kernel, pid, prio),
                ),
    {
        let task = self.current_task[cpu];
        let now = host.state(task);
        let next = thread_entry_state(now);
        let pushed = self.push_prev_task(cpu, next, host);
        match pushed {
            Ok(free) => Ok(
                YieldOutcome {
                    next: entry_target(self.in_kernel[cpu]),
                    task,
                    set_state: if next != now {
                        Some(next)
                    } else {
                        None
                    },
                    free,
                },
            ),
            Err(e) => Err(e),
        }
    }

    /// A coroutine was polled on CPU `cpu` and gave it up, `finished` when
    /// it completed: it becomes exited, or blocked when it was blocking or
    /// still running (the host reports its state as `state`); it is put
    /// away (see [`VvarData::push_prev_task`]); the answer (see
    /// [`VvarData::entry_result`]) says which scheduler runs next, the state
    /// to give the coroutine and whether to free it.
    pub fn coroutine_exit<H: TaskHost>(&mut self, cpu: usize, finished: bool, host: &H) -> (r:
        Result<YieldOutcome, SchedError>)
        requires
            old(self).wf(),
            cpu < CPU_NUM,
        ensures
            final(self).wf(),
            exists|state: TaskState, is_kernel: bool, pid: usize, prio: isize|
                #[trigger] Self::prev_task_post(
                    *old(self),
                    *final(self),
                    cpu,
                    after_coroutine_poll(finished, state),
                    is_kernel,
                    pid,
                    prio,
                ) && r == Self::entry_result(
                    *old(self),
                    cpu,
                    state,
                    after_coroutine_poll(finished, state),
                    Self::prev_task_result(
                        *old(self),
                        cpu,
                        after_coroutine_poll(finished, state),
                        is_kernel,
                        pid,
                        prio,
                    ),
                ),
    {
        let task = self.current_task[cpu];
        let now = host.state(task);
        let next = coroutine_yield_state(finished, now);
        let pushed = self.push_prev_task(cpu, next, host);
        match pushed {
            Ok(free) => Ok(
                YieldOutcome {
                    next: entry_target(self.in_kernel[cpu]),
                    task,
                    set_state: if next != now {
                        Some(next)
                    } else {
                        None
                    },
                    free,
                },
            ),
            Err(e) => Err(e),
        }
    }
    /// What [`VvarData::trap_entry`] does, the host answering `stack` for a
    /// new stack, `is_kernel`, `pid` and `prio` for the interrupted task and
    /// `info` for its trap record; `mid` is the state once the privilege
    /// level and the stacks are set, `mid2` once the task is put away.
    ///
    /// An unknown trap is refused, changing nothing. A switch request only
    /// records the privilege level. Otherwise the trap needs a trap stack
    /// (in the kernel) and the kernel scheduler (when it queues a record);
    /// without them nothing changes. Then: the privilege level is recorded;
    /// in the kernel a new trap stack is set and the old one becomes current
    /// (see [`trap_stacks_post`]); the task gets its new state and is put
    /// away (see [`VvarData::push_prev_task`]) and is to get its new state;
    /// and, where the plan says
    /// so, the trap record (with the task for a synchronous trap) goes on
    /// the kernel scheduler's trap queue of this CPU, failing when it is
    /// full.
    pub open spec fn trap_entry_post(
        old: Self,
        mid: Self,
        mid2: Self,
        new: Self,
        cpu: usize,
        trap_type: usize,
        privilege: usize,
        stack: usize,
        is_kernel: bool,
        pid: usize,
        prio: isize,
        info: usize,
        r: Result<TrapEntryOutcome, SchedError>,
    ) -> bool {
        match trap_plan(trap_type, privilege) {
            Err(e) => r == Err::<TrapEntryOutcome, SchedError>(SchedError::Trap(e)) && new == old,
            Ok(plan) => match plan.new_state {
                None => {
                    &&& r == Ok::<TrapEntryOutcome, SchedError>(
                        TrapEntryOutcome { next: plan.next, trap_stack: None, task_state: None },
                    )
                    &&& new == (VvarData { in_kernel: new.in_kernel, ..old })
                    &&& new.in_kernel@ == old.in_kernel@.update(cpu as int, plan.in_kernel)
                },
                Some(ns) => if plan.in_kernel && old.kernel_stacks.trap(cpu as int) is None {
                    r == Err::<TrapEntryOutcome, SchedError>(SchedError::NoTrapStack) && new == old
                } else if plan.queue_trap is Some && old.schedulers@[0] is None {
                    r == Err::<TrapEntryOutcome, SchedError>(SchedError::NotInitialised) && new
                        == old
                } else {
                    let task = old.current_task@[cpu as int];
                    let pushed = Self::prev_task_result(mid, cpu, ns, is_kernel, pid, prio);
                    let done = TrapEntryOutcome {
                        next: plan.next,
                        trap_stack: if plan.in_kernel {
                            Some(stack)
                        } else {
                            None
                        },
                        task_state: Some(ns),
                    };
                    &&& mid == (VvarData {
                        in_kernel: mid.in_kernel,
                        kernel_stacks: mid.kernel_stacks,
                        ..old
                    })
                    &&& mid.in_kernel@ == old.in_kernel@.update(cpu as int, plan.in_kernel)
                    &&& if plan.in_kernel {
                        trap_stacks_post(old.kernel_stacks, mid.kernel_stacks, cpu, stack)
                    } else {
                        mid.kernel_stacks == old.kernel_stacks
                    }
                    &&& Self::prev_task_post(mid, mid2, cpu, ns, is_kernel, pid, prio)
                    &&& if pushed is Err {
                        r == Err::<TrapEntryOutcome, SchedError>(pushed->Err_0) && new == mid2
                    } else {
                        match plan.queue_trap {
                            None => {
                                &&& new == mid2
                                &&& r == Ok::<TrapEntryOutcome, SchedError>(done)
                            },
                            Some(with_task) => {
                                let task_opt = if with_task {
                                    Some(task)
                                } else {
                                    None::<usize>
                                };
                                let room = mid2.schedulers@[0]->Some_0.traps().traps()[cpu as int].len()
                                    < TRAP_WAIT_QUEUE_SIZE;
                                &&& new.schedulers@[0] is Some
                                &&& new == (VvarData {
                                    schedulers: new.schedulers,
                                    process_info_table: new.process_info_table,
                                    ..mid2
                                })
                                &&& new.schedulers@ == mid2.schedulers@.update(0, new.schedulers@[0])
                                &&& Scheduler::push_trap_post(
                                    mid2.schedulers@[0]->Some_0,
                                    new.schedulers@[0]->Some_0,
                                    mid2.process_info_table,
                                    new.process_info_table,
                                    info,
                                    task_opt,
                                    cpu,
                                    true,
                                    if room {
                                        Ok::<(), (usize, Option<usize>)>(())
                                    } else {
                                        Err::<(), (usize, Option<usize>)>((info, task_opt))
                                    },
                                )
                                &&& if room {
                                    r == Ok::<TrapEntryOutcome, SchedError>(done)
                                } else {
                                    r == Err::<TrapEntryOutcome, SchedError>(SchedError::TrapQueueFull)
                                }
                            },
                        }
                    }
                },
            },
        }
    }

    /// A trap of type `trap_type` (0 synchronous, 1 external interrupt, 2 a
    /// user scheduler asking the kernel to switch) entered the scheduler on
    /// CPU `cpu`, at privilege `privilege` (0 kernel, 1 user). See
    /// [`VvarData::trap_entry_post`]; the answer says where to go next, the
    /// new trap stack when it changed (the new trap stack of the CPU), and
    /// the state to give the interrupted task. The trap type and privilege
    /// must be ones [`trap_plan`] knows.
    pub fn trap_entry<S: Stack, H: TaskHost>(
        &mut self,
        cpu: usize,
        trap_type: usize,
        privilege: usize,
        host: &H,
    ) -> (r: Result<TrapEntryOutcome, SchedError>)
        requires
            old(self).wf(),
            cpu < CPU_NUM,
            trap_plan(trap_type, privilege) is Ok,
        ensures
            final(self).wf(),
            exists|
                mid: Self,
                mid2: Self,
                stack: usize,
                is_kernel: bool,
                pid: usize,
                prio: isize,
                info: usize,
            |
                #[trigger] Self::trap_entry_post(
                    *old(self),
                    mid,
                    mid2,
                    *final(self),
                    cpu,
                    trap_type,
                    privilege,
                    stack,
                    is_kernel,
                    pid,
                    prio,
                    info,
                    r,
                ),
    {
        let plan = match trap_entry_plan(trap_type, privilege) {
            Ok(p) => p,
            Err(e) => {
                let r = Err(SchedError::Trap(e));
                assert(Self::trap_entry_post(*old(self), *self, *self, *self, cpu, trap_type, privilege, 0, true, 0, 0, 0, r));
                return r;
            },
        };
        let ns = match plan.new_state {
            None => {
                self.in_kernel.set(cpu, plan.in_kernel);
                let r = Ok(TrapEntryOutcome { next: plan.next, trap_stack: None, task_state: None });
                assert(Self::trap_entry_post(*old(self), *self, *self, *self, cpu, trap_type, privilege, 0, true, 0, 0, 0, r));
                return r;
            },
            Some(ns) => ns,
        };
        if plan.in_kernel && self.kernel_stacks.trap_stack_of(cpu).is_none() {
            let r = Err(SchedError::NoTrapStack);
            assert(Self::trap_entry_post(*old(self), *self, *self, *self, cpu, trap_type, privilege, 0, true, 0, 0, 0, r));
            return r;
        }
        if plan.queue_trap.is_some() && self.schedulers[0].is_none() {
            let r = Err(SchedError::NotInitialised);
            assert(Self::trap_entry_post(*old(self), *self, *self, *self, cpu, trap_type, privilege, 0, true, 0, 0, 0, r));
            return r;
        }
        self.in_kernel.set(cpu, plan.in_kernel);
        let mut trap_stack: Option<usize> = None;
        let mut new_stack: usize = 0;
        if plan.in_kernel {
            new_stack = self.kernel_stacks.alloc_stack::<S>();
            trap_stack = Some(new_stack);
            let entered = self.kernel_stacks.set_trap_stack(new_stack, cpu);
            match entered {
                Some(t) => {
                    self.kernel_stacks.set_current_stack(t, cpu);
                },
                None => {},
            }
        }
        let ghost mid = *self;
        let task = self.current_task[cpu];
        let pushed = self.push_prev_task(cpu, ns, host);
        let ghost mid2 = *self;
        let ghost (k, pid, prio) = choose|k: bool, pid: usize, prio: isize|
            #[trigger] Self::prev_task_post(mid, mid2, cpu, ns, k, pid, prio) && pushed
                == Self::prev_task_result(mid, cpu, ns, k, pid, prio);
        let done = TrapEntryOutcome { next: plan.next, trap_stack, task_state: Some(ns) };
        match pushed {
            Err(e) => {
                let r = Err(e);
                assert(Self::trap_entry_post(*old(self), mid, mid2, *self, cpu, trap_type, privilege, new_stack, k, pid, prio, 0, r));
                return r;
            },
            Ok(_) => {},
        }
        match plan.queue_trap {
            None => {
                let r = Ok(done);
                assert(Self::trap_entry_post(*old(self), mid, mid2, *self, cpu, trap_type, privilege, new_stack, k, pid, prio, 0, r));
                r
            },
            Some(with_task) => {
                let info = host.trap_info(task);
                let task_opt = if with_task {
                    Some(task)
                } else {
                    None
                };
                let ghost old_table = self.process_info_table;
                let slot = &mut self.schedulers[0];
                let res = match slot {
                    Some(k) => k.push_trap(&mut self.process_info_table, info, task_opt, cpu, true),
                    None => Ok(()),
                };
                proof {
                    assert forall|p: int|
                        0 < p < PROCESS_NUM implies (#[trigger] self.process_info_table.entries()[p].scheduler
                        != 0 <==> self.schedulers@[p] is Some) by {
                        assert(self.process_info_table.entries()[p].scheduler == old_table.entries()[p].scheduler);
                    }
                }
                let r = match res {
                    Ok(()) => Ok(done),
                    Err(_) => Err(SchedError::TrapQueueFull),
                };
                assert(Self::trap_entry_post(*old(self), mid, mid2, *self, cpu, trap_type, privilege, new_stack, k, pid, prio, info, r));
                r
            },
        }
    }
    /// The next task of process `pid` was taken from its scheduler, with
    /// outcome `popped` (see [`Scheduler::pop_task`]); only that scheduler
    /// and the priority recorded for it changed.
    pub open spec fn popped_from(
        old: Self,
        new: Self,
        cpu: usize,
        pid: usize,
        popped: Result<Taken, TaskState>,
    ) -> bool {
        let s = old.schedulers@[pid as int]->Some_0;
        let ik = s.uses_kernel(old.in_kernel@[cpu as int]);
        &&& new.schedulers@[pid as int] is Some
        &&& new == (VvarData {
            schedulers: new.schedulers,
            process_info_table: new.process_info_table,
            ..old
        })
        &&& new.schedulers@ == old.schedulers@.update(pid as int, new.schedulers@[pid as int])
        &&& exists|ps: Seq<isize>|
            #[trigger] s.prios_ok(ps, cpu, ik) && Scheduler::pop_outcome(
                s,
                new.schedulers@[pid as int]->Some_0,
                old.process_info_table,
                new.process_info_table,
                ps,
                cpu,
                ik,
                popped,
            )
    }

    /// Takes the next task of process `pid` from its scheduler.
    fn pop_from<H: TaskHost>(&mut self, cpu: usize, pid: usize, host: &H) -> (r: Result<
        Taken,
        TaskState,
    >)
        requires
            old(self).wf(),
            cpu < CPU_NUM,
            pid < PROCESS_NUM,
            old(self).schedulers@[pid as int] is Some,
        ensures
            final(self).wf(),
            Self::popped_from(*old(self), *final(self), cpu, pid, r),
    {
        let in_kernel_now = self.in_kernel[cpu];
        let ghost old_table = self.process_info_table;
        let slot = &mut self.schedulers[pid];
        let r = match slot {
            Some(s) => s.pop_task(&mut self.process_info_table, cpu, in_kernel_now, host),
            None => Ok(Taken { task: None, prio: isize::MAX, trap_of: None }),
        };
        proof {
            assert forall|p: int|
                0 < p < PROCESS_NUM implies (#[trigger] self.process_info_table.entries()[p].scheduler
                != 0 <==> self.schedulers@[p] is Some) by {
                assert(self.process_info_table.entries()[p].scheduler == old_table.entries()[p].scheduler);
            }
        }
        r
    }

    /// The process to run next, seen from process `current`: the valid
    /// process of the highest priority, `current` among equals (see
    /// [`ProcessInfoTable::highest_prio_process`]); fails when the table
    /// has no valid process to pick.
    pub fn process_schedule(&self, current: usize) -> (r: Result<usize, SchedError>)
        requires
            self.wf(),
        ensures
            r == (if scan_has_valid(
                self.process_info_table.entries(),
                scan_start(self.process_info_table.next()),
                self.process_info_table.next() as int,
            ) {
                Ok::<usize, SchedError>(
                    pick_process(
                        self.process_info_table.entries(),
                        self.process_info_table.next(),
                        current,
                    ),
                )
            } else {
                Err::<usize, SchedError>(SchedError::NoProcess)
            }),
    {
        if self.process_info_table.has_process_to_pick() {
            Ok(self.process_info_table.highest_prio_process(current))
        } else {
            Err(SchedError::NoProcess)
        }
    }

    /// What [`VvarData::ktask_schedule`] does for process `next_pid` on CPU
    /// `cpu`; `mid` is the state after the taking, whose outcome is
    /// `popped`, and `tpid` is the process the host reports for the task
    /// taken from the kernel scheduler.
    ///
    /// A process without a scheduler is refused, changing nothing. For the
    /// kernel (0), the task is taken first, then the CPU moves to the
    /// address space of the task's process and runs it as a kernel task.
    /// For a user process, the CPU first moves to its address space, then
    /// the task is taken and run as a user task. With no task the answer is
    /// to pick again; an invalid trap handler state is passed on.
    pub open spec fn ktask_post(
        old: Self,
        mid: Self,
        new: Self,
        cpu: usize,
        next_pid: usize,
        popped: Result<Taken, TaskState>,
        tpid: usize,
        r: Result<KtaskOutcome, SchedError>,
    ) -> bool {
        if old.schedulers@[next_pid as int] is None {
            r == Err::<KtaskOutcome, SchedError>(SchedError::NotInitialised) && new == old
        } else if next_pid == 0 {
            &&& Self::popped_from(old, mid, cpu, 0, popped)
            &&& match popped {
                Err(st) => r == Err::<KtaskOutcome, SchedError>(SchedError::HandlerState(st)) && new
                    == mid,
                Ok(Taken { task: None::<usize>, .. }) => r == Ok::<KtaskOutcome, SchedError>(
                    KtaskOutcome::Retry { switch_to: None },
                ) && new == mid,
                Ok(Taken { task: Some(task), trap_of, .. }) => (trap_of == Some(None::<usize>)
                    ==> tpid == 0) && if tpid >= PROCESS_NUM {
                    r == Err::<KtaskOutcome, SchedError>(SchedError::ProcessOutOfRange(tpid)) && new
                        == mid
                } else {
                    &&& new == (VvarData {
                        current_task: new.current_task,
                        current_vspace: new.current_vspace,
                        ..mid
                    })
                    &&& new.current_task@ == mid.current_task@.update(cpu as int, task)
                    &&& new.current_vspace@ == mid.current_vspace@.update(cpu as int, tpid)
                    &&& r == Ok::<KtaskOutcome, SchedError>(
                        KtaskOutcome::Run {
                            next: 0,
                            switch_to: vspace_switch(
                                mid.process_info_table,
                                mid.current_vspace@[cpu as int],
                                tpid,
                            ),
                            set_pid: handler_pid(trap_of, tpid),
                        },
                    )
                },
            }
        } else {
            let switch_to = vspace_switch(
                old.process_info_table,
                old.current_vspace@[cpu as int],
                next_pid,
            );
            &&& mid.current_vspace@ == old.current_vspace@.update(cpu as int, next_pid)
            &&& Self::popped_from(
                old,
                VvarData { current_vspace: old.current_vspace, ..mid },
                cpu,
                next_pid,
                popped,
            )
            &&& match popped {
                Err(st) => r == Err::<KtaskOutcome, SchedError>(SchedError::HandlerState(st)) && new
                    == mid,
                Ok(Taken { task: None::<usize>, .. }) => r == Ok::<KtaskOutcome, SchedError>(
                    KtaskOutcome::Retry { switch_to },
                ) && new == mid,
                Ok(Taken { task: Some(task), trap_of, .. }) => {
                    &&& trap_of == Some(None::<usize>) ==> tpid == 0
                    &&& new == (VvarData { current_task: new.current_task, ..mid })
                    &&& new.current_task@ == mid.current_task@.update(cpu as int, task)
                    &&& r == Ok::<KtaskOutcome, SchedError>(
                        KtaskOutcome::Run { next: 1, switch_to, set_pid: handler_pid(trap_of, tpid) },
                    )
                },
            }
        }
    }

    /// In the kernel on CPU `cpu`, takes the next task of process `next_pid`
    /// and makes it current; see [`VvarData::ktask_post`].
    pub fn ktask_schedule<H: TaskHost>(&mut self, cpu: usize, next_pid: usize, host: &H) -> (r: Result<
        KtaskOutcome,
        SchedError,
    >)
        requires
            old(self).wf(),
            cpu < CPU_NUM,
            next_pid < PROCESS_NUM,
        ensures
            final(self).wf(),
            exists|mid: Self, popped: Result<Taken, TaskState>, tpid: usize|
                #[trigger] Self::ktask_post(*old(self), mid, *final(self), cpu, next_pid, popped, tpid, r),
    {
        if self.schedulers[next_pid].is_none() {
            let r = Err(SchedError::NotInitialised);
            assert(Self::ktask_post(*old(self), *self, *self, cpu, next_pid, Ok(Taken { task: None, prio: 0, trap_of: None }), 0, r));
            return r;
        }
        if next_pid == 0 {
            let popped = self.pop_from(cpu, 0, host);
            let ghost mid = *self;
            match popped {
                Err(st) => {
                    let r = Err(SchedError::HandlerState(st));
                    assert(Self::ktask_post(*old(self), mid, *self, cpu, next_pid, popped, 0, r));
                    r
                },
                Ok(Taken { task: None, .. }) => {
                    let r = Ok(KtaskOutcome::Retry { switch_to: None });
                    assert(Self::ktask_post(*old(self), mid, *self, cpu, next_pid, popped, 0, r));
                    r
                },
                Ok(Taken { task: Some(task), trap_of, .. }) => {
                    let tpid = taken_pid(task, trap_of, host);
                    if tpid >= PROCESS_NUM {
                        let r = Err(SchedError::ProcessOutOfRange(tpid));
                        assert(Self::ktask_post(*old(self), mid, *self, cpu, next_pid, popped, tpid, r));
                        return r;
                    }
                    let mut cv = self.current_vspace[cpu];
                    let switch_to = switch_vspace(&mut cv, tpid, &self.process_info_table);
                    self.current_vspace.set(cpu, cv);
                    self.current_task.set(cpu, task);
                    let r = Ok(KtaskOutcome::Run { next: 0, switch_to, set_pid: handler_pid_of(trap_of, tpid) });
                    assert(Self::ktask_post(*old(self), mid, *self, cpu, next_pid, popped, tpid, r));
                    r
                },
            }
        } else {
            let mut cv = self.current_vspace[cpu];
            let switch_to = switch_vspace(&mut cv, next_pid, &self.process_info_table);
            self.current_vspace.set(cpu, cv);
            let popped = self.pop_from(cpu, next_pid, host);
            let ghost mid = *self;
            assert(Self::popped_from(*old(self), VvarData { current_vspace: old(self).current_vspace, ..mid }, cpu, next_pid, popped));
            match popped {
                Err(st) => {
                    let r = Err(SchedError::HandlerState(st));
                    assert(Self::ktask_post(*old(self), mid, *self, cpu, next_pid, popped, 0, r));
                    r
                },
                Ok(Taken { task: None, .. }) => {
                    let r = Ok(KtaskOutcome::Retry { switch_to });
                    assert(Self::ktask_post(*old(self), mid, *self, cpu, next_pid, popped, 0, r));
                    r
                },
                Ok(Taken { task: Some(task), trap_of, .. }) => {
                    let tpid = match trap_of {
                        Some(_) => taken_pid(task, trap_of, host),
                        None => 0,
                    };
                    self.current_task.set(cpu, task);
                    let r = Ok(KtaskOutcome::Run { next: 1, switch_to, set_pid: handler_pid_of(trap_of, tpid) });
                    assert(Self::ktask_post(*old(self), mid, *self, cpu, next_pid, popped, tpid, r));
                    r
                },
            }
        }
    }
    /// What [`VvarData::process_schedule`] answers.
    pub open spec fn picked(old: Self, current: usize) -> Result<usize, SchedError> {
        if scan_has_valid(
            old.process_info_table.entries(),
            scan_start(old.process_info_table.next()),
            old.process_info_table.next() as int,
        ) {
            Ok(pick_process(old.process_info_table.entries(), old.process_info_table.next(), current))
        } else {
            Err(SchedError::NoProcess)
        }
    }

    /// One round of the kernel scheduler on CPU `cpu`: picks the process to
    /// run, seen from the kernel (see [`VvarData::process_schedule`]), and
    /// takes its next task (see [`VvarData::ktask_schedule`]).
    pub fn kschedule_step<H: TaskHost>(&mut self, cpu: usize, host: &H) -> (r: Result<
        KtaskOutcome,
        SchedError,
    >)
        requires
            old(self).wf(),
            cpu < CPU_NUM,
        ensures
            final(self).wf(),
            Self::picked(*old(self), 0) is Err ==> r == Err::<KtaskOutcome, SchedError>(
                SchedError::NoProcess,
            ) && *final(self) == *old(self),
            Self::picked(*old(self), 0) is Ok ==> exists|
                mid: Self,
                popped: Result<Taken, TaskState>,
                tpid: usize,
            |
                #[trigger] Self::ktask_post(
                    *old(self),
                    mid,
                    *final(self),
                    cpu,
                    Self::picked(*old(self), 0)->Ok_0,
                    popped,
                    tpid,
                    r,
                ),
    {
        let next_pid = match self.process_schedule(0) {
            Ok(p) => p,
            Err(e) => {
                return Err(e);
            },
        };
        proof {
            law_pick_highest(self.process_info_table.entries(), self.process_info_table.next(), 0);
        }
        self.ktask_schedule(cpu, next_pid, host)
    }

    /// What [`VvarData::utask_schedule`] does on CPU `cpu`, at user level in
    /// the address space of process `cur`, when process `next_pid` is to
    /// run; `popped` is the outcome of taking a task.
    ///
    /// When `next_pid` is `cur`, its next task is taken and made current
    /// (the answer says to run it, or to pick again when there was none).
    /// Otherwise the CPU is marked as in the address space of `next_pid`,
    /// it leaves its stack (see [`thread_stack_post`]) and the answer is to
    /// enter the kernel. A process without a scheduler or stack pool is
    /// refused, changing nothing.
    pub open spec fn utask_post(
        old: Self,
        mid: Self,
        new: Self,
        cpu: usize,
        next_pid: usize,
        popped: Result<Taken, TaskState>,
        tpid: usize,
        r: Result<UtaskOutcome, SchedError>,
    ) -> bool {
        let cur = old.current_vspace@[cpu as int];
        if next_pid == cur {
            if old.schedulers@[cur as int] is None {
                r == Err::<UtaskOutcome, SchedError>(SchedError::NotInitialised) && new == old
            } else {
                &&& Self::popped_from(old, mid, cpu, cur, popped)
                &&& match popped {
                    Err(st) => r == Err::<UtaskOutcome, SchedError>(SchedError::HandlerState(st))
                        && new == mid,
                    Ok(Taken { task: None::<usize>, .. }) => r == Ok::<UtaskOutcome, SchedError>(
                        UtaskOutcome::Retry,
                    ) && new == mid,
                    Ok(Taken { task: Some(task), trap_of, .. }) => {
                        &&& trap_of == Some(None::<usize>) ==> tpid == 0
                        &&& new == (VvarData { current_task: new.current_task, ..mid })
                        &&& new.current_task@ == mid.current_task@.update(cpu as int, task)
                        &&& r == Ok::<UtaskOutcome, SchedError>(
                            UtaskOutcome::Run { set_pid: handler_pid(trap_of, tpid) },
                        )
                    },
                }
            }
        } else if old.user_stacks@[cur as int] is None {
            r == Err::<UtaskOutcome, SchedError>(SchedError::NotInitialised) && new == old
        } else {
            &&& r == Ok::<UtaskOutcome, SchedError>(UtaskOutcome::IntoKernel)
            &&& new == (VvarData {
                current_vspace: new.current_vspace,
                user_stacks: new.user_stacks,
                ..old
            })
            &&& new.current_vspace@ == old.current_vspace@.update(cpu as int, next_pid)
            &&& new.user_stacks@[cur as int] is Some
            &&& new.user_stacks@ == old.user_stacks@.update(cur as int, new.user_stacks@[cur as int])
            &&& thread_stack_post(
                old.user_stacks@[cur as int]->Some_0,
                new.user_stacks@[cur as int]->Some_0,
                cpu,
                None,
            )
        }
    }

    /// At user level on CPU `cpu`, acts on the choice of process `next_pid`;
    /// see [`VvarData::utask_post`].
    pub fn utask_schedule<S: Stack, H: TaskHost>(
        &mut self,
        cpu: usize,
        next_pid: usize,
        stack_status: usize,
        host: &H,
    ) -> (r: Result<UtaskOutcome, SchedError>)
        requires
            old(self).wf(),
            cpu < CPU_NUM,
            next_pid < PROCESS_NUM,
        ensures
            final(self).wf(),
            exists|mid: Self, popped: Result<Taken, TaskState>, tpid: usize|
                #[trigger] Self::utask_post(*old(self), mid, *final(self), cpu, next_pid, popped, tpid, r),
    {
        let cur = self.current_vspace[cpu];
        if next_pid == cur {
            if self.schedulers[cur].is_none() {
                let r = Err(SchedError::NotInitialised);
                assert(Self::utask_post(*old(self), *self, *self, cpu, next_pid, Ok(Taken { task: None, prio: 0, trap_of: None }), 0, r));
                return r;
            }
            let popped = self.pop_from(cpu, cur, host);
            let ghost mid = *self;
            let mut tpid: usize = 0;
            let r = match popped {
                Err(st) => Err(SchedError::HandlerState(st)),
                Ok(Taken { task: None, .. }) => Ok(UtaskOutcome::Retry),
                Ok(Taken { task: Some(task), trap_of, .. }) => {
                    if trap_of.is_some() {
                        tpid = taken_pid(task, trap_of, host);
                    }
                    self.current_task.set(cpu, task);
                    Ok(UtaskOutcome::Run { set_pid: handler_pid_of(trap_of, tpid) })
                },
            };
            assert(Self::utask_post(*old(self), mid, *self, cpu, next_pid, popped, tpid, r));
            r
        } else {
            if self.user_stacks[cur].is_none() {
                let r = Err(SchedError::NotInitialised);
                assert(Self::utask_post(*old(self), *self, *self, cpu, next_pid, Ok(Taken { task: None, prio: 0, trap_of: None }), 0, r));
                return r;
            }
            self.current_vspace.set(cpu, next_pid);
            let slot = &mut self.user_stacks[cur];
            match slot {
                Some(h) => h.get_thread_stack::<S>(None, stack_status, cpu),
                None => {},
            }
            let r = Ok(UtaskOutcome::IntoKernel);
            assert(Self::utask_post(*old(self), *self, *self, cpu, next_pid, Ok(Taken { task: None, prio: 0, trap_of: None }), 0, r));
            r
        }
    }

    /// One round of the user scheduler on CPU `cpu`: picks the process to
    /// run, seen from the current one (see [`VvarData::process_schedule`]),
    /// and acts on it (see [`VvarData::utask_schedule`]).
    pub fn uschedule_step<S: Stack, H: TaskHost>(
        &mut self,
        cpu: usize,
        stack_status: usize,
        host: &H,
    ) -> (r: Result<UtaskOutcome, SchedError>)
        requires
            old(self).wf(),
            cpu < CPU_NUM,
        ensures
            final(self).wf(),
            Self::picked(*old(self), old(self).current_vspace@[cpu as int]) is Err ==> r == Err::<
                UtaskOutcome,
                SchedError,
            >(SchedError::NoProcess) && *final(self) == *old(self),
            Self::picked(*old(self), old(self).current_vspace@[cpu as int]) is Ok ==> exists|
                mid: Self,
                popped: Result<Taken, TaskState>,
                tpid: usize,
            |
                #[trigger] Self::utask_post(
                    *old(self),
                    mid,
                    *final(self),
                    cpu,
                    Self::picked(*old(self), old(self).current_vspace@[cpu as int])->Ok_0,
                    popped,
                    tpid,
                    r,
                ),
    {
        let cur = self.current_vspace[cpu];
        let next_pid = match self.process_schedule(cur) {
            Ok(p) => p,
            Err(e) => {
                return Err(e);
            },
        };
        proof {
            law_pick_highest(self.process_info_table.entries(), self.process_info_table.next(), cur);
        }
        self.utask_schedule::<S, H>(cpu, next_pid, stack_status, host)
    }
    /// The stack pool that serves privilege `privilege` (0 kernel) on CPU
    /// `cpu`: the kernel's, or that of the process whose address space the
    /// CPU is in.
    pub open spec fn pool(&self, cpu: usize, privilege: usize) -> Option<StackHandler> {
        if privilege == 0 {
            Some(self.kernel_stacks)
        } else {
            self.user_stacks@[self.current_vspace@[cpu as int] as int]
        }
    }

    /// `new` is `old` with the stack pool serving `privilege` on CPU `cpu`
    /// replaced, and nothing else changed.
    pub open spec fn only_pool_changed(old: Self, new: Self, cpu: usize, privilege: usize) -> bool {
        &&& new.pool(cpu, privilege) is Some
        &&& if privilege == 0 {
            new == (VvarData { kernel_stacks: new.kernel_stacks, ..old })
        } else {
            let p = old.current_vspace@[cpu as int] as int;
            &&& new == (VvarData { user_stacks: new.user_stacks, ..old })
            &&& new.user_stacks@ == old.user_stacks@.update(p, new.user_stacks@[p])
        }
    }

    /// What [`VvarData::run_task`] does, the host reporting whether the
    /// current task is a coroutine and, for a thread, its stack: a
    /// coroutine gets an empty stack of the pool serving `privilege` (see
    /// [`empty_stack_post`]); a thread's stack becomes current (see
    /// [`thread_stack_post`]). Fails, changing nothing, when there is no
    /// such pool.
    pub open spec fn run_task_post(
        old: Self,
        new: Self,
        cpu: usize,
        privilege: usize,
        is_coroutine: bool,
        thread_stack: usize,
        r: Result<RunPlan, SchedError>,
    ) -> bool {
        if old.pool(cpu, privilege) is None {
            r == Err::<RunPlan, SchedError>(SchedError::NotInitialised) && new == old
        } else {
            let o = old.pool(cpu, privilege)->Some_0;
            let n = new.pool(cpu, privilege)->Some_0;
            &&& Self::only_pool_changed(old, new, cpu, privilege)
            &&& if is_coroutine {
                &&& empty_stack_post(o, n, cpu)
                &&& r == Ok::<RunPlan, SchedError>(
                    RunPlan::Coroutine { stack: n.current(cpu as int)->Some_0 },
                )
            } else {
                &&& thread_stack_post(o, n, cpu, Some(thread_stack))
                &&& r == Ok::<RunPlan, SchedError>(RunPlan::Thread)
            }
        }
    }

    /// Prepares the stack to run the current task of CPU `cpu` at privilege
    /// `privilege` (0 kernel); see [`VvarData::run_task_post`].
    pub fn run_task<S: Stack, H: TaskHost>(
        &mut self,
        cpu: usize,
        privilege: usize,
        stack_status: usize,
        host: &H,
    ) -> (r: Result<RunPlan, SchedError>)
        requires
            old(self).wf(),
            cpu < CPU_NUM,
        ensures
            final(self).wf(),
            exists|is_coroutine: bool, thread_stack: usize|
                #[trigger] Self::run_task_post(
                    *old(self),
                    *final(self),
                    cpu,
                    privilege,
                    is_coroutine,
                    thread_stack,
                    r,
                ),
    {
        let task = self.current_task[cpu];
        let cur = self.current_vspace[cpu];
        if privilege != 0 && self.user_stacks[cur].is_none() {
            let r = Err(SchedError::NotInitialised);
            assert(Self::run_task_post(*old(self), *self, cpu, privilege, true, 0, r));
            return r;
        }
        let is_coroutine = host.is_coroutine(task);
        let thread_stack: usize = if is_coroutine {
            0
        } else {
            host.thread_stack(task)
        };
        let r = if privilege == 0 {
            if is_coroutine {
                let stack = self.kernel_stacks.ensure_empty_stack::<S>(cpu);
                Ok(RunPlan::Coroutine { stack })
            } else {
                self.kernel_stacks.get_thread_stack::<S>(Some(thread_stack), stack_status, cpu);
                Ok(RunPlan::Thread)
            }
        } else {
            let slot = &mut self.user_stacks[cur];
            match slot {
                Some(h) => if is_coroutine {
                    let stack = h.ensure_empty_stack::<S>(cpu);
                    Ok(RunPlan::Coroutine { stack })
                } else {
                    h.get_thread_stack::<S>(Some(thread_stack), stack_status, cpu);
                    Ok(RunPlan::Thread)
                },
                None => Err(SchedError::NotInitialised),
            }
        };
        assert(Self::run_task_post(*old(self), *self, cpu, privilege, is_coroutine, thread_stack, r));
        r
    }

    /// What [`VvarData::krun_utask`] does, the host reporting whether the
    /// current task is a coroutine: the CPU leaves its kernel stack (see
    /// [`thread_stack_post`]) and is marked as at user level; a coroutine
    /// also gets an empty stack of its process's pool (see
    /// [`empty_stack_post`]). A coroutine of a process without a pool is
    /// refused, changing nothing.
    pub open spec fn krun_post(
        old: Self,
        new: Self,
        cpu: usize,
        is_coroutine: bool,
        r: Result<RunPlan, SchedError>,
    ) -> bool {
        let p = old.current_vspace@[cpu as int] as int;
        if is_coroutine && old.user_stacks@[p] is None {
            r == Err::<RunPlan, SchedError>(SchedError::NotInitialised) && new == old
        } else {
            &&& new == (VvarData {
                in_kernel: new.in_kernel,
                kernel_stacks: new.kernel_stacks,
                user_stacks: new.user_stacks,
                ..old
            })
            &&& new.in_kernel@ == old.in_kernel@.update(cpu as int, false)
            &&& thread_stack_post(old.kernel_stacks, new.kernel_stacks, cpu, None)
            &&& if is_coroutine {
                &&& new.user_stacks@[p] is Some
                &&& new.user_stacks@ == old.user_stacks@.update(p, new.user_stacks@[p])
                &&& empty_stack_post(old.user_stacks@[p]->Some_0, new.user_stacks@[p]->Some_0, cpu)
                &&& r == Ok::<RunPlan, SchedError>(
                    RunPlan::Coroutine { stack: new.user_stacks@[p]->Some_0.current(cpu as int)->Some_0 },
                )
            } else {
                &&& new.user_stacks == old.user_stacks
                &&& r == Ok::<RunPlan, SchedError>(RunPlan::Thread)
            }
        }
    }

    /// From the kernel on CPU `cpu`, prepares to run the current task, a
    /// user task; see [`VvarData::krun_post`]. For a coroutine the answer
    /// holds the user stack to enter on.
    pub fn krun_utask<S: Stack, H: TaskHost>(
        &mut self,
        cpu: usize,
        stack_status: usize,
        host: &H,
    ) -> (r: Result<RunPlan, SchedError>)
        requires
            old(self).wf(),
            cpu < CPU_NUM,
        ensures
            final(self).wf(),
            exists|is_coroutine: bool|
                #[trigger] Self::krun_post(*old(self), *final(self), cpu, is_coroutine, r),
    {
        let task = self.current_task[cpu];
        let cur = self.current_vspace[cpu];
        let is_coroutine = host.is_coroutine(task);
        if is_coroutine && self.user_stacks[cur].is_none() {
            let r = Err(SchedError::NotInitialised);
            assert(Self::krun_post(*old(self), *self, cpu, is_coroutine, r));
            return r;
        }
        let r = if is_coroutine {
            let slot = &mut self.user_stacks[cur];
            let stack = match slot {
                Some(h) => h.ensure_empty_stack::<S>(cpu),
                None => 0,
            };
            Ok(RunPlan::Coroutine { stack })
        } else {
            Ok(RunPlan::Thread)
        };
        self.kernel_stacks.get_thread_stack::<S>(None, stack_status, cpu);
        self.in_kernel.set(cpu, false);
        assert(Self::krun_post(*old(self), *self, cpu, is_coroutine, r));
        r
    }

    /// What [`VvarData::take_current_stack`] does, the host reporting
    /// whether the current task of CPU `cpu` runs in the kernel: the
    /// current stack of the pool serving the task (the kernel's, or its
    /// process's) is taken out and returned. Fails, changing nothing, when
    /// there is no such pool or no current stack.
    pub open spec fn take_stack_post(
        old: Self,
        new: Self,
        cpu: usize,
        is_kernel: bool,
        r: Result<usize, SchedError>,
    ) -> bool {
        let privilege: usize = if is_kernel {
            0
        } else {
            1
        };
        if old.pool(cpu, privilege) is None {
            r == Err::<usize, SchedError>(SchedError::NotInitialised) && new == old
        } else if old.pool(cpu, privilege)->Some_0.current(cpu as int) is None {
            r == Err::<usize, SchedError>(SchedError::NoCurrentStack) && new == old
        } else {
            let o = old.pool(cpu, privilege)->Some_0;
            let n = new.pool(cpu, privilege)->Some_0;
            &&& Self::only_pool_changed(old, new, cpu, privilege)
            &&& r == Ok::<usize, SchedError>(o.current(cpu as int)->Some_0)
            &&& n.wf()
            &&& n.free() == o.free()
            &&& n.traps() == o.traps()
            &&& n.currents() == o.currents().update(cpu as int, None)
        }
    }

    /// Takes the stack CPU `cpu` runs on, to be saved with the current
    /// thread's context; see [`VvarData::take_stack_post`].
    pub fn take_current_stack<H: TaskHost>(&mut self, cpu: usize, host: &H) -> (r: Result<
        usize,
        SchedError,
    >)
        requires
            old(self).wf(),
            cpu < CPU_NUM,
        ensures
            final(self).wf(),
            exists|is_kernel: bool|
                #[trigger] Self::take_stack_post(*old(self), *final(self), cpu, is_kernel, r),
    {
        let task = self.current_task[cpu];
        let is_kernel = host.is_kernel(task);
        let r = if is_kernel {
            if self.kernel_stacks.current_stack_of(cpu).is_none() {
                Err(SchedError::NoCurrentStack)
            } else {
                Ok(self.kernel_stacks.take_current_stack(cpu))
            }
        } else {
            let cur = self.current_vspace[cpu];
            let has_current = match &self.user_stacks[cur] {
                Some(h) => Some(h.current_stack_of(cpu).is_some()),
                None => None,
            };
            match has_current {
                None => Err(SchedError::NotInitialised),
                Some(false) => Err(SchedError::NoCurrentStack),
                Some(true) => {
                    let slot = &mut self.user_stacks[cur];
                    match slot {
                        Some(h) => Ok(h.take_current_stack(cpu)),
                        None => Err(SchedError::NotInitialised),
                    }
                },
            }
        };
        assert(Self::take_stack_post(*old(self), *self, cpu, is_kernel, r));
        r
    }
    /// CPU `cpu` starts in the kernel, in the kernel's address space, running
    /// `init_task` on `init_stack`, with a new trap stack (see
    /// [`trap_stack_alloc_post`]); `mid` is `old` with the scheduler and
    /// process table as in `new`.
    pub open spec fn cpu_started(
        old: Self,
        mid: Self,
        new: Self,
        cpu: usize,
        init_stack: usize,
        init_task: usize,
    ) -> bool {
        let with_stack = old.kernel_stacks.currents().update(cpu as int, Some(init_stack));
        &&& new == (VvarData {
            current_task: new.current_task,
            in_kernel: new.in_kernel,
            current_vspace: new.current_vspace,
            kernel_stacks: new.kernel_stacks,
            ..mid
        })
        &&& new.current_task@ == old.current_task@.update(cpu as int, init_task)
        &&& new.in_kernel@ == old.in_kernel@.update(cpu as int, true)
        &&& new.current_vspace@ == old.current_vspace@.update(cpu as int, 0)
        &&& new.kernel_stacks.currents() == with_stack
        &&& new.kernel_stacks.trap(cpu as int) is Some
        &&& new.kernel_stacks.traps() == old.kernel_stacks.traps().update(
            cpu as int,
            new.kernel_stacks.trap(cpu as int),
        )
        &&& if old.kernel_stacks.free().len() > 0 {
            old.kernel_stacks.free().contains(new.kernel_stacks.trap(cpu as int)->Some_0)
                && new.kernel_stacks.free() == old.kernel_stacks.free().remove(
                new.kernel_stacks.trap(cpu as int)->Some_0,
            )
        } else {
            new.kernel_stacks.free() == old.kernel_stacks.free()
        }
    }

    /// Sets up CPU `cpu` (see [`VvarData::cpu_started`]) and returns its new
    /// trap stack.
    fn start_cpu<S: Stack>(&mut self, cpu: usize, init_stack: usize, init_task: usize) -> (r: usize)
        requires
            old(self).wf(),
            cpu < CPU_NUM,
            old(self).kernel_stacks.trap(cpu as int) is None,
        ensures
            final(self).wf(),
            Self::cpu_started(*old(self), *old(self), *final(self), cpu, init_stack, init_task),
            Some(r) == final(self).kernel_stacks.trap(cpu as int),
    {
        self.current_task.set(cpu, init_task);
        self.in_kernel.set(cpu, true);
        self.current_vspace.set(cpu, 0);
        self.kernel_stacks.set_current_stack(init_stack, cpu);
        self.kernel_stacks.set_up_trap_stack::<S>(cpu)
    }

    /// Initialises the scheduler on the boot CPU `cpu`: creates the kernel
    /// scheduler (process 0; see [`Scheduler::init`]), whose trap wait queue
    /// and ready queue are at `twq_addr` and `rq_addr`, then starts the CPU
    /// running `init_task` on `init_stack` (see [`VvarData::cpu_started`]).
    /// Returns the CPU's new trap stack (its base goes to the trap entry
    /// register). Fails, changing nothing, when the kernel scheduler exists
    /// already or the CPU has a trap stack.
    pub fn kernel_init_main<S: Stack, H: TaskHost>(
        &mut self,
        cpu: usize,
        init_stack: usize,
        init_task: usize,
        twq_addr: usize,
        rq_addr: usize,
        host: &H,
    ) -> (r: Result<usize, SchedError>)
        requires
            old(self).wf(),
            cpu < CPU_NUM,
        ensures
            final(self).wf(),
            old(self).schedulers@[0] is Some ==> r == Err::<usize, SchedError>(
                SchedError::AlreadyInitialised,
            ) && *final(self) == *old(self),
            old(self).schedulers@[0] is None && old(self).kernel_stacks.trap(cpu as int) is Some
                ==> r == Err::<usize, SchedError>(SchedError::TrapStackInUse) && *final(self) == *old(
                self,
            ),
            old(self).schedulers@[0] is None && old(self).kernel_stacks.trap(cpu as int) is None
                ==> {
                let k = final(self).schedulers@[0]->Some_0;
                let t = final(self).process_info_table;
                &&& r == Ok::<usize, SchedError>(final(self).kernel_stacks.trap(cpu as int)->Some_0)
                &&& final(self).schedulers@[0] is Some
                &&& final(self).schedulers@ == old(self).schedulers@.update(0, final(self).schedulers@[0])
                &&& k.index() == 0
                &&& k.ready()@ == ReadyQueue::new_view()
                &&& k.traps().idle().len() == CPU_NUM
                &&& k.sources_view().len() == 2
                &&& k.sources_view()[1].is_trap_wait_queue()
                &&& k.sources_view()[1].data_at(true) == twq_addr
                &&& k.sources_view()[1].data_at(false) == twq_addr
                &&& k.sources_view()[0].is_ready_queue()
                &&& k.sources_view()[0].data_at(true) == rq_addr
                &&& k.sources_view()[0].data_at(false) == rq_addr
                &&& k.priority_is(cpu, true, t.entries()[0].highest_prio)
                &&& t.next() == old(self).process_info_table.next()
                &&& t.entries() == old(self).process_info_table.entries().update(
                    0,
                    ProcessInfo {
                        highest_prio: t.entries()[0].highest_prio,
                        ..old(self).process_info_table.entries()[0]
                    },
                )
                &&& Self::cpu_started(
                    *old(self),
                    VvarData {
                        schedulers: final(self).schedulers,
                        process_info_table: t,
                        ..*old(self)
                    },
                    *final(self),
                    cpu,
                    init_stack,
                    init_task,
                )
            },
    {
        if self.schedulers[0].is_some() {
            return Err(SchedError::AlreadyInitialised);
        }
        if self.kernel_stacks.trap_stack_of(cpu).is_some() {
            return Err(SchedError::TrapStackInUse);
        }
        let ghost old_table = self.process_info_table;
        let k = Scheduler::init(0, &mut self.process_info_table, host, twq_addr, rq_addr, cpu, true);
        assert(k.priority_is(cpu, true, self.process_info_table.entries()[0].highest_prio));
        self.schedulers.set(0, Some(k));
        proof {
            assert forall|p: int|
                0 < p < PROCESS_NUM implies (#[trigger] self.process_info_table.entries()[p].scheduler
                != 0 <==> self.schedulers@[p] is Some) by {
                assert(self.process_info_table.entries()[p].scheduler == old_table.entries()[p].scheduler);
            }
        }
        let base = self.start_cpu::<S>(cpu, init_stack, init_task);
        Ok(base)
    }

    /// Initialises the scheduler on a secondary CPU `cpu` (the kernel
    /// scheduler is shared): starts the CPU running `init_task` on
    /// `init_stack` (see [`VvarData::cpu_started`]) and returns its new trap
    /// stack (whose base goes to the trap entry register). Fails, changing
    /// nothing, when the CPU has a trap stack already.
    pub fn kernel_init_secondary<S: Stack>(&mut self, cpu: usize, init_stack: usize, init_task: usize) -> (r:
        Result<usize, SchedError>)
        requires
            old(self).wf(),
            cpu < CPU_NUM,
        ensures
            final(self).wf(),
            old(self).kernel_stacks.trap(cpu as int) is Some ==> r == Err::<usize, SchedError>(
                SchedError::TrapStackInUse,
            ) && *final(self) == *old(self),
            old(self).kernel_stacks.trap(cpu as int) is None ==> r == Ok::<usize, SchedError>(
                final(self).kernel_stacks.trap(cpu as int)->Some_0,
            ) && Self::cpu_started(
                *old(self),
                *old(self),
                *final(self),
                cpu,
                init_stack,
                init_task,
            ),
    {
        if self.kernel_stacks.trap_stack_of(cpu).is_some() {
            return Err(SchedError::TrapStackInUse);
        }
        Ok(self.start_cpu::<S>(cpu, init_stack, init_task))
    }

    /// Registers a process whose address space is `vspace` and whose
    /// scheduler lives at address `scheduler`: takes a process number (see
    /// [`ProcessInfoTable::register_process`]), records both addresses, and
    /// gives the process a fresh scheduler (see
    /// [`Scheduler::init_except_sources`]) and an empty stack pool. Some
    /// number must be free (see [`ProcessInfoTable::has_free_number`]).
    pub fn process_init(&mut self, vspace: usize, scheduler: usize) -> (r: Result<usize, SchedError>)
        requires
            old(self).wf(),
            scheduler != 0,
            exists|p: int| 0 <= p < PROCESS_NUM && !#[trigger] old(self).process_info_table.entries()[p].valid,
        ensures
            final(self).wf(),
            r is Ok,
            exists|t: ProcessInfoTable|
                #[trigger] ProcessInfoTable::register_post(
                    old(self).process_info_table,
                    t,
                    ok_value(r),
                ) && match r {
                    Err(e) => {
                        &&& e == SchedError::TableFull
                        &&& *final(self) == (VvarData { process_info_table: t, ..*old(self) })
                    },
                    Ok(pid) => {
                        let s = final(self).schedulers@[pid as int]->Some_0;
                        let h = final(self).user_stacks@[pid as int]->Some_0;
                        &&& pid < PROCESS_NUM
                        &&& final(self).process_info_table.next() == t.next()
                        &&& final(self).process_info_table.entries() == t.entries().update(
                            pid as int,
                            ProcessInfo { vspace, scheduler, ..t.entries()[pid as int] },
                        )
                        &&& final(self).schedulers@[pid as int] is Some
                        &&& final(self).schedulers@ == old(self).schedulers@.update(
                            pid as int,
                            final(self).schedulers@[pid as int],
                        )
                        &&& s.index() == pid
                        &&& s.sources_view().len() == 0
                        &&& s.ready()@ == ReadyQueue::new_view()
                        &&& s.traps().idle().len() == 0
                        &&& final(self).user_stacks@[pid as int] is Some
                        &&& final(self).user_stacks@ == old(self).user_stacks@.update(
                            pid as int,
                            final(self).user_stacks@[pid as int],
                        )
                        &&& h.free() == Set::<usize>::empty()
                        &&& forall|c: int| 0 <= c < CPU_NUM ==> h.current(c) is None && h.trap(c) is None
                        &&& *final(self) == (VvarData {
                            schedulers: final(self).schedulers,
                            process_info_table: final(self).process_info_table,
                            user_stacks: final(self).user_stacks,
                            ..*old(self)
                        })
                    },
                },
    {
        let ghost t0 = self.process_info_table;
        proof {
            let p = choose|p: int| 0 <= p < PROCESS_NUM && !#[trigger] t0.entries()[p].valid;
            crate::schedule::process_info::lemma_free_found(
                t0.entries(),
                (t0.next() % PROCESS_NUM) as int,
                p,
            );
        }
        let reg = self.process_info_table.register_process();
        let ghost t = self.process_info_table;
        let pid = match reg {
            Some(pid) => pid,
            None => {
                proof {
                    assert forall|p: int|
                        0 < p < PROCESS_NUM implies (#[trigger] self.process_info_table.entries()[p].scheduler
                        != 0 <==> self.schedulers@[p] is Some) by {
                        assert(self.process_info_table.entries()[p].scheduler == t0.entries()[p].scheduler);
                    }
                }
                return Err(SchedError::TableFull);
            },
        };
        proof {
            vstd::arithmetic::div_mod::lemma_mod_bound(
                (t0.next() % PROCESS_NUM) as int + crate::schedule::process_info::free_offset(
                    t0.entries(),
                    (t0.next() % PROCESS_NUM) as int,
                    0,
                ),
                PROCESS_NUM as int,
            );
        }
        self.process_info_table.set_process(pid, vspace, scheduler);
        self.schedulers.set(pid, Some(Scheduler::init_except_sources(pid)));
        self.user_stacks.set(pid, Some(StackHandler::default()));
        proof {
            assert forall|p: int|
                0 < p < PROCESS_NUM implies (#[trigger] self.process_info_table.entries()[p].scheduler
                != 0 <==> self.schedulers@[p] is Some) by {
                if p != pid {
                    assert(self.process_info_table.entries()[p].scheduler == t0.entries()[p].scheduler);
                }
            }
        }
        Ok(pid)
    }

    /// Gives process number `pid` back (see
    /// [`ProcessInfoTable::unregister_process`]); its scheduler and stack
    /// pool stay until the number is taken again.
    pub fn process_drop(&mut self, pid: usize) -> (r: bool)
        requires
            old(self).wf(),
            pid < PROCESS_NUM,
        ensures
            final(self).wf(),
            r == old(self).process_info_table.entries()[pid as int].valid,
            final(self).process_info_table.entries() == old(self).process_info_table.entries().update(
                pid as int,
                ProcessInfo { valid: false, ..old(self).process_info_table.entries()[pid as int] },
            ),
            final(self).process_info_table.next() == old(self).process_info_table.next(),
            *final(self) == (VvarData {
                process_info_table: final(self).process_info_table,
                ..*old(self)
            }),
    {
        let ghost t0 = self.process_info_table;
        let r = self.process_info_table.unregister_process(pid);
        proof {
            assert forall|p: int|
                0 < p < PROCESS_NUM implies (#[trigger] self.process_info_table.entries()[p].scheduler
                != 0 <==> self.schedulers@[p] is Some) by {
                assert(self.process_info_table.entries()[p].scheduler == t0.entries()[p].scheduler);
            }
        }
        r
    }

    /// Sets up the own sources of the scheduler of process `pid` (see
    /// [`Scheduler::init_sources`]), its trap wait queue and ready queue
    /// being at `twq_kernel`/`rq_kernel` in the kernel and
    /// `twq_user`/`rq_user` at user level (addresses that the OS found, so
    /// not null). Fails, changing nothing, when the process has no
    /// scheduler or its sources are set up already.
    pub fn user_init<H: TaskHost>(
        &mut self,
        cpu: usize,
        pid: usize,
        twq_kernel: usize,
        twq_user: usize,
        rq_kernel: usize,
        rq_user: usize,
        host: &H,
    ) -> (r: Result<(), SchedError>)
        requires
            old(self).wf(),
            cpu < CPU_NUM,
            pid < PROCESS_NUM,
            twq_user != 0,
            rq_user != 0,
        ensures
            final(self).wf(),
            old(self).schedulers@[pid as int] is None ==> r == Err::<(), SchedError>(
                SchedError::NotInitialised,
            ) && *final(self) == *old(self),
            old(self).schedulers@[pid as int] matches Some(s) ==> {
                let n = final(self).schedulers@[pid as int]->Some_0;
                let t = final(self).process_info_table;
                if !(s.sources_view().len() == 0 && s.traps().idle().len() == 0 && forall|c: int|
                    0 <= c < CPU_NUM ==> #[trigger] s.traps().initial_handlers()[c] == None::<usize>) {
                    r == Err::<(), SchedError>(SchedError::AlreadyInitialised) && *final(self) == *old(
                        self,
                    )
                } else {
                    &&& r is Ok
                    &&& final(self).schedulers@[pid as int] is Some
                    &&& final(self).schedulers@ == old(self).schedulers@.update(
                        pid as int,
                        final(self).schedulers@[pid as int],
                    )
                    &&& *final(self) == (VvarData {
                        schedulers: final(self).schedulers,
                        process_info_table: t,
                        ..*old(self)
                    })
                    &&& n.index() == pid
                    &&& n.ready() == s.ready()
                    &&& n.traps().traps() == s.traps().traps()
                    &&& n.traps().idle().len() == CPU_NUM
                    &&& n.sources_view().len() == 2
                    &&& n.sources_view()[1].is_trap_wait_queue()
                    &&& n.sources_view()[1].data_at(true) == twq_kernel
                    &&& n.sources_view()[1].data_at(false) == twq_user
                    &&& n.sources_view()[0].is_ready_queue()
                    &&& n.sources_view()[0].data_at(true) == rq_kernel
                    &&& n.sources_view()[0].data_at(false) == rq_user
                    &&& n.priority_is(
                        cpu,
                        n.uses_kernel(old(self).in_kernel@[cpu as int]),
                        t.entries()[pid as int].highest_prio,
                    )
                    &&& t.next() == old(self).process_info_table.next()
                    &&& t.entries() == old(self).process_info_table.entries().update(
                        pid as int,
                        ProcessInfo {
                            highest_prio: t.entries()[pid as int].highest_prio,
                            ..old(self).process_info_table.entries()[pid as int]
                        },
                    )
                }
            },
    {
        let fresh = match &self.schedulers[pid] {
            Some(s) => Some(s.sources_unset()),
            None => None,
        };
        match fresh {
            None => Err(SchedError::NotInitialised),
            Some(false) => Err(SchedError::AlreadyInitialised),
            Some(true) => {
                let in_kernel_now = self.in_kernel[cpu];
                let ghost old_table = self.process_info_table;
                let slot = &mut self.schedulers[pid];
                match slot {
                    Some(s) => {
                        s.init_sources(
                            &mut self.process_info_table,
                            host,
                            twq_kernel,
                            twq_user,
                            rq_kernel,
                            rq_user,
                            cpu,
                            in_kernel_now,
                        );
                        assert(s.priority_is(cpu, s.uses_kernel(in_kernel_now), self.process_info_table.entries()[pid as int].highest_prio));
                    },
                    None => {},
                }
                proof {
                    assert forall|p: int|
                        0 < p < PROCESS_NUM implies (#[trigger] self.process_info_table.entries()[p].scheduler
                        != 0 <==> self.schedulers@[p] is Some) by {
                        assert(self.process_info_table.entries()[p].scheduler == old_table.entries()[p].scheduler);
                    }
                }
                Ok(())
            },
        }
    }
    /// What [`VvarData::trap_handler_next`] does on CPU `cpu` for the trap
    /// handler running there, which serves the trap wait queue of the
    /// scheduler of process `owner`; `tpid` is the process the host reports
    /// for a trapped task.
    ///
    /// With a trap waiting on this CPU, it is taken off the queue; the
    /// handler is to work for the trapped task's process (the kernel's
    /// without a task): it gets that process number, and the CPU moves to
    /// that address space. With none, the handler goes back on the idle
    /// queue, to get process number 0 and state `Blocking`. A process
    /// without a scheduler is refused, changing nothing.
    pub open spec fn trap_next_post(
        old: Self,
        new: Self,
        cpu: usize,
        owner: usize,
        tpid: usize,
        r: Result<TrapWork, SchedError>,
    ) -> bool {
        if old.schedulers@[owner as int] is None {
            r == Err::<TrapWork, SchedError>(SchedError::NotInitialised) && new == old
        } else {
            let s = old.schedulers@[owner as int]->Some_0;
            let n = new.schedulers@[owner as int]->Some_0;
            let q = s.traps().traps()[cpu as int];
            &&& new.schedulers@[owner as int] is Some
            &&& new.schedulers@ == old.schedulers@.update(owner as int, new.schedulers@[owner as int])
            &&& n.sources_view() == s.sources_view()
            &&& n.index() == s.index()
            &&& n.ready() == s.ready()
            &&& n.traps().initial_handlers() == s.traps().initial_handlers()
            &&& if q.len() == 0 {
                &&& new == (VvarData { schedulers: new.schedulers, ..old })
                &&& n.traps().traps() == s.traps().traps()
                &&& n.traps().idle() == s.traps().idle().push(old.current_task@[cpu as int])
                &&& r == Ok::<TrapWork, SchedError>(
                    TrapWork::Park {
                        handler: old.current_task@[cpu as int],
                        pid: 0,
                        state: TaskState::Blocking,
                    },
                )
            } else {
                let info = q[0].0;
                let task = q[0].1;
                let pid = if task is Some {
                    tpid
                } else {
                    0
                };
                &&& n.traps().idle() == s.traps().idle()
                &&& n.traps().traps() == s.traps().traps().update(cpu as int, q.drop_first())
                &&& if pid >= PROCESS_NUM {
                    &&& r == Err::<TrapWork, SchedError>(SchedError::ProcessOutOfRange(pid))
                    &&& new == (VvarData { schedulers: new.schedulers, ..old })
                } else {
                    &&& new == (VvarData {
                        schedulers: new.schedulers,
                        current_vspace: new.current_vspace,
                        ..old
                    })
                    &&& new.current_vspace@ == old.current_vspace@.update(cpu as int, pid)
                    &&& r == Ok::<TrapWork, SchedError>(
                        TrapWork::Handle {
                            handler: old.current_task@[cpu as int],
                            pid,
                            info,
                            task,
                            switch_to: vspace_switch(
                                old.process_info_table,
                                old.current_vspace@[cpu as int],
                                pid,
                            ),
                        },
                    )
                }
            }
        }
    }

    /// Whether the trap handler of CPU `cpu` serving the scheduler of
    /// process `owner` can park when it finds no trap: there is no such
    /// scheduler, a trap waits, or the idle handler queue has room.
    pub open spec fn parks_ok(&self, cpu: usize, owner: usize) -> bool {
        self.schedulers@[owner as int] matches Some(s) ==> (s.traps().traps()[cpu as int].len() == 0
            ==> s.traps().idle().len() < TRAP_WAIT_QUEUE_SIZE)
    }

    /// Computes [`VvarData::parks_ok`].
    pub fn can_park(&self, cpu: usize, owner: usize) -> (r: bool)
        requires
            self.wf(),
            cpu < CPU_NUM,
            owner < PROCESS_NUM,
        ensures
            r == self.parks_ok(cpu, owner),
    {
        match &self.schedulers[owner] {
            Some(s) => s.can_park(cpu),
            None => true,
        }
    }

    /// One round of the trap handler running on CPU `cpu` (the current task),
    /// which serves the trap wait queue of the scheduler of process `owner`;
    /// see [`VvarData::trap_next_post`]. The handler must be able to park
    /// (see [`VvarData::can_park`]).
    pub fn trap_handler_next<H: TaskHost>(&mut self, cpu: usize, owner: usize, host: &H) -> (r: Result<
        TrapWork,
        SchedError,
    >)
        requires
            old(self).wf(),
            cpu < CPU_NUM,
            owner < PROCESS_NUM,
            old(self).parks_ok(cpu, owner),
        ensures
            final(self).wf(),
            exists|tpid: usize| #[trigger] Self::trap_next_post(*old(self), *final(self), cpu, owner, tpid, r),
    {
        if self.schedulers[owner].is_none() {
            let r = Err(SchedError::NotInitialised);
            assert(Self::trap_next_post(*old(self), *self, cpu, owner, 0, r));
            return r;
        }
        let handler = self.current_task[cpu];
        let slot = &mut self.schedulers[owner];
        let popped = match slot {
            Some(s) => s.pop_trap(cpu),
            None => None,
        };
        match popped {
            Some((info, task)) => {
                let tpid = match task {
                    Some(t) => host.pid(t),
                    None => 0,
                };
                if tpid >= PROCESS_NUM {
                    let r = Err(SchedError::ProcessOutOfRange(tpid));
                    assert(Self::trap_next_post(*old(self), *self, cpu, owner, tpid, r));
                    return r;
                }
                let mut cv = self.current_vspace[cpu];
                let switch_to = switch_vspace(&mut cv, tpid, &self.process_info_table);
                self.current_vspace.set(cpu, cv);
                let r = Ok(TrapWork::Handle { handler, pid: tpid, info, task, switch_to });
                assert(Self::trap_next_post(*old(self), *self, cpu, owner, tpid, r));
                r
            },
            None => {
                let slot = &mut self.schedulers[owner];
                let (pid, state) = match slot {
                    Some(s) => s.reschedule_handler(handler),
                    None => (0, TaskState::Blocking),
                };
                let r = Ok(TrapWork::Park { handler, pid, state });
                assert(self.schedulers@ =~= old(self).schedulers@.update(
                    owner as int,
                    self.schedulers@[owner as int],
                ));
                assert(Self::trap_next_post(*old(self), *self, cpu, owner, 0, r));
                r
            },
        }
    }

    /// What [`VvarData::trap_handled`] does once the trap that stopped `task`
    /// was handled, the task having been in state `prev` (the host moves a
    /// blocked task to ready) and the host reporting `is_kernel`, `pid` and
    /// `prio` for it: a blocked task goes back on the scheduler of its
    /// process (the kernel's for a kernel task), failing when it does not go
    /// in; an exited one is left; any other state is an error.
    pub open spec fn handled_post(
        old: Self,
        new: Self,
        cpu: usize,
        task: usize,
        prev: TaskState,
        is_kernel: bool,
        pid: usize,
        prio: isize,
        r: Result<(), SchedError>,
    ) -> bool {
        match prev {
            TaskState::Blocked => if !is_kernel && pid >= PROCESS_NUM {
                r == Err::<(), SchedError>(SchedError::ProcessOutOfRange(pid)) && new == old
            } else {
                let target = if is_kernel {
                    0
                } else {
                    pid
                };
                let er = Self::enqueue_result(old, target, task, prio);
                &&& Self::enqueue_post(old, new, cpu, target, task, prio, er)
                &&& r == match er {
                    Ok(true) => Ok::<(), SchedError>(()),
                    Ok(false) => Err::<(), SchedError>(SchedError::RequeueFailed(task)),
                    Err(e) => Err::<(), SchedError>(e),
                }
            },
            TaskState::Exited => r == Ok::<(), SchedError>(()) && new == old,
            _ => r == Err::<(), SchedError>(SchedError::TrappedTaskState(prev)) && new == old,
        }
    }

    /// The trap that stopped `task` was handled on CPU `cpu`, and the host
    /// moved the task by [`handled_mapping`] (see [`trapped_task_mapping`])
    /// from state `prev`; see [`VvarData::handled_post`].
    pub fn trap_handled<H: TaskHost>(
        &mut self,
        cpu: usize,
        task: usize,
        prev: TaskState,
        host: &H,
    ) -> (r: Result<(), SchedError>)
        requires
            old(self).wf(),
            cpu < CPU_NUM,
        ensures
            final(self).wf(),
            exists|is_kernel: bool, pid: usize, prio: isize|
                #[trigger] Self::handled_post(
                    *old(self),
                    *final(self),
                    cpu,
                    task,
                    prev,
                    is_kernel,
                    pid,
                    prio,
                    r,
                ),
    {
        match trapped_task_requeue(prev) {
            Err(st) => {
                let r = Err(SchedError::TrappedTaskState(st));
                assert(Self::handled_post(*old(self), *self, cpu, task, prev, true, 0, 0, r));
                r
            },
            Ok(false) => {
                let r = Ok(());
                assert(Self::handled_post(*old(self), *self, cpu, task, prev, true, 0, 0, r));
                r
            },
            Ok(true) => {
                let is_kernel = host.is_kernel(task);
                let pid = if is_kernel {
                    0
                } else {
                    host.pid(task)
                };
                if !is_kernel && pid >= PROCESS_NUM {
                    let r = Err(SchedError::ProcessOutOfRange(pid));
                    assert(Self::handled_post(*old(self), *self, cpu, task, prev, is_kernel, pid, 0, r));
                    return r;
                }
                let target = if is_kernel {
                    0
                } else {
                    pid
                };
                let prio = host.priority(task);
                let res = self.enqueue(cpu, target, task, prio);
                let r = match res {
                    Ok(true) => Ok(()),
                    Ok(false) => Err(SchedError::RequeueFailed(task)),
                    Err(e) => Err(e),
                };
                assert(Self::handled_post(*old(self), *self, cpu, task, prev, is_kernel, pid, prio, r));
                r
            },
        }
    }
    /// The process whose scheduler's trap wait queue has its kernel-level
    /// data at `queue` (the lowest such number), if any: the queue a trap
    /// handler created for `queue` serves.
    pub fn trap_queue_owner(&self, queue: usize) -> (r: Option<usize>)
        requires
            self.wf(),
        ensures
            match r {
                Some(p) => {
                    &&& p < PROCESS_NUM
                    &&& self.schedulers@[p as int] is Some
                    &&& self.schedulers@[p as int]->Some_0.serves_trap_queue(queue)
                    &&& forall|q: int|
                        0 <= q < p ==> !(#[trigger] self.schedulers@[q] is Some
                            && self.schedulers@[q]->Some_0.serves_trap_queue(queue))
                },
                None => forall|q: int|
                    0 <= q < PROCESS_NUM ==> !(#[trigger] self.schedulers@[q] is Some
                        && self.schedulers@[q]->Some_0.serves_trap_queue(queue)),
            },
    {
        let mut p: usize = 0;
        while p < PROCESS_NUM
            invariant
                self.wf(),
                p <= PROCESS_NUM,
                forall|q: int|
                    0 <= q < p ==> !(#[trigger] self.schedulers@[q] is Some
                        && self.schedulers@[q]->Some_0.serves_trap_queue(queue)),
            decreases PROCESS_NUM - p,
        {
            let hit = match &self.schedulers[p] {
                Some(s) => s.has_trap_queue(queue),
                None => false,
            };
            if hit {
                return Some(p);
            }
            p += 1;
        }
        None
    }
}


/// A ready task always goes back to a scheduler that exists, or to the
/// kernel's: a user process that the table records with a scheduler has one.
pub proof fn law_requeue_to_existing_scheduler<HP, TT>(vd: VvarData<HP, TT>, is_kernel: bool, pid: usize) where
    HP: Fn(usize, usize) -> isize,
    TT: Fn(usize, usize) -> (usize, isize),

    requires
        vd.wf(),
        is_kernel || pid < PROCESS_NUM,
    ensures
        ({
            let target = VvarData::requeue_pid(vd, is_kernel, pid);
            &&& target < PROCESS_NUM
            &&& target == 0 || vd.schedulers@[target as int] is Some
            &&& !is_kernel && vd.schedulers@[pid as int] is Some && pid != 0 ==> target == pid
        }),
{
    if !is_kernel && pid != 0 {
        assert(vd.process_info_table.entries()[pid as int].scheduler != 0 <==> vd.schedulers@[pid as int] is Some);
    }
}


/// A user scheduler's request to switch (trap type 2, from either
/// privilege) that is accepted goes on to the kernel side of the switch
/// (3): no task changes state, no trap stack changes, and only the CPU's
/// privilege flag is set, to whether the trap landed in the kernel.
pub proof fn law_switch_request<HP, TT>(
    old: VvarData<HP, TT>,
    mid: VvarData<HP, TT>,
    mid2: VvarData<HP, TT>,
    new: VvarData<HP, TT>,
    cpu: usize,
    privilege: usize,
    stack: usize,
    is_kernel: bool,
    pid: usize,
    prio: isize,
    info: usize,
    r: Result<TrapEntryOutcome, SchedError>,
) where
    HP: Fn(usize, usize) -> isize,
    TT: Fn(usize, usize) -> (usize, isize),

    requires
        old.wf(),
        cpu < CPU_NUM,
        privilege <= 1,
        VvarData::trap_entry_post(old, mid, mid2, new, cpu, 2, privilege, stack, is_kernel, pid, prio, info, r),
    ensures
        r == Ok::<TrapEntryOutcome, SchedError>(
            TrapEntryOutcome { next: 3, trap_stack: None, task_state: None },
        ),
        new == (VvarData { in_kernel: new.in_kernel, ..old }),
        new.in_kernel@ == old.in_kernel@.update(cpu as int, privilege == 0),
{
}

/// When the task taken for a process is a trap handler handed out for a
/// trap that stopped a task, the handler is given the process `tpid` of
/// that task (0, the kernel's, when the trap stopped no task); taken by the
/// kernel scheduler, it becomes the CPU's current task and the CPU moves to
/// the address space of that same process.
pub proof fn law_handler_works_for_trapped_process<HP, TT>(
    old: VvarData<HP, TT>,
    mid: VvarData<HP, TT>,
    new: VvarData<HP, TT>,
    cpu: usize,
    next_pid: usize,
    handler: usize,
    prio: isize,
    trap: Option<usize>,
    tpid: usize,
    r: Result<KtaskOutcome, SchedError>,
) where
    HP: Fn(usize, usize) -> isize,
    TT: Fn(usize, usize) -> (usize, isize),

    requires
        old.wf(),
        cpu < CPU_NUM,
        next_pid < PROCESS_NUM,
        old.schedulers@[next_pid as int] is Some,
        VvarData::ktask_post(
            old,
            mid,
            new,
            cpu,
            next_pid,
            Ok::<Taken, TaskState>(Taken { task: Some(handler), prio, trap_of: Some(trap) }),
            tpid,
            r,
        ),
        r is Ok,
    ensures
        ({
            let p: usize = match trap {
                Some(_) => tpid,
                None => 0,
            };
            &&& r->Ok_0 matches KtaskOutcome::Run { set_pid, .. } && set_pid == Some(p)
            &&& new.current_task@[cpu as int] == handler
            &&& next_pid == 0 ==> new.current_vspace@[cpu as int] == p
        }),
{
}

/// A blocked task whose trap was handled, once put back, sits last in the
/// ready level of its priority on the scheduler of its own process (the
/// kernel's for a kernel task), and no other scheduler changes; a task that
/// exited while its trap was handled is left alone.
pub proof fn law_handled_task_goes_home<HP, TT>(
    old: VvarData<HP, TT>,
    new: VvarData<HP, TT>,
    cpu: usize,
    task: usize,
    prev: TaskState,
    is_kernel: bool,
    pid: usize,
    prio: isize,
    r: Result<(), SchedError>,
) where
    HP: Fn(usize, usize) -> isize,
    TT: Fn(usize, usize) -> (usize, isize),

    requires
        old.wf(),
        cpu < CPU_NUM,
        VvarData::handled_post(old, new, cpu, task, prev, is_kernel, pid, prio, r),
    ensures
        prev == TaskState::Exited ==> r == Ok::<(), SchedError>(()) && new == old,
        prev == TaskState::Blocked && r is Ok ==> {
            let t: int = if is_kernel {
                0
            } else {
                pid as int
            };
            let l = prio - HIGHEST_PRIORITY;
            &&& 0 <= t < PROCESS_NUM
            &&& old.schedulers@[t] is Some
            &&& new.schedulers@[t] is Some
            &&& new.schedulers@[t]->Some_0.ready()@[l] == old.schedulers@[t]->Some_0.ready()@[l].push(
                task,
            )
            &&& forall|q: int| 0 <= q < PROCESS_NUM && q != t ==> new.schedulers@[q] == old.schedulers@[q]
        },
{
    if prev == TaskState::Blocked && r is Ok {
        let target: usize = if is_kernel {
            0
        } else {
            pid
        };
        let er = VvarData::enqueue_result(old, target, task, prio);
        assert(er == Ok::<bool, SchedError>(true));
        assert(VvarData::enqueue_post(old, new, cpu, target, task, prio, er));
        lemma_enqueued_only_there(old, new, cpu, target, task, prio, er);
    }
}

/// A trap handler that finds a trap waiting takes it off its CPU's queue
/// and works for the process of the task the trap stopped (`tpid`, or the
/// kernel, 0, when it stopped none): that process number is the one it is
/// given, the CPU moves to that address space, and the page table root to
/// switch to is that process's when the CPU was elsewhere and the process
/// has one.
pub proof fn law_trap_handled_in_its_process<HP, TT>(
    old: VvarData<HP, TT>,
    new: VvarData<HP, TT>,
    cpu: usize,
    owner: usize,
    tpid: usize,
    r: Result<TrapWork, SchedError>,
) where
    HP: Fn(usize, usize) -> isize,
    TT: Fn(usize, usize) -> (usize, isize),

    requires
        old.wf(),
        cpu < CPU_NUM,
        owner < PROCESS_NUM,
        old.schedulers@[owner as int] is Some,
        old.schedulers@[owner as int]->Some_0.traps().traps()[cpu as int].len() > 0,
        VvarData::trap_next_post(old, new, cpu, owner, tpid, r),
        r is Ok,
    ensures
        ({
            let q = old.schedulers@[owner as int]->Some_0.traps().traps()[cpu as int];
            let p: usize = if q[0].1 is Some {
                tpid
            } else {
                0
            };
            let root = old.process_info_table.entries()[p as int].vspace;
            &&& p < PROCESS_NUM
            &&& r == Ok::<TrapWork, SchedError>(
                TrapWork::Handle {
                    handler: old.current_task@[cpu as int],
                    pid: p,
                    info: q[0].0,
                    task: q[0].1,
                    switch_to: if old.current_vspace@[cpu as int] != p && root != 0 {
                        Some(root)
                    } else {
                        None
                    },
                },
            )
            &&& new.current_vspace@[cpu as int] == p
            &&& new.schedulers@[owner as int]->Some_0.traps().traps()[cpu as int] == q.drop_first()
        }),
{
    let q = old.schedulers@[owner as int]->Some_0.traps().traps()[cpu as int];
    let p: usize = if q[0].1 is Some {
        tpid
    } else {
        0
    };
    assert(p < PROCESS_NUM);
    assert(r == Ok::<TrapWork, SchedError>(
        TrapWork::Handle {
            handler: old.current_task@[cpu as int],
            pid: p,
            info: q[0].0,
            task: q[0].1,
            switch_to: vspace_switch(old.process_info_table, old.current_vspace@[cpu as int], p),
        },
    ));
    assert(new.current_vspace@[cpu as int] == p);
    old.schedulers@[owner as int]->Some_0.lemma_wf();
    old.schedulers@[owner as int]->Some_0.traps().lemma_wf();
    assert(new.schedulers@[owner as int]->Some_0.traps().traps()[cpu as int] == q.drop_first());
    assert(vspace_switch(old.process_info_table, old.current_vspace@[cpu as int], p) == (if old.current_vspace@[
        cpu as int] != p && old.process_info_table.entries()[p as int].vspace != 0 {
        Some(old.process_info_table.entries()[p as int].vspace)
    } else {
        None
    }));
}

/// A task handed to `push_task_into_current` goes, in the kernel, to the
/// kernel scheduler (process 0), and at user level to the scheduler of the
/// CPU's current address space: no other scheduler changes, and when it
/// went in it is last in the ready level of its priority there.
pub proof fn law_push_into_current_target<HP, TT>(
    old: VvarData<HP, TT>,
    new: VvarData<HP, TT>,
    cpu: usize,
    task: usize,
    prio: isize,
    r: Result<bool, SchedError>,
) where
    HP: Fn(usize, usize) -> isize,
    TT: Fn(usize, usize) -> (usize, isize),

    requires
        old.wf(),
        cpu < CPU_NUM,
        VvarData::enqueue_post(old, new, cpu, old.current_target(cpu), task, prio, r),
    ensures
        ({
            let t: int = if old.in_kernel@[cpu as int] {
                0
            } else {
                old.current_vspace@[cpu as int] as int
            };
            let l = prio - HIGHEST_PRIORITY;
            &&& forall|q: int| 0 <= q < PROCESS_NUM && q != t ==> new.schedulers@[q] == old.schedulers@[q]
            &&& r == Ok::<bool, SchedError>(true) ==> {
                &&& old.schedulers@[t] is Some
                &&& new.schedulers@[t] is Some
                &&& new.schedulers@[t]->Some_0.ready()@[l] == old.schedulers@[t]->Some_0.ready()@[l].push(
                    task,
                )
            }
        }),
{
    lemma_enqueued_only_there(old, new, cpu, old.current_target(cpu), task, prio, r);
}

/// What an enqueue that went in, or did not, leaves: only the target's
/// scheduler changes, and a task that went in is last of its level there.
proof fn lemma_enqueued_only_there<HP, TT>(
    old: VvarData<HP, TT>,
    new: VvarData<HP, TT>,
    cpu: usize,
    target: usize,
    task: usize,
    prio: isize,
    r: Result<bool, SchedError>,
) where
    HP: Fn(usize, usize) -> isize,
    TT: Fn(usize, usize) -> (usize, isize),

    requires
        old.wf(),
        target < PROCESS_NUM,
        VvarData::enqueue_post(old, new, cpu, target, task, prio, r),
    ensures
        forall|q: int| 0 <= q < PROCESS_NUM && q != target ==> new.schedulers@[q] == old.schedulers@[q],
        r == Ok::<bool, SchedError>(true) ==> {
            let l = prio - HIGHEST_PRIORITY;
            &&& old.schedulers@[target as int] is Some
            &&& new.schedulers@[target as int] is Some
            &&& new.schedulers@[target as int]->Some_0.ready()@[l] == old.schedulers@[
                target as int]->Some_0.ready()@[l].push(task)
        },
{
    if task != 0 && !(prio < HIGHEST_PRIORITY || prio > LOWEST_PRIORITY) && old.schedulers@[
        target as int] is Some {
        assert forall|q: int| 0 <= q < PROCESS_NUM && q != target implies new.schedulers@[q]
            == old.schedulers@[q] by {
            assert(new.schedulers@[q] == old.schedulers@.update(
                target as int,
                new.schedulers@[target as int],
            )[q]);
        }
        if r == Ok::<bool, SchedError>(true) {
            let l = prio - HIGHEST_PRIORITY;
            let o = old.schedulers@[target as int]->Some_0;
            let n = new.schedulers@[target as int]->Some_0;
            o.lemma_wf();
            o.ready().law_bitmap_mirrors_levels();
            assert(o.ready()@[l].len() < READY_QUEUE_SIZE);
            assert(n.ready()@ == o.ready()@.update(l, o.ready()@[l].push(task)));
        }
    }
}


/// A task handed to `push_task` goes to the kernel scheduler when it is a
/// kernel task, and otherwise to the scheduler of its own process `pid`:
/// no other scheduler changes, and when it went in it is last in the ready
/// level of its priority there.
pub proof fn law_push_task_target<HP, TT>(
    old: VvarData<HP, TT>,
    new: VvarData<HP, TT>,
    cpu: usize,
    task: usize,
    is_kernel: bool,
    pid: usize,
    prio: isize,
    r: Result<bool, SchedError>,
) where
    HP: Fn(usize, usize) -> isize,
    TT: Fn(usize, usize) -> (usize, isize),

    requires
        old.wf(),
        cpu < CPU_NUM,
        is_kernel || pid < PROCESS_NUM,
        VvarData::push_task_outcome(old, new, cpu, task, is_kernel, pid, prio, r),
    ensures
        ({
            let t: int = if is_kernel {
                0
            } else {
                pid as int
            };
            let l = prio - HIGHEST_PRIORITY;
            &&& forall|q: int| 0 <= q < PROCESS_NUM && q != t ==> new.schedulers@[q] == old.schedulers@[q]
            &&& r == Ok::<bool, SchedError>(true) ==> {
                &&& old.schedulers@[t] is Some
                &&& new.schedulers@[t] is Some
                &&& new.schedulers@[t]->Some_0.ready()@[l] == old.schedulers@[t]->Some_0.ready()@[l].push(
                    task,
                )
            }
        }),
{
    if task != 0 {
        let t: usize = if is_kernel {
            0
        } else {
            pid
        };
        if is_kernel || (old.process_info_table.entries()[pid as int].valid
            && old.process_info_table.entries()[pid as int].scheduler != 0) {
            lemma_enqueued_only_there(old, new, cpu, t, task, prio, r);
        }
    }
}

/// A ready task put back when it leaves the CPU goes to the scheduler of its
/// own process when that process has one, and to the kernel's for a kernel
/// task or a process without one: no other scheduler changes, and it is last
/// in the ready level of its priority there.
pub proof fn law_ready_task_requeued_home<HP, TT>(
    old: VvarData<HP, TT>,
    new: VvarData<HP, TT>,
    cpu: usize,
    is_kernel: bool,
    pid: usize,
    prio: isize,
) where
    HP: Fn(usize, usize) -> isize,
    TT: Fn(usize, usize) -> (usize, isize),

    requires
        old.wf(),
        cpu < CPU_NUM,
        VvarData::prev_task_post(old, new, cpu, TaskState::Ready, is_kernel, pid, prio),
        VvarData::prev_task_result(old, cpu, TaskState::Ready, is_kernel, pid, prio) == Ok::<
            Option<usize>,
            SchedError,
        >(None),
    ensures
        ({
            let t: int = if !is_kernel && old.schedulers@[pid as int] is Some {
                pid as int
            } else {
                0
            };
            let l = prio - HIGHEST_PRIORITY;
            let task = old.current_task@[cpu as int];
            &&& !is_kernel ==> pid < PROCESS_NUM
            &&& old.schedulers@[t] is Some
            &&& new.schedulers@[t] is Some
            &&& new.schedulers@[t]->Some_0.ready()@[l] == old.schedulers@[t]->Some_0.ready()@[l].push(task)
            &&& forall|q: int| 0 <= q < PROCESS_NUM && q != t ==> new.schedulers@[q] == old.schedulers@[q]
        }),
{
    let target = VvarData::requeue_pid(old, is_kernel, pid);
    law_requeue_to_existing_scheduler(old, is_kernel, pid);
    if !is_kernel && pid != 0 {
        assert(old.process_info_table.entries()[pid as int].scheduler != 0 <==> old.schedulers@[
            pid as int] is Some);
    }
    let task = old.current_task@[cpu as int];
    let er = VvarData::enqueue_result(old, target, task, prio);
    assert(er == Ok::<bool, SchedError>(true));
    lemma_enqueued_only_there(old, new, cpu, target, task, prio, er);
}

/// At user level, a trap handler taken from the current process's scheduler
/// for a trap that stopped a task is given that task's process `tpid` (0
/// when the trap stopped none), and becomes the CPU's current task.
pub proof fn law_user_handler_works_for_trapped_process<HP, TT>(
    old: VvarData<HP, TT>,
    mid: VvarData<HP, TT>,
    new: VvarData<HP, TT>,
    cpu: usize,
    handler: usize,
    prio: isize,
    trap: Option<usize>,
    tpid: usize,
    r: Result<UtaskOutcome, SchedError>,
) where
    HP: Fn(usize, usize) -> isize,
    TT: Fn(usize, usize) -> (usize, isize),

    requires
        old.wf(),
        cpu < CPU_NUM,
        old.schedulers@[old.current_vspace@[cpu as int] as int] is Some,
        VvarData::utask_post(
            old,
            mid,
            new,
            cpu,
            old.current_vspace@[cpu as int],
            Ok::<Taken, TaskState>(Taken { task: Some(handler), prio, trap_of: Some(trap) }),
            tpid,
            r,
        ),
    ensures
        r == Ok::<UtaskOutcome, SchedError>(
            UtaskOutcome::Run {
                set_pid: Some(
                    match trap {
                        Some(_) => tpid,
                        None => 0,
                    },
                ),
            },
        ),
        new.current_task@[cpu as int] == handler,
{
}

} // verus!
