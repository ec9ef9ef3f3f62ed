//! The decisions of the scheduling loop.
//!
//! The loop itself switches stacks, address spaces and privilege levels,
//! which happens outside this crate; here are the choices it makes at each
//! step, from the state it is in and the event that happened.
use vstd::prelude::*;
use crate::interface::{TaskState, PROCESS_NUM};
use crate::schedule::process_info::ProcessInfoTable;

verus! {

/// What to do on entering the scheduler from a trap.
#[derive(PartialEq, Eq, Structural, Clone, Copy, Debug)]
pub struct TrapEntryPlan {
    /// Whether the trap left the CPU in the kernel.
    pub in_kernel: bool,
    /// The state to give the interrupted task, if it is to be stopped.
    pub new_state: Option<TaskState>,
    /// Whether to queue a trap record, and whether it carries the task.
    pub queue_trap: Option<bool>,
    /// Where to go next: 1 the kernel scheduler, 2 the user scheduler, 3 the
    /// kernel side of a switch requested by a user scheduler.
    pub next: usize,
}

/// Why a trap entry cannot be handled.
#[derive(PartialEq, Eq, Structural, Clone, Copy, Debug)]
pub enum TrapEntryError {
    /// The privilege level is neither 0 (kernel) nor 1 (user).
    UnknownPrivilege,
    /// The trap type is none of 0 (synchronous), 1 (interrupt), 2 (switch).
    UnknownTrapType,
    /// Synchronous traps from user level are not handled.
    UserTrapUnsupported,
}

/// The plan for a trap of type `trap_type` (0 synchronous, 1 external
/// interrupt, 2 a user scheduler asking the kernel to switch) that left the
/// CPU at privilege `privilege` (0 kernel, 1 user).
///
/// A synchronous trap in the kernel blocks the task and queues the trap with
/// it; an interrupt makes the task ready and queues the trap without it (in
/// the kernel) or goes to the user scheduler (at user level); a switch
/// request goes on to the kernel side of the switch.
pub open spec fn trap_plan(trap_type: usize, privilege: usize) -> Result<TrapEntryPlan, TrapEntryError> {
    if privilege > 1 {
        Err(TrapEntryError::UnknownPrivilege)
    } else if trap_type > 2 {
        Err(TrapEntryError::UnknownTrapType)
    } else if trap_type == 2 {
        Ok(TrapEntryPlan { in_kernel: privilege == 0, new_state: None, queue_trap: None, next: 3 })
    } else if privilege == 1 {
        if trap_type == 0 {
            Err(TrapEntryError::UserTrapUnsupported)
        } else {
            Ok(TrapEntryPlan { in_kernel: false, new_state: Some(TaskState::Ready), queue_trap: None, next: 2 })
        }
    } else if trap_type == 0 {
        Ok(TrapEntryPlan { in_kernel: true, new_state: Some(TaskState::Blocked), queue_trap: Some(true), next: 1 })
    } else {
        Ok(TrapEntryPlan { in_kernel: true, new_state: Some(TaskState::Ready), queue_trap: Some(false), next: 1 })
    }
}

/// Computes [`trap_plan`].
pub fn trap_entry_plan(trap_type: usize, privilege: usize) -> (r: Result<TrapEntryPlan, TrapEntryError>)
    ensures
        r == trap_plan(trap_type, privilege),
{
    if privilege > 1 {
        return Err(TrapEntryError::UnknownPrivilege);
    }
    let in_kernel = privilege == 0;
    if trap_type == 0 {
        if in_kernel {
            Ok(
                TrapEntryPlan {
                    in_kernel,
                    new_state: Some(TaskState::Blocked),
                    queue_trap: Some(true),
                    next: 1,
                },
            )
        } else {
            Err(TrapEntryError::UserTrapUnsupported)
        }
    } else if trap_type == 1 {
        if in_kernel {
            Ok(
                TrapEntryPlan {
                    in_kernel,
                    new_state: Some(TaskState::Ready),
                    queue_trap: Some(false),
                    next: 1,
                },
            )
        } else {
            Ok(TrapEntryPlan { in_kernel, new_state: Some(TaskState::Ready), queue_trap: None, next: 2 })
        }
    } else if trap_type == 2 {
        Ok(TrapEntryPlan { in_kernel, new_state: None, queue_trap: None, next: 3 })
    } else {
        Err(TrapEntryError::UnknownTrapType)
    }
}

/// How each trap of a known kind is routed: a user scheduler's request to
/// switch (type 2) goes on to the kernel side of the switch (3) whatever the
/// privilege, touching no task and queueing no record; a synchronous trap
/// in the kernel (type 0) blocks the task, queues the trap with it and goes
/// to the kernel scheduler (1); an interrupt (type 1) makes the task ready,
/// and in the kernel queues the trap without the task and goes to the
/// kernel scheduler (1), at user level goes to the user scheduler (2). The
/// privilege after the trap says whether the CPU is in the kernel.
pub proof fn law_trap_routing(trap_type: usize, privilege: usize)
    requires
        trap_type <= 2,
        privilege <= 1,
        !(trap_type == 0 && privilege == 1),
    ensures
        trap_plan(trap_type, privilege) is Ok,
        trap_plan(trap_type, privilege)->Ok_0.in_kernel == (privilege == 0),
        trap_type == 2 ==> trap_plan(trap_type, privilege) == Ok::<TrapEntryPlan, TrapEntryError>(
            TrapEntryPlan { in_kernel: privilege == 0, new_state: None, queue_trap: None, next: 3 },
        ),
        trap_type == 0 ==> trap_plan(trap_type, privilege) == Ok::<TrapEntryPlan, TrapEntryError>(
            TrapEntryPlan {
                in_kernel: true,
                new_state: Some(TaskState::Blocked),
                queue_trap: Some(true),
                next: 1,
            },
        ),
        trap_type == 1 && privilege == 0 ==> trap_plan(trap_type, privilege) == Ok::<
            TrapEntryPlan,
            TrapEntryError,
        >(
            TrapEntryPlan {
                in_kernel: true,
                new_state: Some(TaskState::Ready),
                queue_trap: Some(false),
                next: 1,
            },
        ),
        trap_type == 1 && privilege == 1 ==> trap_plan(trap_type, privilege) == Ok::<
            TrapEntryPlan,
            TrapEntryError,
        >(
            TrapEntryPlan {
                in_kernel: false,
                new_state: Some(TaskState::Ready),
                queue_trap: None,
                next: 2,
            },
        ),
{
}

/// The state a thread entering the scheduler is left in: a blocking thread
/// becomes blocked, a running one ready; any other state stays.
pub open spec fn after_thread_yield(state: TaskState) -> TaskState {
    match state {
        TaskState::Blocking => TaskState::Blocked,
        TaskState::Running => TaskState::Ready,
        _ => state,
    }
}

/// Computes [`after_thread_yield`].
pub fn thread_entry_state(state: TaskState) -> (r: TaskState)
    ensures
        r == after_thread_yield(state),
{
    match state {
        TaskState::Blocking => TaskState::Blocked,
        TaskState::Running => TaskState::Ready,
        _ => state,
    }
}

/// The state a coroutine is left in after being polled: exited when it
/// finished; blocked when it yielded while blocking or still running; else
/// the state it set.
pub open spec fn after_coroutine_poll(finished: bool, state: TaskState) -> TaskState {
    if finished {
        TaskState::Exited
    } else {
        match state {
            TaskState::Blocking | TaskState::Running => TaskState::Blocked,
            _ => state,
        }
    }
}

/// Computes [`after_coroutine_poll`].
pub fn coroutine_yield_state(finished: bool, state: TaskState) -> (r: TaskState)
    ensures
        r == after_coroutine_poll(finished, state),
{
    if finished {
        TaskState::Exited
    } else {
        match state {
            TaskState::Blocking | TaskState::Running => TaskState::Blocked,
            _ => state,
        }
    }
}

/// What becomes of the task that just left the CPU.
#[derive(PartialEq, Eq, Structural, Clone, Copy, Debug)]
pub enum PrevTaskAction {
    /// Put it back on its scheduler.
    Requeue,
    /// Free it.
    Dealloc,
    /// Leave it (it waits elsewhere).
    Keep,
}

/// A ready task goes back to its scheduler, an exited one is freed, any
/// other is left alone.
pub fn prev_task_action(state: TaskState) -> (r: PrevTaskAction)
    ensures
        r == (match state {
            TaskState::Ready => PrevTaskAction::Requeue,
            TaskState::Exited => PrevTaskAction::Dealloc,
            _ => PrevTaskAction::Keep,
        }),
{
    match state {
        TaskState::Ready => PrevTaskAction::Requeue,
        TaskState::Exited => PrevTaskAction::Dealloc,
        _ => PrevTaskAction::Keep,
    }
}

/// The scheduler a ready task goes back to: `None` for the kernel scheduler
/// (a kernel task, or a process without a scheduler yet), else the address of
/// the scheduler of process `pid`.
pub fn requeue_target(table: &ProcessInfoTable, is_kernel: bool, pid: usize) -> (r: Option<usize>)
    requires
        table.wf(),
        !is_kernel ==> pid < PROCESS_NUM,
    ensures
        r == (if is_kernel || table.entries()[pid as int].scheduler == 0 {
            None::<usize>
        } else {
            Some(table.entries()[pid as int].scheduler)
        }),
{
    if is_kernel {
        return None;
    }
    let s = table.get(pid).scheduler;
    if s == 0 {
        None
    } else {
        Some(s)
    }
}

/// The scheduler of process `pid` to put a task on, if the process exists
/// and has one.
pub fn process_scheduler(table: &ProcessInfoTable, pid: usize) -> (r: Option<usize>)
    requires
        table.wf(),
        pid < PROCESS_NUM,
    ensures
        r == (if table.entries()[pid as int].valid && table.entries()[pid as int].scheduler != 0 {
            Some(table.entries()[pid as int].scheduler)
        } else {
            None::<usize>
        }),
{
    let e = table.get(pid);
    if !e.valid || e.scheduler == 0 {
        None
    } else {
        Some(e.scheduler)
    }
}

/// The page table root to switch to when a CPU in the address space of
/// process `prev` moves to that of `pid`: none when the process does not
/// change, or when its root is 0 (its tasks run in any address space).
pub open spec fn vspace_switch(table: ProcessInfoTable, prev: usize, pid: usize) -> Option<usize> {
    if prev != pid && table.entries()[pid as int].vspace != 0 {
        Some(table.entries()[pid as int].vspace)
    } else {
        None
    }
}

/// Makes process `vspace_pid` the current address space of this CPU
/// (`current_vspace` holds the current one) and returns the page table root
/// to switch to, if any (see [`vspace_switch`]).
pub fn switch_vspace(current_vspace: &mut usize, vspace_pid: usize, table: &ProcessInfoTable) -> (r:
    Option<usize>)
    requires
        table.wf(),
        vspace_pid < PROCESS_NUM,
    ensures
        *final(current_vspace) == vspace_pid,
        r == vspace_switch(*table, *old(current_vspace), vspace_pid),
{
    let prev = *current_vspace;
    *current_vspace = vspace_pid;
    if vspace_pid != prev {
        let vspace = table.get(vspace_pid).vspace;
        if vspace == 0 {
            return None;
        }
        return Some(vspace);
    }
    None
}

/// Moving to the address space a CPU is in already never asks for a page
/// table switch, and moving to another process asks for its root exactly
/// when it has one.
pub proof fn law_switch_only_on_change(table: ProcessInfoTable, prev: usize, pid: usize)
    requires
        table.wf(),
        pid < PROCESS_NUM,
    ensures
        vspace_switch(table, pid, pid) is None,
        prev != pid ==> (vspace_switch(table, prev, pid) is Some <==> table.entries()[pid as int].vspace
            != 0),
        vspace_switch(table, prev, pid) matches Some(root) ==> root == table.entries()[pid as int].vspace,
{
}

/// How much of the stack at `stack_base` is in use, the stack pointer being
/// `sp`: 0 for an empty stack.
pub fn get_stack_type(sp: usize, stack_base: usize) -> (r: usize)
    requires
        sp >= stack_base,
    ensures
        r == sp - stack_base,
{
    sp - stack_base
}

/// Where the scheduler goes after a thread or coroutine left the CPU: 0 the
/// kernel scheduler, 1 the user scheduler.
pub fn entry_target(in_kernel: bool) -> (r: usize)
    ensures
        r == (if in_kernel {
            0usize
        } else {
            1usize
        }),
{
    if in_kernel {
        0
    } else {
        1
    }
}

} // verus!
