//! Build-time configuration and the task state shared with the OS.
use vstd::prelude::*;

verus! {

/// Number of CPU cores.
pub const CPU_NUM: usize = 1;

/// Maximum number of event sources in one scheduler.
pub const EVENT_SORCE_NUM: usize = 8;

/// Capacity of each ready queue.
pub const READY_QUEUE_SIZE: usize = 256;

/// Capacity of each trap wait queue and of the idle trap handler queue.
pub const TRAP_WAIT_QUEUE_SIZE: usize = 256;

/// Lowest task priority (largest number).
pub const LOWEST_PRIORITY: isize = 15;

/// Highest task priority (smallest number).
pub const HIGHEST_PRIORITY: isize = 0;

/// Size of the global process table.
pub const PROCESS_NUM: usize = 256;

/// Size of a stack pool.
pub const STACK_POOL_SIZE: usize = 16;

/// State of a task.
#[derive(PartialEq, Eq, Structural, Clone, Copy, Debug)]
pub enum TaskState {
    /// Ready: may be taken out of a ready queue and run.
    Ready,
    /// Running.
    Running,
    /// Blocked.
    Blocked,
    /// Exited.
    Exited,
    /// Put on a wait queue, but its context is not saved yet.
    Blocking,
}

/// The OS side of tasks and trap records, reached through handles (the
/// addresses of the OS's task control blocks and trap records).
///
/// The OS implements it. Of what it returns nothing is assumed, but for the
/// one duty of `new_handler`: the handler it makes runs the trap handler
/// loop on the queue it was made for.
pub trait TaskHost {
    /// The trap wait queue (by its address) that the trap handler task
    /// `handler` was made to serve.
    spec fn handler_queue(&self, handler: usize) -> usize;

    /// The process number of the address space `task` runs in.
    fn pid(&self, task: usize) -> usize;

    /// Sets the process number of `task`.
    fn set_pid(&self, task: usize, pid: usize);

    /// Sets the state of `task`, returning the previous one.
    fn set_state(&self, task: usize, state: TaskState) -> TaskState;

    /// Atomically moves `task` from its state to the matching argument
    /// (`ready` when it is `Ready`, ...), returning the previous state.
    fn match_set_state(
        &self,
        task: usize,
        ready: TaskState,
        running: TaskState,
        blocked: TaskState,
        exited: TaskState,
        blocking: TaskState,
    ) -> TaskState;

    /// Creates a trap handler task serving the trap wait queue at `queue`
    /// and returns its handle.
    fn new_handler(&self, queue: usize) -> (r: usize)
        ensures
            self.handler_queue(r) == queue,
    ;

    /// The state of `task`.
    fn state(&self, task: usize) -> TaskState;

    /// The priority of `task` (smaller is higher).
    fn priority(&self, task: usize) -> isize;

    /// Whether `task` runs in the kernel.
    fn is_kernel(&self, task: usize) -> bool;

    /// Whether `task` is a coroutine (else a thread), judging by the context
    /// it saved last.
    fn is_coroutine(&self, task: usize) -> bool;

    /// The stack saved with the thread context of `task`.
    fn thread_stack(&self, task: usize) -> usize;

    /// Frees the exited task `task`.
    fn dealloc_task(&self, task: usize);

    /// Creates the trap record of the trapped task `task` and returns its
    /// handle.
    fn trap_info(&self, task: usize) -> usize;
}

} // verus!
