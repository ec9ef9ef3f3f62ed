use std::cell::{Cell, RefCell};
use std::collections::{HashMap, HashSet};
use std::sync::atomic::{AtomicUsize, Ordering};

use vsched::current::{KtaskOutcome, RunPlan, SchedError, TrapWork, UtaskOutcome, VvarData, YieldOutcome};
use vsched::interface::{TaskHost, TaskState, PROCESS_NUM};
use vsched::main_loop::{trap_entry_plan, TrapEntryError};
use vsched::schedule::trap_wait_queue::trapped_task_mapping;
use vsched::stack::Stack;

type Hp = fn(usize, usize) -> isize;
type Tt = fn(usize, usize) -> (usize, isize);
type Vvar = VvarData<Hp, Tt>;

static NEXT_STACK: AtomicUsize = AtomicUsize::new(0x10_0000);

struct Os;

impl Stack for Os {
    fn alloc_stack() -> usize {
        NEXT_STACK.fetch_add(0x1000, Ordering::SeqCst)
    }
    fn dealloc_stack(_stack: usize) {}
    fn base(stack: usize) -> usize {
        stack + 0x800
    }
}

struct Host {
    states: RefCell<HashMap<usize, TaskState>>,
    pids: RefCell<HashMap<usize, usize>>,
    prios: RefCell<HashMap<usize, isize>>,
    user: RefCell<HashSet<usize>>,
    threads: RefCell<HashMap<usize, usize>>,
    freed: RefCell<Vec<usize>>,
    next_handler: Cell<usize>,
    made_for: RefCell<HashMap<usize, usize>>,
}

impl Host {
    fn new() -> Self {
        Host {
            states: RefCell::new(HashMap::new()),
            pids: RefCell::new(HashMap::new()),
            prios: RefCell::new(HashMap::new()),
            user: RefCell::new(HashSet::new()),
            threads: RefCell::new(HashMap::new()),
            freed: RefCell::new(Vec::new()),
            next_handler: Cell::new(0x9000),
            made_for: RefCell::new(HashMap::new()),
        }
    }
    fn st(&self, task: usize) -> TaskState {
        *self.states.borrow().get(&task).unwrap_or(&TaskState::Ready)
    }
    fn put(&self, task: usize, s: TaskState) {
        self.states.borrow_mut().insert(task, s);
    }
    fn user_task(&self, task: usize, pid: usize) {
        self.user.borrow_mut().insert(task);
        self.pids.borrow_mut().insert(task, pid);
    }
}

impl TaskHost for Host {
    fn handler_queue(&self, handler: usize) -> usize {
        *self.made_for.borrow().get(&handler).unwrap_or(&0)
    }
    fn pid(&self, task: usize) -> usize {
        *self.pids.borrow().get(&task).unwrap_or(&0)
    }
    fn set_pid(&self, task: usize, pid: usize) {
        self.pids.borrow_mut().insert(task, pid);
    }
    fn set_state(&self, task: usize, state: TaskState) -> TaskState {
        let prev = self.st(task);
        self.put(task, state);
        prev
    }
    fn match_set_state(
        &self,
        task: usize,
        ready: TaskState,
        running: TaskState,
        blocked: TaskState,
        exited: TaskState,
        blocking: TaskState,
    ) -> TaskState {
        let prev = self.st(task);
        let next = match prev {
            TaskState::Ready => ready,
            TaskState::Running => running,
            TaskState::Blocked => blocked,
            TaskState::Exited => exited,
            TaskState::Blocking => blocking,
        };
        self.put(task, next);
        prev
    }
    fn new_handler(&self, queue: usize) -> usize {
        let h = self.next_handler.get();
        self.next_handler.set(h + 0x10);
        self.made_for.borrow_mut().insert(h, queue);
        self.put(h, TaskState::Blocked);
        h
    }
    fn state(&self, task: usize) -> TaskState {
        self.st(task)
    }
    fn priority(&self, task: usize) -> isize {
        *self.prios.borrow().get(&task).unwrap_or(&5)
    }
    fn is_kernel(&self, task: usize) -> bool {
        !self.user.borrow().contains(&task)
    }
    fn is_coroutine(&self, task: usize) -> bool {
        !self.threads.borrow().contains_key(&task)
    }
    fn thread_stack(&self, task: usize) -> usize {
        *self.threads.borrow().get(&task).unwrap_or(&0)
    }
    fn dealloc_task(&self, task: usize) {
        self.freed.borrow_mut().push(task);
    }
    fn trap_info(&self, task: usize) -> usize {
        task + 1
    }
}

/// Does what the OS does with the outcome of a task giving up the CPU.
fn settle(host: &Host, out: YieldOutcome) -> usize {
    if let Some(s) = out.set_state {
        host.set_state(out.task, s);
    }
    if let Some(t) = out.free {
        host.dealloc_task(t);
    }
    out.next
}

/// Does what a trap handler does once the trap of `task` was handled.
fn handled(vd: &mut Vvar, host: &Host, task: usize) -> Result<(), SchedError> {
    let (a, b, c, d, e) = trapped_task_mapping();
    let prev = host.match_set_state(task, a, b, c, d, e);
    vd.trap_handled(0, task, prev, host)
}

const INIT_TASK: usize = 0x1000;
const INIT_STACK: usize = 0x2000;

fn booted(host: &Host) -> Vvar {
    let mut vd = Vvar::new();
    let stack = vd.kernel_init_main::<Os, Host>(0, INIT_STACK, INIT_TASK, 0x40, 0x50, host).unwrap();
    assert_eq!(stack % 0x1000, 0);
    assert!(stack >= 0x10_0000);
    vd
}

#[test]
fn fresh_state() {
    let vd = Vvar::new();
    assert_eq!(vd.get_current_task(0), 0);
    assert_eq!(vd.current_vspace(0), 0);
    assert_eq!(vd.process_schedule(0), Ok(0));
}

#[test]
fn kernel_init_main_sets_up_cpu() {
    let host = Host::new();
    let mut vd = booted(&host);
    assert_eq!(vd.get_current_task(0), INIT_TASK);
    assert_eq!(vd.current_vspace(0), 0);
    assert_eq!(
        vd.kernel_init_main::<Os, Host>(0, INIT_STACK, INIT_TASK, 0x40, 0x50, &host),
        Err(SchedError::AlreadyInitialised)
    );
    assert_eq!(
        vd.kernel_init_secondary::<Os>(0, INIT_STACK, INIT_TASK),
        Err(SchedError::TrapStackInUse)
    );
}

#[test]
fn secondary_init_on_fresh_cpu() {
    let mut vd = Vvar::new();
    let stack = vd.kernel_init_secondary::<Os>(0, INIT_STACK, 0x77).unwrap();
    assert_eq!(stack % 0x1000, 0);
    assert!(stack >= 0x10_0000);
    assert_eq!(vd.get_current_task(0), 0x77);
}

#[test]
fn set_current_task_returns_previous() {
    let mut vd = Vvar::new();
    assert_eq!(vd.set_current_task(0, 0x33), 0);
    assert_eq!(vd.set_current_task(0, 0x44), 0x33);
    assert_eq!(vd.get_current_task(0), 0x44);
}

#[test]
fn kernel_task_pushed_then_scheduled() {
    let host = Host::new();
    let mut vd = booted(&host);
    host.prios.borrow_mut().insert(0x100, 3);
    assert_eq!(vd.push_task(0, 0x100, &host), Ok(true));
    assert_eq!(
        vd.kschedule_step(0, &host),
        Ok(KtaskOutcome::Run { next: 0, switch_to: None, set_pid: None })
    );
    assert_eq!(vd.get_current_task(0), 0x100);
    // nothing is left
    assert_eq!(
        vd.kschedule_step(0, &host),
        Ok(KtaskOutcome::Retry { switch_to: None })
    );
}

#[test]
fn kschedule_without_kernel_scheduler() {
    let host = Host::new();
    let mut vd = Vvar::new();
    assert_eq!(vd.kschedule_step(0, &host), Err(SchedError::NotInitialised));
}

#[test]
fn push_refuses_null_and_bad_priority() {
    let host = Host::new();
    let mut vd = booted(&host);
    assert_eq!(vd.push_task(0, 0, &host), Err(SchedError::NullTask));
    host.prios.borrow_mut().insert(0x100, 20);
    assert_eq!(vd.push_task(0, 0x100, &host), Err(SchedError::PriorityOutOfRange(20)));
    host.prios.borrow_mut().insert(0x100, -1);
    assert_eq!(vd.enqueue(0, 0, 0x100, -1), Err(SchedError::PriorityOutOfRange(-1)));
}

#[test]
fn enqueue_without_scheduler_answers_false() {
    let mut vd = Vvar::new();
    assert_eq!(vd.enqueue(0, 0, 0x100, 3), Ok(false));
}

#[test]
fn user_task_of_unknown_process() {
    let host = Host::new();
    let mut vd = booted(&host);
    host.user_task(0x200, 7);
    assert_eq!(vd.push_task(0, 0x200, &host), Ok(false));
    host.user_task(0x201, PROCESS_NUM + 3);
    assert_eq!(vd.push_task(0, 0x201, &host), Err(SchedError::ProcessOutOfRange(PROCESS_NUM + 3)));
}

#[test]
fn process_lifecycle() {
    let host = Host::new();
    let mut vd = booted(&host);
    assert_eq!(vd.process_init(0xAAAA, 0xBBBB), Ok(1));
    host.user_task(0x300, 1);
    assert_eq!(vd.push_task(0, 0x300, &host), Ok(true));
    assert_eq!(vd.push_task_into_process(0, 0x301, 1, &host), Ok(true));
    assert!(vd.process_drop(1));
    assert!(!vd.process_drop(1));
    assert_eq!(vd.push_task_into_process(0, 0x302, 1, &host), Ok(false));
    assert_eq!(vd.push_task(0, 0x300, &host), Ok(false));
    // a number given back is handed out again later
    assert_eq!(vd.process_init(0xCCCC, 0xDDDD), Ok(2));
}

#[test]
fn process_table_fills_up() {
    let mut vd = Vvar::new();
    for expected in 1..PROCESS_NUM {
        assert!(vd.process_info_table.has_free_number());
        assert_eq!(vd.process_init(0x1, 0x2), Ok(expected));
    }
    // every number is taken: a new process cannot be registered
    assert!(!vd.process_info_table.has_free_number());
}

#[test]
fn no_process_to_pick() {
    let host = Host::new();
    let mut vd = Vvar::new();
    assert!(vd.process_drop(0));
    assert_eq!(vd.process_schedule(0), Err(SchedError::NoProcess));
    assert_eq!(vd.kschedule_step(0, &host), Err(SchedError::NoProcess));
}

#[test]
fn push_into_current_follows_privilege() {
    let host = Host::new();
    let mut vd = booted(&host);
    // in the kernel the kernel scheduler takes it
    assert_eq!(vd.push_task_into_current(0, 0x400, &host), Ok(true));
    assert_eq!(
        vd.ktask_schedule(0, 0, &host),
        Ok(KtaskOutcome::Run { next: 0, switch_to: None, set_pid: None })
    );
    assert_eq!(vd.get_current_task(0), 0x400);
}

#[test]
fn thread_entry_requeues_running_thread() {
    let host = Host::new();
    let mut vd = booted(&host);
    host.put(INIT_TASK, TaskState::Running);
    let out = vd.thread_entry(0, &host).unwrap();
    assert_eq!(
        out,
        YieldOutcome { next: 0, task: INIT_TASK, set_state: Some(TaskState::Ready), free: None }
    );
    assert_eq!(settle(&host, out), 0);
    assert_eq!(host.st(INIT_TASK), TaskState::Ready);
    assert_eq!(
        vd.kschedule_step(0, &host),
        Ok(KtaskOutcome::Run { next: 0, switch_to: None, set_pid: None })
    );
    assert_eq!(vd.get_current_task(0), INIT_TASK);
}

#[test]
fn thread_entry_blocks_blocking_thread() {
    let host = Host::new();
    let mut vd = booted(&host);
    host.put(INIT_TASK, TaskState::Blocking);
    let out = vd.thread_entry(0, &host).unwrap();
    assert_eq!(
        out,
        YieldOutcome { next: 0, task: INIT_TASK, set_state: Some(TaskState::Blocked), free: None }
    );
    assert_eq!(settle(&host, out), 0);
    assert_eq!(host.st(INIT_TASK), TaskState::Blocked);
    assert_eq!(
        vd.kschedule_step(0, &host),
        Ok(KtaskOutcome::Retry { switch_to: None })
    );
}

#[test]
fn requeue_failure_is_reported() {
    let host = Host::new();
    let mut vd = Vvar::new();
    host.put(0, TaskState::Running);
    assert_eq!(vd.thread_entry(0, &host), Err(SchedError::NullTask));
    vd.set_current_task(0, 0x500);
    host.put(0x500, TaskState::Running);
    assert_eq!(vd.thread_entry(0, &host), Err(SchedError::RequeueFailed(0x500)));
}

#[test]
fn finished_coroutine_is_freed() {
    let host = Host::new();
    let mut vd = booted(&host);
    host.put(INIT_TASK, TaskState::Running);
    let out = vd.coroutine_exit(0, true, &host).unwrap();
    assert_eq!(
        out,
        YieldOutcome {
            next: 0,
            task: INIT_TASK,
            set_state: Some(TaskState::Exited),
            free: Some(INIT_TASK),
        }
    );
    assert_eq!(settle(&host, out), 0);
    assert_eq!(host.st(INIT_TASK), TaskState::Exited);
    assert_eq!(*host.freed.borrow(), vec![INIT_TASK]);
}

#[test]
fn yielding_coroutine_is_blocked() {
    let host = Host::new();
    let mut vd = booted(&host);
    host.put(INIT_TASK, TaskState::Running);
    let out = vd.coroutine_exit(0, false, &host).unwrap();
    assert_eq!(
        out,
        YieldOutcome { next: 0, task: INIT_TASK, set_state: Some(TaskState::Blocked), free: None }
    );
    assert_eq!(settle(&host, out), 0);
    assert_eq!(host.st(INIT_TASK), TaskState::Blocked);
    assert!(host.freed.borrow().is_empty());
}

#[test]
fn ready_coroutine_goes_back() {
    let host = Host::new();
    let mut vd = booted(&host);
    host.put(INIT_TASK, TaskState::Ready);
    assert_eq!(
        vd.coroutine_exit(0, false, &host),
        Ok(YieldOutcome { next: 0, task: INIT_TASK, set_state: None, free: None })
    );
    assert_eq!(
        vd.kschedule_step(0, &host),
        Ok(KtaskOutcome::Run { next: 0, switch_to: None, set_pid: None })
    );
}

#[test]
fn push_prev_task_by_state() {
    let host = Host::new();
    let mut vd = booted(&host);
    assert_eq!(vd.push_prev_task(0, TaskState::Blocked, &host), Ok(None));
    assert_eq!(vd.push_prev_task(0, TaskState::Exited, &host), Ok(Some(INIT_TASK)));
    assert!(host.freed.borrow().is_empty());
    assert_eq!(vd.push_prev_task(0, TaskState::Ready, &host), Ok(None));
    assert_eq!(
        vd.kschedule_step(0, &host),
        Ok(KtaskOutcome::Run { next: 0, switch_to: None, set_pid: None })
    );
}

#[test]
fn sync_trap_is_handled_then_task_resumes() {
    let host = Host::new();
    let mut vd = booted(&host);
    host.put(INIT_TASK, TaskState::Running);
    let out = vd.trap_entry::<Os, Host>(0, 0, 0, &host).unwrap();
    assert_eq!(out.next, 1);
    assert_eq!(out.trap_stack.map(|s| s % 0x1000), Some(0));
    assert_eq!(out.task_state, Some(TaskState::Blocked));
    host.set_state(INIT_TASK, TaskState::Blocked);
    // the trap wait queue wins: the start-up trap handler runs, for the
    // process of the trapped task
    let handler = match vd.kschedule_step(0, &host) {
        Ok(KtaskOutcome::Run { next: 0, switch_to: None, set_pid: Some(0) }) => vd.get_current_task(0),
        other => panic!("unexpected {other:?}"),
    };
    assert_ne!(handler, INIT_TASK);
    assert_eq!(host.made_for.borrow().get(&handler), Some(&0x40));
    assert_eq!(vd.task_to_run(0), (handler, TaskState::Running));
    assert_eq!(
        vd.trap_handler_next(0, 0, &host),
        Ok(TrapWork::Handle {
            handler,
            pid: 0,
            info: INIT_TASK + 1,
            task: Some(INIT_TASK),
            switch_to: None,
        })
    );
    assert_eq!(handled(&mut vd, &host, INIT_TASK), Ok(()));
    assert_eq!(host.st(INIT_TASK), TaskState::Ready);
    assert_eq!(
        vd.trap_handler_next(0, 0, &host),
        Ok(TrapWork::Park { handler, pid: 0, state: TaskState::Blocking })
    );
    host.set_state(handler, TaskState::Blocking);
    // the task is ready again
    host.put(handler, TaskState::Blocked);
    assert_eq!(
        vd.kschedule_step(0, &host),
        Ok(KtaskOutcome::Run { next: 0, switch_to: None, set_pid: None })
    );
    assert_eq!(vd.get_current_task(0), INIT_TASK);
}

#[test]
fn interrupt_makes_task_ready() {
    let host = Host::new();
    let mut vd = booted(&host);
    host.put(INIT_TASK, TaskState::Running);
    let out = vd.trap_entry::<Os, Host>(0, 1, 0, &host).unwrap();
    assert_eq!(out.next, 1);
    assert_eq!(out.task_state, Some(TaskState::Ready));
    assert!(out.trap_stack.is_some());
}

#[test]
fn user_interrupt_goes_to_user_scheduler() {
    let host = Host::new();
    let mut vd = booted(&host);
    host.put(INIT_TASK, TaskState::Running);
    let out = vd.trap_entry::<Os, Host>(0, 1, 1, &host).unwrap();
    assert_eq!(out.next, 2);
    assert_eq!(out.trap_stack, None);
    assert_eq!(out.task_state, Some(TaskState::Ready));
}

#[test]
fn trap_entry_refusals() {
    let host = Host::new();
    let mut vd = booted(&host);
    assert_eq!(trap_entry_plan(0, 2), Err(TrapEntryError::UnknownPrivilege));
    assert_eq!(trap_entry_plan(3, 0), Err(TrapEntryError::UnknownTrapType));
    assert_eq!(trap_entry_plan(0, 1), Err(TrapEntryError::UserTrapUnsupported));
    let switch = vd.trap_entry::<Os, Host>(0, 2, 1, &host).unwrap();
    assert_eq!(switch.next, 3);
    assert_eq!(switch.trap_stack, None);
    assert_eq!(switch.task_state, None);
    let mut fresh = Vvar::new();
    assert_eq!(fresh.trap_entry::<Os, Host>(0, 0, 0, &host), Err(SchedError::NoTrapStack));
}

#[test]
fn handled_task_states() {
    let host = Host::new();
    let mut vd = booted(&host);
    host.put(0x600, TaskState::Exited);
    assert_eq!(handled(&mut vd, &host, 0x600), Ok(()));
    assert_eq!(host.st(0x600), TaskState::Exited);
    host.put(0x601, TaskState::Running);
    assert_eq!(
        handled(&mut vd, &host, 0x601),
        Err(SchedError::TrappedTaskState(TaskState::Running))
    );
    assert_eq!(
        trapped_task_mapping(),
        (TaskState::Ready, TaskState::Running, TaskState::Ready, TaskState::Exited, TaskState::Blocking)
    );
}

#[test]
fn run_task_coroutine_and_thread() {
    let host = Host::new();
    let mut vd = booted(&host);
    // the boot stack is current: a coroutine runs on it
    match vd.run_task::<Os, Host>(0, 0, 0, &host) {
        Ok(RunPlan::Coroutine { stack }) => assert_eq!(stack, INIT_STACK),
        other => panic!("unexpected {other:?}"),
    }
    host.threads.borrow_mut().insert(INIT_TASK, 0x8000);
    assert_eq!(vd.run_task::<Os, Host>(0, 0, 0, &host), Ok(RunPlan::Thread));
    // the thread's stack is current now, and can be taken to be saved
    assert_eq!(vd.take_current_stack(0, &host), Ok(0x8000));
    assert_eq!(vd.take_current_stack(0, &host), Err(SchedError::NoCurrentStack));
}

#[test]
fn user_pool_needed_at_user_level() {
    let host = Host::new();
    let mut vd = booted(&host);
    assert_eq!(vd.run_task::<Os, Host>(0, 1, 0, &host), Err(SchedError::NotInitialised));
}

#[test]
fn user_process_runs_from_kernel() {
    let host = Host::new();
    let mut vd = booted(&host);
    assert_eq!(vd.process_init(0xAAAA, 0xBBBB), Ok(1));
    assert_eq!(vd.user_init(0, 1, 0x60, 0x61, 0x70, 0x71, &host), Ok(()));
    assert_eq!(vd.user_init(0, 1, 0x60, 0x61, 0x70, 0x71, &host), Err(SchedError::AlreadyInitialised));
    assert_eq!(vd.user_init(0, 5, 0x60, 0x61, 0x70, 0x71, &host), Err(SchedError::NotInitialised));
    host.user_task(0x700, 1);
    host.prios.borrow_mut().insert(0x700, 1);
    assert_eq!(vd.push_task(0, 0x700, &host), Ok(true));
    // process 1 now has the best priority
    assert_eq!(vd.process_schedule(0), Ok(1));
    assert_eq!(
        vd.kschedule_step(0, &host),
        Ok(KtaskOutcome::Run { next: 1, switch_to: Some(0xAAAA), set_pid: None })
    );
    assert_eq!(vd.get_current_task(0), 0x700);
    assert_eq!(vd.current_vspace(0), 1);
    // a user coroutine gets a stack of its process
    match vd.krun_utask::<Os, Host>(0, 0, &host) {
        Ok(RunPlan::Coroutine { stack }) => assert_eq!(stack % 0x1000, 0),
        other => panic!("unexpected {other:?}"),
    }
    // at user level, new tasks go to the current process
    assert_eq!(vd.push_task_into_current(0, 0x701, &host), Ok(true));
    assert_eq!(vd.uschedule_step::<Os, Host>(0, 0, &host), Ok(UtaskOutcome::Run { set_pid: None }));
    assert_eq!(vd.get_current_task(0), 0x701);
    assert_eq!(vd.uschedule_step::<Os, Host>(0, 0, &host), Ok(UtaskOutcome::Retry));
}

#[test]
fn user_scheduler_yields_to_kernel() {
    let host = Host::new();
    let mut vd = booted(&host);
    assert_eq!(vd.process_init(0xAAAA, 0xBBBB), Ok(1));
    assert_eq!(vd.user_init(0, 1, 0x60, 0x61, 0x70, 0x71, &host), Ok(()));
    host.user_task(0x700, 1);
    assert_eq!(vd.push_task(0, 0x700, &host), Ok(true));
    assert_eq!(
        vd.ktask_schedule(0, 1, &host),
        Ok(KtaskOutcome::Run { next: 1, switch_to: Some(0xAAAA), set_pid: None })
    );
    host.threads.borrow_mut().insert(0x700, 0x9_0000);
    assert_eq!(vd.krun_utask::<Os, Host>(0, 0, &host), Ok(RunPlan::Thread));
    // a kernel task of higher priority shows up
    host.prios.borrow_mut().insert(0x800, 0);
    assert_eq!(vd.enqueue(0, 0, 0x800, 0), Ok(true));
    assert_eq!(vd.uschedule_step::<Os, Host>(0, 0, &host), Ok(UtaskOutcome::IntoKernel));
    assert_eq!(vd.current_vspace(0), 0);
    assert_eq!(
        vd.ktask_schedule(0, 0, &host),
        Ok(KtaskOutcome::Run { next: 0, switch_to: None, set_pid: None })
    );
    assert_eq!(vd.get_current_task(0), 0x800);
}

#[test]
fn empty_user_process_is_retried() {
    let host = Host::new();
    let mut vd = booted(&host);
    assert_eq!(vd.process_init(0xAAAA, 0xBBBB), Ok(1));
    assert_eq!(
        vd.ktask_schedule(0, 1, &host),
        Ok(KtaskOutcome::Retry { switch_to: Some(0xAAAA) })
    );
    assert_eq!(vd.current_vspace(0), 1);
    assert_eq!(vd.ktask_schedule(0, 2, &host), Err(SchedError::NotInitialised));
}

#[test]
fn second_move_to_same_process_needs_no_switch() {
    let host = Host::new();
    let mut vd = booted(&host);
    assert_eq!(vd.process_init(0xAAAA, 0xBBBB), Ok(1));
    assert_eq!(
        vd.ktask_schedule(0, 1, &host),
        Ok(KtaskOutcome::Retry { switch_to: Some(0xAAAA) })
    );
    assert_eq!(
        vd.ktask_schedule(0, 1, &host),
        Ok(KtaskOutcome::Retry { switch_to: None })
    );
}

#[test]
fn ready_user_task_without_scheduler_goes_to_kernel() {
    let host = Host::new();
    let mut vd = booted(&host);
    // process 9 is not registered and has no scheduler
    vd.set_current_task(0, 0xA00);
    host.user_task(0xA00, 9);
    assert_eq!(vd.push_prev_task(0, TaskState::Ready, &host), Ok(None));
    assert_eq!(
        vd.kschedule_step(0, &host),
        Ok(KtaskOutcome::Run { next: 0, switch_to: None, set_pid: None })
    );
    assert_eq!(vd.get_current_task(0), 0xA00);
    assert_eq!(vd.current_vspace(0), 9);
}

#[test]
fn ready_user_task_goes_to_its_process() {
    let host = Host::new();
    let mut vd = booted(&host);
    assert_eq!(vd.process_init(0xAAAA, 0xBBBB), Ok(1));
    assert_eq!(vd.user_init(0, 1, 0x60, 0x61, 0x70, 0x71, &host), Ok(()));
    vd.set_current_task(0, 0xB00);
    host.user_task(0xB00, 1);
    assert_eq!(vd.push_prev_task(0, TaskState::Ready, &host), Ok(None));
    // the kernel scheduler has nothing; process 1 has the task
    assert_eq!(
        vd.ktask_schedule(0, 0, &host),
        Ok(KtaskOutcome::Retry { switch_to: None })
    );
    assert_eq!(
        vd.ktask_schedule(0, 1, &host),
        Ok(KtaskOutcome::Run { next: 1, switch_to: Some(0xAAAA), set_pid: None })
    );
    assert_eq!(vd.get_current_task(0), 0xB00);
}

#[test]
fn trap_queue_fills_up() {
    let host = Host::new();
    let mut vd = booted(&host);
    for _ in 0..256 {
        host.put(INIT_TASK, TaskState::Running);
        assert_eq!(vd.trap_entry::<Os, Host>(0, 0, 0, &host).map(|o| o.next), Ok(1));
    }
    host.put(INIT_TASK, TaskState::Running);
    assert_eq!(vd.trap_entry::<Os, Host>(0, 0, 0, &host), Err(SchedError::TrapQueueFull));
}

#[test]
fn idle_handler_in_bad_state_is_reported() {
    let host = Host::new();
    let mut vd = booted(&host);
    host.put(INIT_TASK, TaskState::Running);
    assert!(vd.trap_entry::<Os, Host>(0, 0, 0, &host).is_ok());
    // the one idle handler created at start-up claims to be running
    host.put(0x9000, TaskState::Running);
    assert_eq!(
        vd.kschedule_step(0, &host),
        Err(SchedError::HandlerState(TaskState::Running))
    );
}

#[test]
fn idle_handler_queue_fills_up() {
    let host = Host::new();
    let mut vd = booted(&host);
    // one handler is idle from start-up; the queue holds 256
    for _ in 0..255 {
        assert!(vd.can_park(0, 0));
        assert!(matches!(vd.trap_handler_next(0, 0, &host), Ok(TrapWork::Park { pid: 0, .. })));
    }
    // the idle queue is full: the handler cannot park
    assert!(!vd.can_park(0, 0));
    assert!(vd.can_park(0, 3));
    assert_eq!(vd.trap_handler_next(0, 3, &host), Err(SchedError::NotInitialised));
}

#[test]
fn trap_queue_owner_by_address() {
    let host = Host::new();
    let mut vd = booted(&host);
    assert_eq!(vd.trap_queue_owner(0x40), Some(0));
    assert_eq!(vd.trap_queue_owner(0x50), None);
    assert_eq!(vd.process_init(0xAAAA, 0xBBBB), Ok(1));
    assert_eq!(vd.trap_queue_owner(0x60), None);
    assert_eq!(vd.user_init(0, 1, 0x60, 0x61, 0x70, 0x71, &host), Ok(()));
    assert_eq!(vd.trap_queue_owner(0x60), Some(1));
}
