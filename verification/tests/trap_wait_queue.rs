use std::cell::{Cell, RefCell};
use std::collections::HashMap;

use vsched::interface::{TaskHost, TaskState};
use vsched::schedule::trap_wait_queue::{
    create_new_handler, idle_step, new_handler_ok, trapped_task_requeue, IdleStep, TrapWaitQueue,
    ACTIVE_PRIORITY, INACTIVE_PRIORITY,
};

struct Host {
    states: RefCell<HashMap<usize, TaskState>>,
    pids: RefCell<HashMap<usize, usize>>,
    next_handler: Cell<usize>,
    fresh_state: Cell<TaskState>,
    made_for: RefCell<HashMap<usize, usize>>,
}

impl Host {
    fn new() -> Self {
        Host {
            states: RefCell::new(HashMap::new()),
            pids: RefCell::new(HashMap::new()),
            next_handler: Cell::new(0x100),
            fresh_state: Cell::new(TaskState::Blocked),
            made_for: RefCell::new(HashMap::new()),
        }
    }
    fn st(&self, t: usize) -> TaskState {
        *self.states.borrow().get(&t).unwrap_or(&TaskState::Ready)
    }
    fn put(&self, t: usize, s: TaskState) {
        self.states.borrow_mut().insert(t, s);
    }
}

impl TaskHost for Host {
    fn handler_queue(&self, handler: usize) -> usize {
        *self.made_for.borrow().get(&handler).unwrap_or(&0)
    }
    fn pid(&self, task: usize) -> usize {
        *self.pids.borrow().get(&task).unwrap_or(&0)
    }
    fn set_pid(&self, task: usize, pid: usize) {
        self.pids.borrow_mut().insert(task, pid);
    }
    fn set_state(&self, task: usize, state: TaskState) -> TaskState {
        let p = self.st(task);
        self.put(task, state);
        p
    }
    fn match_set_state(
        &self,
        task: usize,
        ready: TaskState,
        running: TaskState,
        blocked: TaskState,
        exited: TaskState,
        blocking: TaskState,
    ) -> TaskState {
        let p = self.st(task);
        let n = match p {
            TaskState::Ready => ready,
            TaskState::Running => running,
            TaskState::Blocked => blocked,
            TaskState::Exited => exited,
            TaskState::Blocking => blocking,
        };
        self.put(task, n);
        p
    }
    fn new_handler(&self, queue: usize) -> usize {
        let h = self.next_handler.get();
        self.next_handler.set(h + 1);
        self.made_for.borrow_mut().insert(h, queue);
        self.put(h, self.fresh_state.get());
        h
    }
    fn state(&self, task: usize) -> TaskState {
        self.st(task)
    }
    fn priority(&self, _task: usize) -> isize {
        5
    }
    fn is_kernel(&self, _task: usize) -> bool {
        true
    }
    fn is_coroutine(&self, _task: usize) -> bool {
        true
    }
    fn thread_stack(&self, _task: usize) -> usize {
        0
    }
    fn dealloc_task(&self, _task: usize) {}
    fn trap_info(&self, task: usize) -> usize {
        task + 1
    }
}

const QUEUE: usize = 0x40;

fn initialised(host: &Host) -> TrapWaitQueue {
    let mut q = TrapWaitQueue::new();
    q.init(QUEUE, host);
    q
}

#[test]
fn idle_step_by_state() {
    assert_eq!(idle_step(TaskState::Blocked), IdleStep::Run);
    assert_eq!(idle_step(TaskState::Blocking), IdleStep::WakeInProgress);
    assert_eq!(idle_step(TaskState::Exited), IdleStep::Skip);
    assert_eq!(idle_step(TaskState::Ready), IdleStep::Invalid);
    assert_eq!(idle_step(TaskState::Running), IdleStep::Invalid);
}

#[test]
fn new_handler_states() {
    assert!(new_handler_ok(TaskState::Ready));
    assert!(new_handler_ok(TaskState::Blocked));
    assert!(!new_handler_ok(TaskState::Running));
    assert!(!new_handler_ok(TaskState::Exited));
    let host = Host::new();
    host.put(9, TaskState::Blocked);
    assert_eq!(create_new_handler(9, &host), Ok(9));
    assert_eq!(host.state(9), TaskState::Ready);
    host.put(10, TaskState::Running);
    assert_eq!(create_new_handler(10, &host), Err(TaskState::Running));
}

#[test]
fn trapped_task_requeue_by_state() {
    assert_eq!(trapped_task_requeue(TaskState::Blocked), Ok(true));
    assert_eq!(trapped_task_requeue(TaskState::Exited), Ok(false));
    assert_eq!(trapped_task_requeue(TaskState::Ready), Err(TaskState::Ready));
}

#[test]
fn priority_follows_pending_traps() {
    let host = Host::new();
    let mut q = initialised(&host);
    assert_eq!(q.hightest_priority(0), INACTIVE_PRIORITY);
    q.push_trap(1, Some(2), 0).unwrap();
    assert_eq!(q.hightest_priority(0), ACTIVE_PRIORITY);
    assert_eq!(q.pop_trap(0), Some((1, Some(2))));
    assert_eq!(q.hightest_priority(0), INACTIVE_PRIORITY);
    assert_eq!(q.pop_trap(0), None);
}

#[test]
fn traps_come_out_in_order() {
    let host = Host::new();
    let mut q = initialised(&host);
    q.push_trap(1, None, 0).unwrap();
    q.push_trap(2, Some(7), 0).unwrap();
    q.push_trap(3, None, 0).unwrap();
    assert_eq!(q.pop_trap(0), Some((1, None)));
    assert_eq!(q.pop_trap(0), Some((2, Some(7))));
    assert_eq!(q.pop_trap(0), Some((3, None)));
}

#[test]
fn trap_queue_full_hands_record_back() {
    let host = Host::new();
    let mut q = initialised(&host);
    for i in 0..vsched::interface::TRAP_WAIT_QUEUE_SIZE {
        assert_eq!(q.push_trap(i, None, 0), Ok(()));
    }
    assert_eq!(q.push_trap(0xfff, Some(1), 0), Err((0xfff, Some(1))));
}

#[test]
fn take_without_trap_is_inactive() {
    let host = Host::new();
    let mut q = initialised(&host);
    assert_eq!(q.take_task(0, QUEUE, &host), Ok((0, INACTIVE_PRIORITY)));
}

#[test]
fn take_wakes_idle_handler_with_task_pid() {
    let host = Host::new();
    let mut q = initialised(&host);
    host.set_pid(0x55, 4);
    q.push_trap(0x1, Some(0x55), 0).unwrap();
    // the start-up handler (0x100) is blocked: it is woken and handed out;
    // the trap it serves first is that of the task of process 4
    assert_eq!(q.first_trap(0), Some((0x1, Some(0x55))));
    assert_eq!(q.take_task(0, QUEUE, &host), Ok((0x100, ACTIVE_PRIORITY)));
    assert_eq!(host.state(0x100), TaskState::Ready);
    assert_eq!(host.made_for.borrow().get(&0x100), Some(&QUEUE));
    // the trap stays queued for the handler
    assert_eq!(q.hightest_priority(0), ACTIVE_PRIORITY);
}

#[test]
fn take_creates_handler_when_none_idle() {
    let host = Host::new();
    let mut q = initialised(&host);
    q.push_trap(0x1, None, 0).unwrap();
    assert_eq!(q.take_task(0, QUEUE, &host), Ok((0x100, ACTIVE_PRIORITY)));
    // no idle handler left: a new one (0x101) is created, for the queue
    assert_eq!(q.take_task(0, QUEUE, &host), Ok((0x101, ACTIVE_PRIORITY)));
    assert_eq!(host.made_for.borrow().get(&0x101), Some(&QUEUE));
}

#[test]
fn take_skips_exited_and_waits_for_blocking() {
    let host = Host::new();
    let mut q = initialised(&host);
    host.put(0x100, TaskState::Exited);
    host.put(0x200, TaskState::Blocking);
    assert_eq!(q.reschedule_handler(0x200), (0, TaskState::Blocking));
    assert_eq!(host.state(0x200), TaskState::Blocking);
    q.push_trap(0x1, None, 0).unwrap();
    assert_eq!(q.take_task(0, QUEUE, &host), Ok((0, ACTIVE_PRIORITY)));
    assert_eq!(host.state(0x200), TaskState::Ready);
}

#[test]
fn take_reports_invalid_idle_handler() {
    let host = Host::new();
    let mut q = initialised(&host);
    host.put(0x100, TaskState::Running);
    q.push_trap(0x1, None, 0).unwrap();
    assert_eq!(q.take_task(0, QUEUE, &host), Err(TaskState::Running));
}

#[test]
fn reschedule_handler_parks_for_process_zero() {
    let host = Host::new();
    let mut q = initialised(&host);
    host.set_pid(0x300, 8);
    // the answer is the process number and state to give the handler
    assert_eq!(q.reschedule_handler(0x300), (0, TaskState::Blocking));
    assert_eq!(host.pid(0x300), 8);
}
