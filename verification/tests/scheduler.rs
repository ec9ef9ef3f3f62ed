use std::cell::{Cell, RefCell};
use std::collections::HashMap;
use std::sync::atomic::{AtomicIsize, AtomicUsize, Ordering};

use vsched::interface::{TaskHost, TaskState};
use vsched::schedule::event_source::EventSourceVtable;
use vsched::schedule::process_info::ProcessInfoTable;
use vsched::schedule::scheduler::{EventSourceEntry, Scheduler, Taken};
use vsched::schedule::trap_wait_queue::{ACTIVE_PRIORITY, INACTIVE_PRIORITY};

fn taken(task: Option<usize>, prio: isize) -> Taken {
    Taken { task, prio, trap_of: None }
}

struct MockHost {
    states: RefCell<HashMap<usize, TaskState>>,
    pids: RefCell<HashMap<usize, usize>>,
    next_handler: Cell<usize>,
    made_for: RefCell<HashMap<usize, usize>>,
}

impl MockHost {
    fn new() -> Self {
        MockHost {
            states: RefCell::new(HashMap::new()),
            pids: RefCell::new(HashMap::new()),
            next_handler: Cell::new(0x7000),
            made_for: RefCell::new(HashMap::new()),
        }
    }
    fn st(&self, task: usize) -> TaskState {
        *self.states.borrow().get(&task).unwrap_or(&TaskState::Ready)
    }
}

impl TaskHost for MockHost {
    fn handler_queue(&self, handler: usize) -> usize {
        *self.made_for.borrow().get(&handler).unwrap_or(&0)
    }
    fn pid(&self, task: usize) -> usize {
        *self.pids.borrow().get(&task).unwrap_or(&0)
    }
    fn set_pid(&self, task: usize, pid: usize) {
        self.pids.borrow_mut().insert(task, pid);
    }
    fn set_state(&self, task: usize, state: TaskState) -> TaskState {
        let prev = self.st(task);
        self.states.borrow_mut().insert(task, state);
        prev
    }
    fn match_set_state(
        &self,
        task: usize,
        ready: TaskState,
        running: TaskState,
        blocked: TaskState,
        exited: TaskState,
        blocking: TaskState,
    ) -> TaskState {
        let prev = self.st(task);
        let next = match prev {
            TaskState::Ready => ready,
            TaskState::Running => running,
            TaskState::Blocked => blocked,
            TaskState::Exited => exited,
            TaskState::Blocking => blocking,
        };
        self.states.borrow_mut().insert(task, next);
        prev
    }
    fn new_handler(&self, queue: usize) -> usize {
        let h = self.next_handler.get();
        self.next_handler.set(h + 0x10);
        self.made_for.borrow_mut().insert(h, queue);
        // a new handler is blocked until it is woken
        self.states.borrow_mut().insert(h, TaskState::Blocked);
        h
    }
    fn state(&self, task: usize) -> TaskState {
        self.st(task)
    }
    fn priority(&self, _task: usize) -> isize {
        5
    }
    fn is_kernel(&self, _task: usize) -> bool {
        true
    }
    fn is_coroutine(&self, _task: usize) -> bool {
        true
    }
    fn thread_stack(&self, _task: usize) -> usize {
        0
    }
    fn dealloc_task(&self, _task: usize) {}
    fn trap_info(&self, task: usize) -> usize {
        task + 1
    }
}

type Hp = fn(usize, usize) -> isize;
type Tt = fn(usize, usize) -> (usize, isize);

static EXT_PRIO: AtomicIsize = AtomicIsize::new(16);
static EXT_TASK: AtomicUsize = AtomicUsize::new(0);

fn ext_prio(_data: usize, _cpu: usize) -> isize {
    EXT_PRIO.load(Ordering::SeqCst)
}

fn ext_take(_data: usize, _cpu: usize) -> (usize, isize) {
    let t = EXT_TASK.swap(0, Ordering::SeqCst);
    EXT_PRIO.store(16, Ordering::SeqCst);
    (t, 16)
}

fn user_prio(_data: usize, _cpu: usize) -> isize {
    1
}

fn fixed_prio_2(_data: usize, _cpu: usize) -> isize {
    2
}

fn take_nothing(_data: usize, _cpu: usize) -> (usize, isize) {
    (0, 16)
}

fn vt() -> EventSourceVtable<Hp, Tt> {
    EventSourceVtable::new(ext_prio as Hp, ext_prio as Hp, ext_take as Tt, ext_take as Tt, false)
}

fn kernel_scheduler(table: &mut ProcessInfoTable, host: &MockHost) -> Scheduler<Hp, Tt> {
    Scheduler::init(0, table, host, 0x100, 0x200, 0, true)
}

#[test]
fn vtable_dispatches_by_privilege() {
    let v: EventSourceVtable<Hp, Tt> = EventSourceVtable::new(
        fixed_prio_2 as Hp,
        user_prio as Hp,
        take_nothing as Tt,
        take_nothing as Tt,
        true,
    );
    assert_eq!(v.hightest_priority(0x10, 0, true), 2);
    assert_eq!(v.hightest_priority(0x10, 0, false), 1);
    assert_eq!(v.take_task(0x10, 0, true), (0, 16));
    assert!(v.per_cpu());
}

#[test]
fn entry_data_by_privilege() {
    let e: EventSourceEntry<Hp, Tt> = EventSourceEntry::new(0x11, 0x22, vt());
    assert_eq!(e.data(true), 0x11);
    assert_eq!(e.data(false), 0x22);
}

#[test]
fn new_scheduler_is_idle() {
    let host = MockHost::new();
    let mut table = ProcessInfoTable::default();
    let s = kernel_scheduler(&mut table, &host);
    assert_eq!(s.global_index(), 0);
    assert_eq!(s.hightest_priority(0, true), 16);
    assert_eq!(table.get(0).highest_prio, 16);
    assert!(s.in_kernel(false));
}

#[test]
fn scheduler_without_sources_reports_max() {
    let s: Scheduler<Hp, Tt> = Scheduler::init_except_sources(3);
    assert_eq!(s.hightest_priority(0, true), isize::MAX);
    assert!(!s.in_kernel(false));
    assert!(s.in_kernel(true));
}

#[test]
fn pop_from_empty_sources_records_max() {
    let host = MockHost::new();
    let mut table = ProcessInfoTable::default();
    let mut s: Scheduler<Hp, Tt> = Scheduler::init_except_sources(0);
    assert_eq!(s.pop_task(&mut table, 0, true, &host), Ok(taken(None, isize::MAX)));
    assert_eq!(table.get(0).highest_prio, isize::MAX);
}

#[test]
fn push_then_pop_ready_task() {
    let host = MockHost::new();
    let mut table = ProcessInfoTable::default();
    let mut s = kernel_scheduler(&mut table, &host);
    assert_eq!(s.push_task(&mut table, 0x5000, 4, 0, true), Ok(()));
    assert_eq!(table.get(0).highest_prio, 4);
    assert_eq!(s.hightest_priority(0, true), 4);
    assert_eq!(s.pop_task(&mut table, 0, true, &host), Ok(taken(Some(0x5000), 16)));
    assert_eq!(table.get(0).highest_prio, 16);
}

#[test]
fn pop_with_nothing_ready_returns_none() {
    let host = MockHost::new();
    let mut table = ProcessInfoTable::default();
    let mut s = kernel_scheduler(&mut table, &host);
    assert_eq!(s.pop_task(&mut table, 0, true, &host), Ok(taken(None, 16)));
}

#[test]
fn trap_goes_before_ready_tasks() {
    let host = MockHost::new();
    let mut table = ProcessInfoTable::default();
    let mut s = kernel_scheduler(&mut table, &host);
    s.push_task(&mut table, 0x5000, 3, 0, true).unwrap();
    host.set_pid(0x6000, 9);
    assert_eq!(s.push_trap(&mut table, 0xaaa, Some(0x6000), 0, true), Ok(()));
    assert_eq!(table.get(0).highest_prio, ACTIVE_PRIORITY);
    // the start-up handler of the trap wait queue is woken and runs for pid 9
    let r = s.pop_task(&mut table, 0, true, &host);
    assert_eq!(
        r,
        Ok(Taken { task: Some(0x7000), prio: ACTIVE_PRIORITY, trap_of: Some(Some(0x6000)) })
    );
    assert_eq!(host.pid(0x6000), 9);
    assert_eq!(host.state(0x7000), TaskState::Ready);
}

#[test]
fn register_event_source_rules() {
    let host = MockHost::new();
    let mut table = ProcessInfoTable::default();
    let mut s = kernel_scheduler(&mut table, &host);
    // null addresses are refused
    assert!(!s.register_event_source(&mut table, 0, 0x10, vt(), 0, 0, true));
    // two sources: indices from -3 to 2 are accepted
    assert!(!s.register_event_source(&mut table, 0x10, 0x10, vt(), 3, 0, true));
    assert!(!s.register_event_source(&mut table, 0x10, 0x10, vt(), -4, 0, true));
    assert!(s.register_event_source(&mut table, 0x10, 0x10, vt(), -1, 0, true));
    assert!(s.unregister_event_source(&mut table, 0x10, 0, true));
    assert!(!s.unregister_event_source(&mut table, 0x10, 0, true));
}

#[test]
fn registration_is_capped() {
    let host = MockHost::new();
    let mut table = ProcessInfoTable::default();
    let mut s = kernel_scheduler(&mut table, &host);
    for i in 0..6 {
        assert!(s.register_event_source(&mut table, 0x10 + i, 0x10 + i, vt(), 0, 0, true));
    }
    assert!(!s.register_event_source(&mut table, 0x99, 0x99, vt(), 0, 0, true));
}

#[test]
fn earlier_source_wins_ties() {
    EXT_PRIO.store(5, Ordering::SeqCst);
    EXT_TASK.store(0xe0, Ordering::SeqCst);
    let host = MockHost::new();
    let mut table = ProcessInfoTable::default();
    let mut s = kernel_scheduler(&mut table, &host);
    s.push_task(&mut table, 0xb0, 5, 0, true).unwrap();
    // the outside source is inserted first: on a tie it is preferred
    assert!(s.register_event_source(&mut table, 0x10, 0x10, vt(), 0, 0, true));
    assert_eq!(table.get(0).highest_prio, 5);
    assert_eq!(s.pop_task(&mut table, 0, true, &host), Ok(taken(Some(0xe0), 5)));
    assert_eq!(s.pop_task(&mut table, 0, true, &host), Ok(taken(Some(0xb0), 16)));
}

#[test]
fn push_trap_without_task_uses_pid_zero() {
    let host = MockHost::new();
    let mut table = ProcessInfoTable::default();
    let mut s = kernel_scheduler(&mut table, &host);
    s.push_trap(&mut table, 0xbbb, None, 0, true).unwrap();
    let r = s.pop_task(&mut table, 0, true, &host);
    assert_eq!(
        r,
        Ok(Taken { task: Some(0x7000), prio: ACTIVE_PRIORITY, trap_of: Some(None) })
    );
    assert!(INACTIVE_PRIORITY > ACTIVE_PRIORITY);
}

#[test]
fn update_prio_writes_table() {
    let host = MockHost::new();
    let mut table = ProcessInfoTable::default();
    let s = kernel_scheduler(&mut table, &host);
    s.update_prio(&mut table, 11, -1);
    assert_eq!(table.get(0).highest_prio, 11);
    assert_eq!(s.get_and_update_current_prio(&mut table, 0, true), 16);
    assert_eq!(table.get(0).highest_prio, 16);
    s.update_prio(&mut table, 2, 0);
    assert_eq!(s.get_and_update_all_prio(&mut table, 0, true), 16);
    assert_eq!(table.get(0).highest_prio, 16);
}

#[test]
fn with_user_replaces_user_functions() {
    let v: EventSourceVtable<Hp, Tt> = EventSourceVtable::new(
        fixed_prio_2 as Hp,
        fixed_prio_2 as Hp,
        take_nothing as Tt,
        take_nothing as Tt,
        false,
    );
    let v = v.with_user(user_prio as Hp, ext_take as Tt);
    assert_eq!(v.hightest_priority(0, 0, true), 2);
    assert_eq!(v.hightest_priority(0, 0, false), 1);
    assert!(!v.per_cpu());
}

#[test]
fn ready_queue_wins_tie_with_trap() {
    let host = MockHost::new();
    let mut table = ProcessInfoTable::default();
    let mut s = kernel_scheduler(&mut table, &host);
    // a ready task of the highest priority and a pending trap: the ready
    // queue is source 0 and wins the tie
    s.push_task(&mut table, 0x5000, 0, 0, true).unwrap();
    assert_eq!(s.push_trap(&mut table, 0xaaa, None, 0, true), Ok(()));
    assert_eq!(s.pop_task(&mut table, 0, true, &host), Ok(taken(Some(0x5000), ACTIVE_PRIORITY)));
    // then the trap gets its handler
    assert_eq!(
        s.pop_task(&mut table, 0, true, &host),
        Ok(Taken { task: Some(0x7000), prio: ACTIVE_PRIORITY, trap_of: Some(None) })
    );
}
