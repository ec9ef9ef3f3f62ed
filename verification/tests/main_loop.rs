use vsched::interface::TaskState;
use vsched::main_loop::{
    coroutine_yield_state, entry_target, switch_vspace, prev_task_action, process_scheduler,
    requeue_target, thread_entry_state, trap_entry_plan, PrevTaskAction, TrapEntryError,
    TrapEntryPlan,
};
use vsched::schedule::process_info::ProcessInfoTable;

#[test]
fn trap_entry_plans() {
    assert_eq!(
        trap_entry_plan(0, 0),
        Ok(TrapEntryPlan {
            in_kernel: true,
            new_state: Some(TaskState::Blocked),
            queue_trap: Some(true),
            next: 1
        })
    );
    assert_eq!(
        trap_entry_plan(1, 0),
        Ok(TrapEntryPlan {
            in_kernel: true,
            new_state: Some(TaskState::Ready),
            queue_trap: Some(false),
            next: 1
        })
    );
    assert_eq!(
        trap_entry_plan(1, 1),
        Ok(TrapEntryPlan { in_kernel: false, new_state: Some(TaskState::Ready), queue_trap: None, next: 2 })
    );
    assert_eq!(
        trap_entry_plan(2, 1),
        Ok(TrapEntryPlan { in_kernel: false, new_state: None, queue_trap: None, next: 3 })
    );
}

#[test]
fn trap_entry_errors() {
    assert_eq!(trap_entry_plan(0, 2), Err(TrapEntryError::UnknownPrivilege));
    assert_eq!(trap_entry_plan(9, 2), Err(TrapEntryError::UnknownPrivilege));
    assert_eq!(trap_entry_plan(3, 0), Err(TrapEntryError::UnknownTrapType));
    assert_eq!(trap_entry_plan(0, 1), Err(TrapEntryError::UserTrapUnsupported));
}

#[test]
fn thread_entry_states() {
    assert_eq!(thread_entry_state(TaskState::Blocking), TaskState::Blocked);
    assert_eq!(thread_entry_state(TaskState::Running), TaskState::Ready);
    assert_eq!(thread_entry_state(TaskState::Exited), TaskState::Exited);
    assert_eq!(thread_entry_state(TaskState::Ready), TaskState::Ready);
}

#[test]
fn coroutine_yield_states() {
    assert_eq!(coroutine_yield_state(true, TaskState::Running), TaskState::Exited);
    assert_eq!(coroutine_yield_state(false, TaskState::Running), TaskState::Blocked);
    assert_eq!(coroutine_yield_state(false, TaskState::Blocking), TaskState::Blocked);
    assert_eq!(coroutine_yield_state(false, TaskState::Ready), TaskState::Ready);
    assert_eq!(coroutine_yield_state(false, TaskState::Exited), TaskState::Exited);
}

#[test]
fn prev_task_actions() {
    assert_eq!(prev_task_action(TaskState::Ready), PrevTaskAction::Requeue);
    assert_eq!(prev_task_action(TaskState::Exited), PrevTaskAction::Dealloc);
    assert_eq!(prev_task_action(TaskState::Blocked), PrevTaskAction::Keep);
}

#[test]
fn requeue_and_push_targets() {
    let mut t = ProcessInfoTable::default();
    let p = t.register_process().unwrap();
    assert_eq!(requeue_target(&t, true, p), None);
    assert_eq!(requeue_target(&t, false, p), None);
    assert_eq!(process_scheduler(&t, p), None);
    t.set_process(p, 0x1000, 0x2000);
    assert_eq!(requeue_target(&t, false, p), Some(0x2000));
    assert_eq!(process_scheduler(&t, p), Some(0x2000));
    t.unregister_process(p);
    assert_eq!(process_scheduler(&t, p), None);
}

#[test]
fn vspace_switch_and_targets() {
    let mut t = ProcessInfoTable::default();
    let p = t.register_process().unwrap();
    let mut current = 0usize;
    // process 0 has no page table of its own
    assert_eq!(switch_vspace(&mut current, 0, &t), None);
    assert_eq!(switch_vspace(&mut current, p, &t), None);
    assert_eq!(current, p);
    t.set_process(p, 0x4000, 0);
    assert_eq!(switch_vspace(&mut current, p, &t), None);
    assert_eq!(switch_vspace(&mut current, 0, &t), None);
    assert_eq!(switch_vspace(&mut current, p, &t), Some(0x4000));
    assert_eq!(current, p);
    assert_eq!(entry_target(true), 0);
    assert_eq!(entry_target(false), 1);
}
