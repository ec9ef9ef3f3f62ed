use vsched::interface::PROCESS_NUM;
use vsched::schedule::process_info::ProcessInfoTable;

#[test]
fn new_table_holds_the_kernel() {
    let t = ProcessInfoTable::default();
    assert!(t.get(0).valid);
    assert!(!t.get(1).valid);
    assert_eq!(t.get(5).highest_prio, isize::MAX);
    assert_eq!(t.get(5).vspace, 0);
}

#[test]
fn register_hands_out_numbers_in_order() {
    let mut t = ProcessInfoTable::default();
    assert_eq!(t.register_process(), Some(1));
    assert_eq!(t.register_process(), Some(2));
    assert_eq!(t.register_process(), Some(3));
    assert!(t.get(2).valid);
}

#[test]
fn unregister_reports_whether_taken() {
    let mut t = ProcessInfoTable::default();
    let pid = t.register_process().unwrap();
    assert!(t.unregister_process(pid));
    assert!(!t.get(pid).valid);
    assert!(!t.unregister_process(pid));
}

#[test]
fn register_fails_when_full_and_skips_taken() {
    let mut t = ProcessInfoTable::default();
    for i in 1..PROCESS_NUM {
        assert_eq!(t.register_process(), Some(i));
    }
    assert_eq!(t.register_process(), None);
    assert!(t.unregister_process(77));
    assert_eq!(t.register_process(), Some(77));
    assert_eq!(t.register_process(), None);
}

#[test]
fn register_wraps_round_the_table() {
    let mut t = ProcessInfoTable::default();
    for _ in 1..PROCESS_NUM {
        t.register_process().unwrap();
    }
    assert!(t.unregister_process(3));
    assert!(t.unregister_process(1));
    // the counter is at PROCESS_NUM: probing restarts at 0, which is taken
    assert_eq!(t.register_process(), Some(1));
    assert_eq!(t.register_process(), Some(3));
}

#[test]
fn highest_prio_process_picks_smallest_priority() {
    let mut t = ProcessInfoTable::default();
    let a = t.register_process().unwrap();
    let b = t.register_process().unwrap();
    t.set_highest_prio(0, 9);
    t.set_highest_prio(a, 4);
    t.set_highest_prio(b, 6);
    assert_eq!(t.highest_prio_process(0), a);
    assert_eq!(t.highest_prio_process(b), a);
}

#[test]
fn highest_prio_process_prefers_current_on_tie() {
    let mut t = ProcessInfoTable::default();
    let a = t.register_process().unwrap();
    let b = t.register_process().unwrap();
    t.set_highest_prio(0, 5);
    t.set_highest_prio(a, 2);
    t.set_highest_prio(b, 2);
    assert_eq!(t.highest_prio_process(b), b);
    assert_eq!(t.highest_prio_process(0), a);
}

#[test]
fn highest_prio_process_ignores_invalid() {
    let mut t = ProcessInfoTable::default();
    let a = t.register_process().unwrap();
    t.set_highest_prio(0, 7);
    t.set_highest_prio(a, 1);
    t.unregister_process(a);
    assert_eq!(t.highest_prio_process(a), 0);
}

#[test]
fn set_process_records_vspace_and_scheduler() {
    let mut t = ProcessInfoTable::default();
    let a = t.register_process().unwrap();
    t.set_process(a, 0x8000, 0x9000);
    assert_eq!(t.get(a).vspace, 0x8000);
    assert_eq!(t.get(a).scheduler, 0x9000);
    assert!(t.get(a).valid);
}
