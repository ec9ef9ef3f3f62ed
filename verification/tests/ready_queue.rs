use vsched::interface::{LOWEST_PRIORITY, READY_QUEUE_SIZE};
use vsched::schedule::event_source::EventSource;
use vsched::schedule::ready_queue::{highest_one, ReadyQueue};

#[test]
fn highest_one_of_zero_is_none() {
    assert_eq!(highest_one(0), None);
}

#[test]
fn highest_one_finds_top_bit() {
    assert_eq!(highest_one(1), Some(0));
    assert_eq!(highest_one(0b1010), Some(3));
    assert_eq!(highest_one(1u64 << 63), Some(63));
    assert_eq!(highest_one(u64::MAX), Some(63));
    assert_eq!(highest_one(1u64 << 47), Some(47));
}

#[test]
fn empty_ready_queue_reports_one_below_lowest() {
    let q = ReadyQueue::new();
    assert_eq!(q.hightest_priority(0), LOWEST_PRIORITY + 1);
    assert_eq!(q.hightest_priority(0), 16);
}

#[test]
fn empty_ready_queue_take_gives_null() {
    let mut q = ReadyQueue::new();
    assert_eq!(q.take_task(0), (0, 16));
}

#[test]
fn push_updates_highest_priority() {
    let mut q = ReadyQueue::new();
    assert_eq!(q.push_task(0x1000, 7), Ok(()));
    assert_eq!(q.hightest_priority(0), 7);
    assert_eq!(q.push_task(0x2000, 3), Ok(()));
    assert_eq!(q.hightest_priority(0), 3);
    assert_eq!(q.push_task(0x3000, 12), Ok(()));
    assert_eq!(q.hightest_priority(0), 3);
}

#[test]
fn take_returns_highest_priority_first() {
    let mut q = ReadyQueue::new();
    q.push_task(0x10, 9).unwrap();
    q.push_task(0x20, 0).unwrap();
    q.push_task(0x30, 15).unwrap();
    q.push_task(0x40, 4).unwrap();
    assert_eq!(q.take_task(0), (0x20, 4));
    assert_eq!(q.take_task(0), (0x40, 9));
    assert_eq!(q.take_task(0), (0x10, 15));
    assert_eq!(q.take_task(0), (0x30, 16));
    assert_eq!(q.take_task(0), (0, 16));
}

#[test]
fn same_priority_is_fifo() {
    let mut q = ReadyQueue::new();
    q.push_task(1, 5).unwrap();
    q.push_task(2, 5).unwrap();
    q.push_task(3, 5).unwrap();
    assert_eq!(q.take_task(0), (1, 5));
    assert_eq!(q.take_task(0), (2, 5));
    assert_eq!(q.take_task(0), (3, 16));
}

#[test]
fn full_level_hands_task_back() {
    let mut q = ReadyQueue::new();
    for i in 0..READY_QUEUE_SIZE {
        assert_eq!(q.push_task(i + 1, 2), Ok(()));
    }
    assert_eq!(q.push_task(0xdead, 2), Err(0xdead));
    // other levels are still open
    assert_eq!(q.push_task(0xbeef, 3), Ok(()));
    assert_eq!(q.take_task(0), (1, 2));
}

#[test]
fn law_take_priority_monotone_example() {
    let mut q = ReadyQueue::new();
    q.push_task(11, 1).unwrap();
    q.push_task(12, 8).unwrap();
    let before = q.hightest_priority(0);
    let (task, left) = q.take_task(0);
    assert_eq!(task, 11);
    assert!(left >= before);
    assert_eq!(left, q.hightest_priority(0));
}

#[test]
fn law_push_priority_example() {
    let mut q = ReadyQueue::new();
    q.push_task(21, 10).unwrap();
    q.push_task(22, 12).unwrap();
    assert_eq!(q.hightest_priority(0), 10);
    q.push_task(23, 6).unwrap();
    assert_eq!(q.hightest_priority(0), 6);
}

#[test]
fn ready_queue_is_shared_by_cpus() {
    assert!(!ReadyQueue::is_prio_per_cpu());
}
