use std::sync::atomic::{AtomicUsize, Ordering};

use vsched::interface::STACK_POOL_SIZE;
use vsched::stack::handler::StackHandler;
use vsched::stack::Stack;

static NEXT: AtomicUsize = AtomicUsize::new(0x50_0000);
static FREED: AtomicUsize = AtomicUsize::new(0);

struct Os;

impl Stack for Os {
    fn alloc_stack() -> usize {
        NEXT.fetch_add(0x1000, Ordering::SeqCst)
    }
    fn dealloc_stack(_stack: usize) {
        FREED.fetch_add(1, Ordering::SeqCst);
    }
    fn base(stack: usize) -> usize {
        stack + 0x800
    }
}

#[test]
fn empty_pool_allocates() {
    let mut h = StackHandler::default();
    let s = h.alloc_stack::<Os>();
    assert!(s >= 0x50_0000);
}

#[test]
fn freed_stack_is_reused() {
    let mut h = StackHandler::default();
    h.dealloc_stack::<Os>(0x777);
    assert_eq!(h.alloc_stack::<Os>(), 0x777);
}

#[test]
fn freeing_twice_keeps_one_entry() {
    let mut h = StackHandler::default();
    h.dealloc_stack::<Os>(0x777);
    h.dealloc_stack::<Os>(0x777);
    assert_eq!(h.alloc_stack::<Os>(), 0x777);
    let s = h.alloc_stack::<Os>();
    assert_ne!(s, 0x777);
}

#[test]
fn full_map_frees_stack() {
    let mut h = StackHandler::default();
    for i in 0..STACK_POOL_SIZE {
        h.dealloc_stack::<Os>(0x1000 + i);
    }
    let before = FREED.load(Ordering::SeqCst);
    h.dealloc_stack::<Os>(0x9000);
    assert_eq!(FREED.load(Ordering::SeqCst), before + 1);
}

#[test]
fn current_and_trap_stacks() {
    let mut h = StackHandler::default();
    assert_eq!(h.set_current_stack(0x10, 0), None);
    assert_eq!(h.set_current_stack(0x20, 0), Some(0x10));
    assert_eq!(h.take_current_stack(0), 0x20);
    h.dealloc_stack::<Os>(0x30);
    assert_eq!(h.alloc_trap_stack::<Os>(0), 0x30 + 0x800);
    assert_eq!(h.set_trap_stack(0x40, 0), Some(0x30));
}

#[test]
fn empty_stack_taken_when_on_thread_stack() {
    let mut h = StackHandler::default();
    h.dealloc_stack::<Os>(0x60);
    // no current stack: the empty one is taken
    assert_eq!(h.get_empty_stack::<Os>(1, 0), 0x60 + 0x800);
    // already on it: same base
    assert_eq!(h.get_empty_stack::<Os>(0, 0), 0x60 + 0x800);
}

#[test]
fn thread_stack_recycles_previous() {
    let mut h = StackHandler::default();
    h.set_current_stack(0x70, 0);
    h.get_thread_stack::<Os>(Some(0x80), 0, 0);
    assert_eq!(h.take_current_stack(0), 0x80);
    assert_eq!(h.alloc_stack::<Os>(), 0x70);
}
