use std::sync::atomic::{AtomicUsize, Ordering};

use vsched::interface::STACK_POOL_SIZE;
use vsched::main_loop::get_stack_type;
use vsched::stack::{Stack, StackHandler, StackWapper};

static NEXT: AtomicUsize = AtomicUsize::new(0x10_0000);
static FREED: AtomicUsize = AtomicUsize::new(0);

struct Os;

impl Stack for Os {
    fn alloc_stack() -> usize {
        NEXT.fetch_add(0x1000, Ordering::SeqCst)
    }
    fn dealloc_stack(_stack: usize) {
        FREED.fetch_add(1, Ordering::SeqCst);
    }
    fn base(stack: usize) -> usize {
        stack + 0x800
    }
}

#[test]
fn stack_wapper_conversions() {
    assert_eq!(StackWapper::from_raw(0x1234).base, 0x1234);
    assert_eq!(usize::from(StackWapper::from(0x99)), 0x99);
    assert_eq!(StackWapper::default().base, 0);
    let s = StackWapper::new::<Os>();
    assert!(s.base >= 0x10_0000);
    s.dealloc::<Os>();
}

#[test]
fn new_pool_is_filled() {
    let mut h = StackHandler::new::<Os>();
    let cur = h.current_stack[0].as_ref().unwrap().base;
    // a stack in use switches to an empty one from the pool
    let e = h.get_empty_stack::<Os>(1, 0);
    assert_ne!(e, cur);
    // an empty stack stays
    assert_eq!(h.get_empty_stack::<Os>(0, 0), e);
}

#[test]
fn dealloc_then_alloc_reuses_stack() {
    let mut h = StackHandler::default();
    h.dealloc_stack::<Os>(StackWapper::from_raw(0xaaa));
    h.dealloc_stack::<Os>(StackWapper::from_raw(0xbbb));
    assert_eq!(h.alloc_stack::<Os>().base, 0xbbb);
    assert_eq!(h.alloc_stack::<Os>().base, 0xaaa);
}

#[test]
fn full_pool_frees_stack() {
    let mut h = StackHandler::default();
    for i in 0..STACK_POOL_SIZE {
        h.dealloc_stack::<Os>(StackWapper::from_raw(0x1000 + i));
    }
    let before = FREED.load(Ordering::SeqCst);
    h.dealloc_stack::<Os>(StackWapper::from_raw(0x9999));
    assert_eq!(FREED.load(Ordering::SeqCst), before + 1);
    assert_eq!(h.alloc_stack::<Os>().base, 0x1000 + STACK_POOL_SIZE - 1);
}

#[test]
fn set_current_returns_previous() {
    let mut h = StackHandler::default();
    h.current_stack[0] = Some(StackWapper::from_raw(0x10));
    let prev = h.set_current_stack(StackWapper::from_raw(0x20), 0);
    assert_eq!(prev.base, 0x10);
    assert_eq!(h.current_stack[0].as_ref().unwrap().base, 0x20);
}

#[test]
fn thread_stack_recycles_empty_stack() {
    let mut h = StackHandler::default();
    h.current_stack[0] = Some(StackWapper::from_raw(0x10));
    h.get_thread_stack::<Os>(Some(StackWapper::from_raw(0x30)), 0, 0);
    assert_eq!(h.current_stack[0].as_ref().unwrap().base, 0x30);
    assert_eq!(h.alloc_stack::<Os>().base, 0x10);
    // a stack in use is not recycled; `None` leaves no current stack
    h.get_thread_stack::<Os>(None, 1, 0);
    assert!(h.current_stack[0].is_none());
}

#[test]
fn get_empty_stack_with_pool_swaps() {
    let mut h = StackHandler::default();
    h.current_stack[0] = Some(StackWapper::from_raw(0x10));
    h.dealloc_stack::<Os>(StackWapper::from_raw(0x50));
    assert_eq!(h.get_empty_stack::<Os>(1, 0), 0x50);
    assert_eq!(h.alloc_stack::<Os>().base, 0x10);
}

#[test]
fn stack_type_is_used_size() {
    assert_eq!(get_stack_type(0x2000, 0x2000), 0);
    assert_eq!(get_stack_type(0x2100, 0x2000), 0x100);
}

