//! Stacks and stack pools.
//!
//! A coroutine runs on an empty stack taken from a pool; a thread brings its
//! own stack. Stacks are reached through handles handed out by the address
//! space that owns them (see [`Stack`]).
use vstd::prelude::*;
use crate::collections::StackList;
use crate::interface::{CPU_NUM, STACK_POOL_SIZE};

pub mod handler;

verus! {

/// The stacks of an address space, implemented by the OS.
///
/// A stack is named by a handle; nothing is assumed of what the functions
/// return.
pub trait Stack {
    /// Allocates a stack and returns its handle.
    fn alloc_stack() -> usize;

    /// Frees the stack `stack`.
    fn dealloc_stack(stack: usize);

    /// The base address of the stack `stack`.
    fn base(stack: usize) -> usize;
}

/// A stack, named by its base address.
#[derive(PartialEq, Eq, Structural)]
pub struct StackWapper {
    /// The base address.
    pub base: usize,
}

impl StackWapper {
    /// Allocates a new stack.
    pub fn new<S: Stack>() -> (r: Self) {
        let base = S::alloc_stack();
        StackWapper { base }
    }

    /// The stack at `base`.
    pub fn from_raw(base: usize) -> (r: Self)
        ensures
            r.base == base,
    {
        StackWapper { base }
    }

    /// Frees the stack.
    pub fn dealloc<S: Stack>(self) {
        S::dealloc_stack(self.base);
    }

}

impl Default for StackWapper {
    /// The stack at address 0.
    fn default() -> (r: Self)
        ensures
            r.base == 0,
    {
        StackWapper { base: 0 }
    }
}

impl From<usize> for StackWapper {
    /// The stack at `base`.
    fn from(base: usize) -> (r: Self) {
        StackWapper { base }
    }
}

impl vstd::std_specs::convert::FromSpecImpl<usize> for StackWapper {
    open spec fn obeys_from_spec() -> bool {
        true
    }

    open spec fn from_spec(base: usize) -> StackWapper {
        StackWapper { base }
    }
}

impl From<StackWapper> for usize {
    /// The base address of `stack`.
    fn from(stack: StackWapper) -> (r: usize) {
        stack.base
    }
}

impl vstd::std_specs::convert::FromSpecImpl<StackWapper> for usize {
    open spec fn obeys_from_spec() -> bool {
        true
    }

    open spec fn from_spec(stack: StackWapper) -> usize {
        stack.base
    }
}

/// The stack pool of an address space: empty stacks ready for reuse and the
/// stack each CPU is running on.
pub struct StackHandler {
    /// The empty stacks.
    pub free_stacks: StackList,
    /// The stack each CPU is running on.
    pub current_stack: Vec<Option<StackWapper>>,
}

/// The base address of an optional stack.
pub open spec fn base_of(s: Option<StackWapper>) -> Option<usize> {
    match s {
        Some(w) => Some(w.base),
        None => None,
    }
}

impl Default for StackHandler {
    /// An empty pool with no current stack.
    fn default() -> (r: Self)
        ensures
            r.wf(),
            r.free() == Seq::<usize>::empty(),
            forall|c: int| 0 <= c < CPU_NUM ==> r.current(c) is None,
    {
        let mut current_stack: Vec<Option<StackWapper>> = Vec::new();
        let mut c: usize = 0;
        while c < CPU_NUM
            invariant
                c <= CPU_NUM,
                current_stack@.len() == c,
                forall|k: int| 0 <= k < c ==> current_stack@[k] is None,
            decreases CPU_NUM - c,
        {
            current_stack.push(None);
            c += 1;
        }
        StackHandler { free_stacks: StackList::new(), current_stack }
    }
}

impl StackHandler {
    /// One current-stack slot per CPU, and no more empty stacks than the
    /// pool holds.
    pub open spec fn wf(&self) -> bool {
        &&& self.current_stack@.len() == CPU_NUM
        &&& self.free_stacks@.len() <= STACK_POOL_SIZE
    }

    /// The base addresses of the empty stacks, in order.
    pub open spec fn free(&self) -> Seq<usize> {
        self.free_stacks@
    }

    /// The base address of the current stack of CPU `cpu`.
    pub open spec fn current(&self, cpu: int) -> Option<usize> {
        base_of(self.current_stack@[cpu])
    }

    /// A pool holding `STACK_POOL_SIZE - CPU_NUM` new empty stacks and a new
    /// current stack for each CPU.
    pub fn new<S: Stack>() -> (r: Self)
        ensures
            r.wf(),
            r.free().len() == STACK_POOL_SIZE - CPU_NUM,
            forall|c: int| 0 <= c < CPU_NUM ==> r.current(c) is Some,
    {
        let mut stacks = StackList::new();
        let mut i: usize = 0;
        while i < STACK_POOL_SIZE - CPU_NUM
            invariant
                i <= STACK_POOL_SIZE - CPU_NUM,
                stacks@.len() == i,
            decreases STACK_POOL_SIZE - CPU_NUM - i,
        {
            let _ = stacks.push(StackWapper::new::<S>());
            i += 1;
        }
        let mut current_stack: Vec<Option<StackWapper>> = Vec::new();
        let mut c: usize = 0;
        while c < CPU_NUM
            invariant
                c <= CPU_NUM,
                current_stack@.len() == c,
                forall|k: int| 0 <= k < c ==> current_stack@[k] is Some,
            decreases CPU_NUM - c,
        {
            current_stack.push(Some(StackWapper::new::<S>()));
            c += 1;
        }
        StackHandler { free_stacks: stacks, current_stack }
    }


    /// Takes the most recently freed empty stack, or allocates a new one when
    /// there is none.
    pub fn alloc_stack<S: Stack>(&mut self) -> (r: StackWapper)
        requires
            old(self).wf(),
        ensures
            final(self).wf(),
            final(self).current_stack == old(self).current_stack,
            old(self).free().len() > 0 ==> r.base == old(self).free().last() && final(self).free()
                == old(self).free().drop_last(),
            old(self).free().len() == 0 ==> final(self).free() == old(self).free(),
    {
        match self.free_stacks.pop() {
            Some(s) => s,
            None => StackWapper::new::<S>(),
        }
    }

    /// Keeps `stack` for reuse, or frees it when the pool is full.
    pub fn dealloc_stack<S: Stack>(&mut self, stack: StackWapper)
        requires
            old(self).wf(),
        ensures
            final(self).wf(),
            final(self).current_stack == old(self).current_stack,
            final(self).free() == (if old(self).free().len() < STACK_POOL_SIZE {
                old(self).free().push(stack.base)
            } else {
                old(self).free()
            }),
    {
        match self.free_stacks.push(stack) {
            Ok(()) => {},
            Err(s) => s.dealloc::<S>(),
        }
    }

    /// Makes `stack` the current stack of CPU `cpu_id` and returns the
    /// previous one.
    pub fn set_current_stack(&mut self, stack: StackWapper, cpu_id: usize) -> (r: StackWapper)
        requires
            old(self).wf(),
            cpu_id < CPU_NUM,
            old(self).current(cpu_id as int) is Some,
        ensures
            final(self).wf(),
            final(self).free() == old(self).free(),
            Some(r.base) == old(self).current(cpu_id as int),
            final(self).current_stack@ == old(self).current_stack@.update(
                cpu_id as int,
                Some(stack),
            ),
    {
        let mut slot = Some(stack);
        let prev = self.current_stack[cpu_id].take();
        self.current_stack.set(cpu_id, slot);
        match prev {
            Some(s) => s,
            None => StackWapper { base: 0 },
        }
    }

    /// Moves CPU `cpu_id` onto an empty stack and returns its base address.
    ///
    /// `stack_type` is 0 when the current stack is already empty; otherwise
    /// an empty stack is taken (see [`StackHandler::alloc_stack`]), made
    /// current, and the previous current stack is given back to the pool.
    pub fn get_empty_stack<S: Stack>(&mut self, stack_type: usize, cpu_id: usize) -> (r: usize)
        requires
            old(self).wf(),
            cpu_id < CPU_NUM,
            old(self).current(cpu_id as int) is Some,
        ensures
            final(self).wf(),
            final(self).current(cpu_id as int) == Some(r),
            forall|c: int|
                0 <= c < CPU_NUM && c != cpu_id ==> final(self).current(c) == old(self).current(c),
            stack_type == 0 ==> *final(self) == *old(self) && Some(r) == old(self).current(
                cpu_id as int,
            ),
            stack_type != 0 && old(self).free().len() > 0 ==> r == old(self).free().last()
                && final(self).free() == old(self).free().drop_last().push(
                old(self).current(cpu_id as int)->Some_0,
            ),
            stack_type != 0 && old(self).free().len() == 0 ==> final(self).free() == seq![
                old(self).current(cpu_id as int)->Some_0,
            ],
    {
        if stack_type != 0 {
            let empty_stack = self.alloc_stack::<S>();
            let old_stack = self.set_current_stack(empty_stack, cpu_id);
            self.dealloc_stack::<S>(old_stack);
        }
        match &self.current_stack[cpu_id] {
            Some(s) => s.base,
            None => 0,
        }
    }

    /// Moves CPU `cpu_id` onto the stack of a thread: `thread_stack` becomes
    /// current (or none, when `None`), and the previous current stack is given
    /// back to the pool when `stack_type` is 0 (it was empty).
    pub fn get_thread_stack<S: Stack>(
        &mut self,
        thread_stack: Option<StackWapper>,
        stack_type: usize,
        cpu_id: usize,
    )
        requires
            old(self).wf(),
            cpu_id < CPU_NUM,
            old(self).current(cpu_id as int) is Some,
        ensures
            final(self).wf(),
            final(self).current_stack@ == old(self).current_stack@.update(
                cpu_id as int,
                thread_stack,
            ),
            final(self).free() == (if stack_type == 0 && old(self).free().len() < STACK_POOL_SIZE {
                old(self).free().push(old(self).current(cpu_id as int)->Some_0)
            } else {
                old(self).free()
            }),
    {
        let old_stack = match thread_stack {
            Some(stack) => self.set_current_stack(stack, cpu_id),
            None => {
                let prev = self.current_stack[cpu_id].take();
                match prev {
                    Some(s) => s,
                    None => StackWapper { base: 0 },
                }
            },
        };
        if stack_type == 0 {
            self.dealloc_stack::<S>(old_stack);
        }
    }
}

/// A stack given back to a pool that is not full is the next one handed out.
pub proof fn law_stack_reuse(free: Seq<usize>, base: usize)
    requires
        free.len() < STACK_POOL_SIZE,
    ensures
        ({
            let after = free.push(base);
            &&& after.len() > 0
            &&& after.last() == base
            &&& after.drop_last() == free
        }),
{
    assert(free.push(base).drop_last() =~= free);
}

} // verus!
