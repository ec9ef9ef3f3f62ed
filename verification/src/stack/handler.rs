//! The stack pool keyed by stack address.
//!
//! Empty stacks are kept in a map from their address; each CPU has a current
//! stack and a stack reserved for trap entry.
use vstd::prelude::*;
use crate::collections::StackMap;
use crate::interface::{CPU_NUM, STACK_POOL_SIZE};
use crate::stack::Stack;

verus! {

/// The stack pool: empty stacks by address, the stack each CPU runs on, and
/// the stack each CPU enters traps on. Stacks are named by their handles,
/// which are their addresses.
pub struct StackHandler {
    free_stacks: StackMap,
    current_stack: Vec<Option<usize>>,
    trap_stack: Vec<Option<usize>>,
}

impl Default for StackHandler {
    /// An empty pool with no current and no trap stack.
    fn default() -> (r: Self)
        ensures
            r.wf(),
            r.free() == Set::<usize>::empty(),
            forall|c: int| 0 <= c < CPU_NUM ==> r.current(c) is None && r.trap(c) is None,
    {
        let mut current_stack: Vec<Option<usize>> = Vec::new();
        let mut trap_stack: Vec<Option<usize>> = Vec::new();
        let mut c: usize = 0;
        while c < CPU_NUM
            invariant
                c <= CPU_NUM,
                current_stack@.len() == c,
                trap_stack@.len() == c,
                forall|k: int| 0 <= k < c ==> current_stack@[k] is None && trap_stack@[k] is None,
            decreases CPU_NUM - c,
        {
            current_stack.push(None);
            trap_stack.push(None);
            c += 1;
        }
        StackHandler { free_stacks: StackMap::new(), current_stack, trap_stack }
    }
}

impl StackHandler {
    /// One current and one trap slot per CPU; every empty stack is kept under
    /// its own address; at most `STACK_POOL_SIZE` empty stacks.
    pub closed spec fn wf(&self) -> bool {
        &&& self.current_stack@.len() == CPU_NUM
        &&& self.trap_stack@.len() == CPU_NUM
        &&& self.free_stacks@.dom().finite()
        &&& self.free_stacks@.dom().len() <= STACK_POOL_SIZE
        &&& forall|k: usize| #[trigger] self.free_stacks@.dom().contains(k) ==> self.free_stacks@[k] == k
    }

    /// A well-formed pool has one current and one trap slot per CPU and at
    /// most `STACK_POOL_SIZE` empty stacks.
    pub proof fn lemma_wf(&self)
        requires
            self.wf(),
        ensures
            self.currents().len() == CPU_NUM,
            self.traps().len() == CPU_NUM,
            self.free().finite(),
            self.free().len() <= STACK_POOL_SIZE,
    {
    }

    /// The empty stacks.
    pub closed spec fn free(&self) -> Set<usize> {
        self.free_stacks@.dom()
    }

    /// The stack each CPU runs on.
    pub closed spec fn currents(&self) -> Seq<Option<usize>> {
        self.current_stack@
    }

    /// The stack each CPU enters traps on.
    pub closed spec fn traps(&self) -> Seq<Option<usize>> {
        self.trap_stack@
    }

    /// The stack CPU `cpu` runs on.
    pub open spec fn current(&self, cpu: int) -> Option<usize> {
        self.currents()[cpu]
    }

    /// The stack CPU `cpu` enters traps on.
    pub open spec fn trap(&self, cpu: int) -> Option<usize> {
        self.traps()[cpu]
    }

    /// The stack CPU `cpu_id` enters traps on.
    pub fn trap_stack_of(&self, cpu_id: usize) -> (r: Option<usize>)
        requires
            self.wf(),
            cpu_id < CPU_NUM,
        ensures
            r == self.trap(cpu_id as int),
    {
        self.trap_stack[cpu_id]
    }

    /// The stack CPU `cpu_id` runs on.
    pub fn current_stack_of(&self, cpu_id: usize) -> (r: Option<usize>)
        requires
            self.wf(),
            cpu_id < CPU_NUM,
        ensures
            r == self.current(cpu_id as int),
    {
        self.current_stack[cpu_id]
    }


    /// Takes some empty stack, or allocates a new one when there is none.
    pub fn alloc_stack<S: Stack>(&mut self) -> (r: usize)
        requires
            old(self).wf(),
        ensures
            final(self).wf(),
            final(self).currents() == old(self).currents(),
            final(self).traps() == old(self).traps(),
            old(self).free().len() > 0 ==> old(self).free().contains(r) && final(self).free()
                == old(self).free().remove(r),
            old(self).free().len() == 0 ==> final(self).free() == old(self).free(),
    {
        match self.free_stacks.first_key() {
            Some(addr) => {
                let v = self.free_stacks.remove(addr);
                match v {
                    Some(s) => s,
                    None => addr,
                }
            },
            None => S::alloc_stack(),
        }
    }

    /// Keeps `stack` for reuse, or frees it when the pool is full.
    pub fn dealloc_stack<S: Stack>(&mut self, stack: usize)
        requires
            old(self).wf(),
        ensures
            final(self).wf(),
            final(self).currents() == old(self).currents(),
            final(self).traps() == old(self).traps(),
            final(self).free() == (if old(self).free().remove(stack).len() < STACK_POOL_SIZE {
                old(self).free().insert(stack)
            } else {
                old(self).free().remove(stack)
            }),
    {
        let addr = stack;
        let _ = self.free_stacks.remove(addr);
        match self.free_stacks.insert_new(addr, stack) {
            Ok(()) => {},
            Err(_) => S::dealloc_stack(stack),
        }
        proof {
            assert(old(self).free().remove(stack).insert(stack) =~= old(self).free().insert(stack));
        }
    }

    /// Makes `stack` the current stack of CPU `cpu_id`, returning the
    /// previous one.
    pub fn set_current_stack(&mut self, stack: usize, cpu_id: usize) -> (r: Option<usize>)
        requires
            old(self).wf(),
            cpu_id < CPU_NUM,
        ensures
            final(self).wf(),
            final(self).free() == old(self).free(),
            r == old(self).current(cpu_id as int),
            final(self).currents() == old(self).currents().update(cpu_id as int, Some(stack)),
            final(self).traps() == old(self).traps(),
    {
        let prev = self.current_stack[cpu_id];
        self.current_stack.set(cpu_id, Some(stack));
        prev
    }

    /// Takes the current stack of CPU `cpu_id`, leaving none.
    pub fn take_current_stack(&mut self, cpu_id: usize) -> (r: usize)
        requires
            old(self).wf(),
            cpu_id < CPU_NUM,
            old(self).current(cpu_id as int) is Some,
        ensures
            final(self).wf(),
            final(self).free() == old(self).free(),
            Some(r) == old(self).current(cpu_id as int),
            final(self).currents() == old(self).currents().update(cpu_id as int, None),
            final(self).traps() == old(self).traps(),
    {
        let prev = self.current_stack[cpu_id];
        self.current_stack.set(cpu_id, None);
        match prev {
            Some(s) => s,
            None => 0,
        }
    }

    /// Takes an empty stack (see [`StackHandler::alloc_stack`]) as the trap
    /// stack of CPU `cpu_id`, which has none, and returns that stack.
    pub fn set_up_trap_stack<S: Stack>(&mut self, cpu_id: usize) -> (r: usize)
        requires
            old(self).wf(),
            cpu_id < CPU_NUM,
            old(self).trap(cpu_id as int) is None,
        ensures
            final(self).wf(),
            final(self).currents() == old(self).currents(),
            final(self).trap(cpu_id as int) is Some,
            final(self).traps() == old(self).traps().update(
                cpu_id as int,
                final(self).trap(cpu_id as int),
            ),
            old(self).free().len() > 0 ==> old(self).free().contains(final(self).trap(
                cpu_id as int,
            )->Some_0) && final(self).free() == old(self).free().remove(
                final(self).trap(cpu_id as int)->Some_0,
            ),
            old(self).free().len() == 0 ==> final(self).free() == old(self).free(),
            Some(r) == final(self).trap(cpu_id as int),
    {
        let stack = self.alloc_stack::<S>();
        self.trap_stack.set(cpu_id, Some(stack));
        stack
    }

    /// Takes an empty stack (see [`StackHandler::alloc_stack`]) as the trap
    /// stack of CPU `cpu_id`, which has none, and returns its base address.
    pub fn alloc_trap_stack<S: Stack>(&mut self, cpu_id: usize) -> (r: usize)
        requires
            old(self).wf(),
            cpu_id < CPU_NUM,
            old(self).trap(cpu_id as int) is None,
        ensures
            final(self).wf(),
            final(self).currents() == old(self).currents(),
            final(self).trap(cpu_id as int) is Some,
            final(self).traps() == old(self).traps().update(
                cpu_id as int,
                final(self).trap(cpu_id as int),
            ),
            old(self).free().len() > 0 ==> old(self).free().contains(final(self).trap(
                cpu_id as int,
            )->Some_0) && final(self).free() == old(self).free().remove(
                final(self).trap(cpu_id as int)->Some_0,
            ),
            old(self).free().len() == 0 ==> final(self).free() == old(self).free(),
    {
        let stack = self.set_up_trap_stack::<S>(cpu_id);
        S::base(stack)
    }

    /// Makes `stack` the trap stack of CPU `cpu_id`, returning the previous
    /// one.
    pub fn set_trap_stack(&mut self, stack: usize, cpu_id: usize) -> (r: Option<usize>)
        requires
            old(self).wf(),
            cpu_id < CPU_NUM,
        ensures
            final(self).wf(),
            final(self).free() == old(self).free(),
            r == old(self).trap(cpu_id as int),
            final(self).traps() == old(self).traps().update(cpu_id as int, Some(stack)),
            final(self).currents() == old(self).currents(),
    {
        let prev = self.trap_stack[cpu_id];
        self.trap_stack.set(cpu_id, Some(stack));
        prev
    }

    /// Makes sure CPU `cpu_id` runs on an empty stack and returns that stack:
    /// when it has no current stack (it runs on a thread's), an empty stack
    /// is taken (see [`StackHandler::alloc_stack`]) and made current.
    pub fn ensure_empty_stack<S: Stack>(&mut self, cpu_id: usize) -> (r: usize)
        requires
            old(self).wf(),
            cpu_id < CPU_NUM,
        ensures
            final(self).wf(),
            final(self).traps() == old(self).traps(),
            final(self).current(cpu_id as int) is Some,
            final(self).currents() == old(self).currents().update(
                cpu_id as int,
                final(self).current(cpu_id as int),
            ),
            old(self).current(cpu_id as int) is Some ==> final(self).currents() == old(self).currents() && final(self).free() == old(self).free(),
            old(self).current(cpu_id as int) is None && old(self).free().len() > 0 ==> old(self).free().contains(final(self).current(cpu_id as int)->Some_0) && final(self).free()
                == old(self).free().remove(final(self).current(cpu_id as int)->Some_0),
            old(self).current(cpu_id as int) is None && old(self).free().len() == 0 ==> final(self).free() == old(self).free(),
            Some(r) == final(self).current(cpu_id as int),
    {
        if self.current_stack[cpu_id].is_none() {
            let empty_stack = self.alloc_stack::<S>();
            let _ = self.set_current_stack(empty_stack, cpu_id);
        }
        match self.current_stack[cpu_id] {
            Some(s) => s,
            None => 0,
        }
    }

    /// Makes sure CPU `cpu_id` runs on an empty stack and returns its base
    /// address: when it has no current stack (it runs on a thread's), an
    /// empty stack is taken and made current.
    pub fn get_empty_stack<S: Stack>(&mut self, _stack_type: usize, cpu_id: usize) -> (r: usize)
        requires
            old(self).wf(),
            cpu_id < CPU_NUM,
        ensures
            final(self).wf(),
            final(self).traps() == old(self).traps(),
            final(self).current(cpu_id as int) is Some,
            final(self).currents() == old(self).currents().update(
                cpu_id as int,
                final(self).current(cpu_id as int),
            ),
            old(self).current(cpu_id as int) is Some ==> final(self).currents() == old(self).currents() && final(self).free() == old(self).free(),
            old(self).current(cpu_id as int) is None && old(self).free().len() > 0 ==> old(self).free().contains(final(self).current(cpu_id as int)->Some_0) && final(self).free()
                == old(self).free().remove(final(self).current(cpu_id as int)->Some_0),
            old(self).current(cpu_id as int) is None && old(self).free().len() == 0 ==> final(self).free() == old(self).free(),
    {
        let cur = self.ensure_empty_stack::<S>(cpu_id);
        S::base(cur)
    }

    /// Moves CPU `cpu_id` onto the stack of a thread: `thread_stack` becomes
    /// current (or none, when `None`), and the previous current stack, if
    /// any, is kept for reuse (see [`StackHandler::dealloc_stack`]).
    pub fn get_thread_stack<S: Stack>(
        &mut self,
        thread_stack: Option<usize>,
        _stack_type: usize,
        cpu_id: usize,
    )
        requires
            old(self).wf(),
            cpu_id < CPU_NUM,
        ensures
            final(self).wf(),
            final(self).traps() == old(self).traps(),
            final(self).currents() == old(self).currents().update(
                cpu_id as int,
                thread_stack,
            ),
            old(self).current(cpu_id as int) is None ==> final(self).free() == old(self).free(),
            old(self).current(cpu_id as int) matches Some(s) ==> final(self).free() == (if old(self).free().remove(s).len() < STACK_POOL_SIZE {
                old(self).free().insert(s)
            } else {
                old(self).free().remove(s)
            }),
    {
        let old_stack = match thread_stack {
            Some(stack) => self.set_current_stack(stack, cpu_id),
            None => {
                let prev = self.current_stack[cpu_id];
                self.current_stack.set(cpu_id, None);
                prev
            },
        };
        match old_stack {
            Some(s) => self.dealloc_stack::<S>(s),
            None => {},
        }
    }
}

} // verus!
