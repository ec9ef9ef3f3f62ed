//! Event sources.
use vstd::prelude::*;

verus! {

/// An event source: something that holds ready tasks and hands out the one
/// of highest priority. Smaller numbers are higher priorities.
pub trait EventSource {
    /// The source's own well-formedness.
    spec fn inv(&self) -> bool;

    /// The priority of the highest-priority ready task on CPU `cpu_id`, or a
    /// priority one below the lowest when there is none.
    fn hightest_priority(&self, cpu_id: usize) -> isize
        requires
            self.inv(),
    ;

    /// Takes the highest-priority ready task on CPU `cpu_id`; returns its
    /// handle (0 when there is none) and the highest priority left.
    fn take_task(&mut self, cpu_id: usize) -> (r: (usize, isize))
        requires
            old(self).inv(),
        ensures
            final(self).inv(),
    ;

    /// Whether each CPU sees its own priority for this source.
    fn is_prio_per_cpu() -> bool;
}

/// The functions of an event source, one pair for each privilege level.
///
/// `HP` computes the highest priority of the source whose data lives at the
/// given address, on the given CPU; `TT` takes its highest-priority task.
pub struct EventSourceVtable<HP, TT> {
    kernel_hightest_priority: HP,
    user_hightest_priority: HP,
    kernel_take_task: TT,
    user_take_task: TT,
    /// Whether each CPU sees its own priority for this source.
    pub is_prio_per_cpu: bool,
}

impl<HP, TT> EventSourceVtable<HP, TT> where
    HP: Fn(usize, usize) -> isize,
    TT: Fn(usize, usize) -> (usize, isize),
 {
    /// The priority function used at the given privilege level.
    pub closed spec fn priority_fn(&self, in_kernel: bool) -> HP {
        if in_kernel {
            self.kernel_hightest_priority
        } else {
            self.user_hightest_priority
        }
    }

    /// Whether each CPU sees its own priority for this source.
    pub closed spec fn prio_per_cpu(&self) -> bool {
        self.is_prio_per_cpu
    }

    /// The task-taking function used at the given privilege level.
    pub closed spec fn take_fn(&self, in_kernel: bool) -> TT {
        if in_kernel {
            self.kernel_take_task
        } else {
            self.user_take_task
        }
    }

    /// A vtable with explicit kernel-level and user-level functions.
    pub fn new(
        kernel_hightest_priority: HP,
        user_hightest_priority: HP,
        kernel_take_task: TT,
        user_take_task: TT,
        is_prio_per_cpu: bool,
    ) -> (r: Self)
        ensures
            r.priority_fn(true) == kernel_hightest_priority,
            r.priority_fn(false) == user_hightest_priority,
            r.take_fn(true) == kernel_take_task,
            r.take_fn(false) == user_take_task,
            r.prio_per_cpu() == is_prio_per_cpu,
    {
        EventSourceVtable {
            kernel_hightest_priority,
            user_hightest_priority,
            kernel_take_task,
            user_take_task,
            is_prio_per_cpu,
        }
    }

    /// The same vtable with new user-level functions: those the kernel-level
    /// ones are reached at from a user address space.
    pub fn with_user(self, user_hightest_priority: HP, user_take_task: TT) -> (r: Self)
        ensures
            r.priority_fn(true) == self.priority_fn(true),
            r.priority_fn(false) == user_hightest_priority,
            r.take_fn(true) == self.take_fn(true),
            r.take_fn(false) == user_take_task,
            r.prio_per_cpu() == self.prio_per_cpu(),
    {
        EventSourceVtable {
            kernel_hightest_priority: self.kernel_hightest_priority,
            user_hightest_priority,
            kernel_take_task: self.kernel_take_task,
            user_take_task,
            is_prio_per_cpu: self.is_prio_per_cpu,
        }
    }

    /// Whether each CPU sees its own priority for this source.
    pub fn per_cpu(&self) -> (r: bool)
        ensures
            r == self.prio_per_cpu(),
    {
        self.is_prio_per_cpu
    }

    /// Calls the priority function of the given privilege level.
    pub fn hightest_priority(&self, ptr: usize, cpu_id: usize, in_kernel: bool) -> (r: isize)
        requires
            call_requires(self.priority_fn(in_kernel), (ptr, cpu_id)),
        ensures
            call_ensures(self.priority_fn(in_kernel), (ptr, cpu_id), r),
    {
        if in_kernel {
            (self.kernel_hightest_priority)(ptr, cpu_id)
        } else {
            (self.user_hightest_priority)(ptr, cpu_id)
        }
    }

    /// Calls the task-taking function of the given privilege level.
    pub fn take_task(&self, ptr: usize, cpu_id: usize, in_kernel: bool) -> (r: (usize, isize))
        requires
            call_requires(self.take_fn(in_kernel), (ptr, cpu_id)),
        ensures
            call_ensures(self.take_fn(in_kernel), (ptr, cpu_id), r),
    {
        if in_kernel {
            (self.kernel_take_task)(ptr, cpu_id)
        } else {
            (self.user_take_task)(ptr, cpu_id)
        }
    }
}

} // verus!
