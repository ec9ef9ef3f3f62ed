//! The scheduler: an ordered list of event sources, among them its own trap
//! wait queue and ready queue.
//!
//! Each process owns one scheduler for its user-level tasks; all kernel tasks
//! share one, whose process number is 0.
use vstd::prelude::*;
use crate::interface::{TaskHost, TaskState, CPU_NUM, EVENT_SORCE_NUM, PROCESS_NUM};
use crate::schedule::event_source::{EventSource, EventSourceVtable};
use crate::schedule::process_info::{ProcessInfo, ProcessInfoTable};
use crate::schedule::ready_queue::{ready_take, top_priority, ReadyQueue};
use crate::schedule::trap_wait_queue::{
    trap_take, TrapWaitQueue, ACTIVE_PRIORITY, INACTIVE_PRIORITY,
};

verus! {

/// The minimum of `isize::MAX` and the elements of `ps`.
pub open spec fn seq_min(ps: Seq<isize>) -> isize
    decreases ps.len(),
{
    if ps.len() == 0 {
        isize::MAX
    } else {
        let m = seq_min(ps.drop_last());
        if m < ps.last() {
            m
        } else {
            ps.last()
        }
    }
}

/// The first index of `v` in `ps`, or -1.
pub open spec fn first_index_of(ps: Seq<isize>, v: isize) -> int
    decreases ps.len(),
{
    if ps.len() == 0 {
        -1
    } else {
        let i = first_index_of(ps.drop_last(), v);
        if i >= 0 {
            i
        } else if ps.last() == v {
            ps.len() - 1
        } else {
            -1
        }
    }
}

/// The minimum of `isize::MAX` and the elements of `ps` at indices other
/// than `x`.
pub open spec fn min_except(ps: Seq<isize>, x: int) -> isize
    decreases ps.len(),
{
    if ps.len() == 0 {
        isize::MAX
    } else {
        let m = min_except(ps.drop_last(), x);
        if x == ps.len() - 1 || m < ps.last() {
            m
        } else {
            ps.last()
        }
    }
}

/// The source `pop_task` takes from, given the sources' priorities: the
/// first of highest priority, or -1 when every priority is `isize::MAX`.
pub open spec fn first_source(ps: Seq<isize>) -> int {
    if seq_min(ps) == isize::MAX {
        -1
    } else {
        first_index_of(ps, seq_min(ps))
    }
}

/// `seq_min` is a lower bound, reached by an element unless it is `isize::MAX`.
pub proof fn lemma_seq_min(ps: Seq<isize>)
    ensures
        forall|j: int| 0 <= j < ps.len() ==> seq_min(ps) <= #[trigger] ps[j],
        seq_min(ps) < isize::MAX ==> exists|j: int|
            0 <= j < ps.len() && #[trigger] ps[j] == seq_min(ps),
    decreases ps.len(),
{
    if ps.len() > 0 {
        lemma_seq_min(ps.drop_last());
        assert forall|j: int| 0 <= j < ps.len() implies seq_min(ps) <= #[trigger] ps[j] by {
            if j < ps.len() - 1 {
                assert(ps[j] == ps.drop_last()[j]);
            }
        }
        if seq_min(ps) < isize::MAX {
            if seq_min(ps) == ps.last() {
                assert(ps[ps.len() - 1] == seq_min(ps));
            } else {
                let j = choose|j: int|
                    0 <= j < ps.drop_last().len() && #[trigger] ps.drop_last()[j] == seq_min(
                        ps.drop_last(),
                    );
                assert(ps[j] == ps.drop_last()[j]);
            }
        }
    }
}

/// `first_index_of` is the least index holding `v`.
pub proof fn lemma_first_index_of(ps: Seq<isize>, v: isize)
    ensures
        -1 <= first_index_of(ps, v) < ps.len(),
        first_index_of(ps, v) >= 0 ==> ps[first_index_of(ps, v)] == v,
        forall|k: int|
            0 <= k < ps.len() && (first_index_of(ps, v) == -1 || k < first_index_of(ps, v))
                ==> #[trigger] ps[k] != v,
    decreases ps.len(),
{
    if ps.len() > 0 {
        lemma_first_index_of(ps.drop_last(), v);
        assert forall|k: int|
            0 <= k < ps.len() && (first_index_of(ps, v) == -1 || k < first_index_of(
                ps,
                v,
            )) implies #[trigger] ps[k] != v by {
            if k < ps.len() - 1 {
                assert(ps[k] == ps.drop_last()[k]);
            }
        }
        if first_index_of(ps.drop_last(), v) >= 0 {
            assert(ps[first_index_of(ps, v)] == ps.drop_last()[first_index_of(ps, v)]);
        }
    }
}

/// Skipping an index outside the sequence skips nothing.
proof fn lemma_min_except_outside(ps: Seq<isize>, x: int)
    requires
        x < 0 || x >= ps.len(),
    ensures
        min_except(ps, x) == seq_min(ps),
    decreases ps.len(),
{
    if ps.len() > 0 {
        lemma_min_except_outside(ps.drop_last(), x);
    }
}

/// Skipping an index can only raise the minimum.
proof fn lemma_min_except_ge(ps: Seq<isize>, x: int)
    ensures
        min_except(ps, x) >= seq_min(ps),
    decreases ps.len(),
{
    if ps.len() > 0 {
        lemma_min_except_ge(ps.drop_last(), x);
    }
}

/// A value below the minimum does not occur.
proof fn lemma_first_index_below_min(ps: Seq<isize>, v: isize)
    requires
        v < seq_min(ps),
    ensures
        first_index_of(ps, v) == -1,
    decreases ps.len(),
{
    if ps.len() > 0 {
        lemma_first_index_below_min(ps.drop_last(), v);
    }
}

/// A minimum below `isize::MAX` occurs.
proof fn lemma_first_index_of_min(ps: Seq<isize>)
    requires
        seq_min(ps) < isize::MAX,
    ensures
        0 <= first_index_of(ps, seq_min(ps)) < ps.len(),
{
    lemma_seq_min(ps);
    lemma_first_index_of(ps, seq_min(ps));
    let j = choose|j: int| 0 <= j < ps.len() && #[trigger] ps[j] == seq_min(ps);
    assert(ps[j] == seq_min(ps));
}

/// A task taken from a scheduler.
#[derive(PartialEq, Eq, Structural, Clone, Copy, Debug)]
pub struct Taken {
    /// The task, `None` for the null handle.
    pub task: Option<usize>,
    /// The priority recorded for the scheduler after the taking.
    pub prio: isize,
    /// For a trap handler handed out by the trap wait queue: the task
    /// stopped by the first trap waiting on the CPU (`None` for a trap
    /// without a task), whose process the handler is to work for.
    pub trap_of: Option<Option<usize>>,
}

/// How an event source is reached.
pub enum SourceKind<HP, TT> {
    /// The scheduler's own trap wait queue.
    TrapWaitQueue,
    /// The scheduler's own ready queue.
    ReadyQueue,
    /// An outside source, through its functions.
    Vtable(EventSourceVtable<HP, TT>),
}

/// An event source: where its data lives at kernel and at user level, and how
/// it is reached.
pub struct EventSourceEntry<HP, TT> {
    kernel_data: usize,
    user_data: usize,
    kind: SourceKind<HP, TT>,
}

impl<HP, TT> EventSourceEntry<HP, TT> where
    HP: Fn(usize, usize) -> isize,
    TT: Fn(usize, usize) -> (usize, isize),
 {
    /// The address of the source's data at the given privilege level.
    pub closed spec fn data_at(&self, in_kernel: bool) -> usize {
        if in_kernel {
            self.kernel_data
        } else {
            self.user_data
        }
    }

    /// The source's functions, for an outside source.
    pub closed spec fn vtable(&self) -> Option<EventSourceVtable<HP, TT>> {
        match self.kind {
            SourceKind::Vtable(vt) => Some(vt),
            _ => None,
        }
    }

    /// Whether this is the scheduler's own ready queue.
    pub closed spec fn is_ready_queue(&self) -> bool {
        self.kind is ReadyQueue
    }

    /// Whether this is the scheduler's own trap wait queue.
    pub closed spec fn is_trap_wait_queue(&self) -> bool {
        self.kind is TrapWaitQueue
    }

    /// An outside source whose data is at `kernel_data` and `user_data`.
    pub fn new(kernel_data: usize, user_data: usize, vtable: EventSourceVtable<HP, TT>) -> (r: Self)
        ensures
            r.data_at(true) == kernel_data,
            r.data_at(false) == user_data,
            r.vtable() == Some(vtable),
    {
        EventSourceEntry { kernel_data, user_data, kind: SourceKind::Vtable(vtable) }
    }

    /// The address of the source's data at the given privilege level.
    pub fn data(&self, in_kernel: bool) -> (r: usize)
        ensures
            r == self.data_at(in_kernel),
    {
        if in_kernel {
            self.kernel_data
        } else {
            self.user_data
        }
    }
}

/// The scheduler.
pub struct Scheduler<HP, TT> {
    /// The event sources, in order of preference among equal priorities;
    /// once set up, index 0 is the ready queue.
    sources: Vec<EventSourceEntry<HP, TT>>,
    /// The process number; 0 for the kernel scheduler.
    global_index: usize,
    ready_queue: ReadyQueue,
    trap_wait_queue: TrapWaitQueue,
}

/// Whether the functions of `vt` may be called on the data at `data`.
pub open spec fn vtable_callable<HP, TT>(
    vt: EventSourceVtable<HP, TT>,
    kernel_data: usize,
    user_data: usize,
) -> bool where HP: Fn(usize, usize) -> isize, TT: Fn(usize, usize) -> (usize, isize) {
    forall|cpu: usize|
        {
            &&& call_requires(vt.priority_fn(true), (kernel_data, cpu))
            &&& call_requires(vt.priority_fn(false), (user_data, cpu))
            &&& call_requires(vt.take_fn(true), (kernel_data, cpu))
            &&& call_requires(vt.take_fn(false), (user_data, cpu))
        }
}

impl<HP, TT> Scheduler<HP, TT> where
    HP: Fn(usize, usize) -> isize,
    TT: Fn(usize, usize) -> (usize, isize),
 {
    /// Well-formedness: at most `EVENT_SORCE_NUM` sources, all callable, and
    /// well-formed own queues.
    pub closed spec fn wf(&self) -> bool {
        &&& self.sources@.len() <= EVENT_SORCE_NUM
        &&& self.global_index < PROCESS_NUM
        &&& self.ready_queue.wf()
        &&& self.trap_wait_queue.wf()
        &&& forall|i: int|
            0 <= i < self.sources@.len() ==> match (#[trigger] self.sources@[i]).kind {
                SourceKind::Vtable(vt) => vtable_callable(
                    vt,
                    self.sources@[i].kernel_data,
                    self.sources@[i].user_data,
                ),
                _ => true,
            }
    }

    /// A well-formed scheduler has a process number in the table, at most
    /// `EVENT_SORCE_NUM` sources and well-formed own queues.
    pub proof fn lemma_wf(&self)
        requires
            self.wf(),
        ensures
            self.index() < PROCESS_NUM,
            self.sources_view().len() <= EVENT_SORCE_NUM,
            self.ready().wf(),
            self.traps().wf(),
    {
    }

    /// The event sources.
    pub closed spec fn sources_view(&self) -> Seq<EventSourceEntry<HP, TT>> {
        self.sources@
    }

    /// The process number.
    pub closed spec fn index(&self) -> usize {
        self.global_index
    }

    /// The ready queue.
    pub closed spec fn ready(&self) -> ReadyQueue {
        self.ready_queue
    }

    /// The trap wait queue.
    pub closed spec fn traps(&self) -> TrapWaitQueue {
        self.trap_wait_queue
    }

    /// Whether the kernel-level addresses of the sources are used: always
    /// for the kernel scheduler, else when running in the kernel.
    pub open spec fn uses_kernel(&self, in_kernel_now: bool) -> bool {
        self.index() == 0 || in_kernel_now
    }

    /// `p` is a priority that source `i` may report on CPU `cpu`: the trap
    /// wait queue reports `ACTIVE_PRIORITY` while a trap waits on the CPU and
    /// `INACTIVE_PRIORITY` otherwise, the ready queue its top priority, and
    /// an outside source what its function may return.
    pub open spec fn source_prio(&self, i: int, cpu: usize, ik: bool, p: isize) -> bool {
        let e = self.sources_view()[i];
        if e.is_trap_wait_queue() {
            p == (if self.traps().traps()[cpu as int].len() == 0 {
                INACTIVE_PRIORITY
            } else {
                ACTIVE_PRIORITY
            })
        } else if e.is_ready_queue() {
            p == top_priority(self.ready()@)
        } else {
            call_ensures(e.vtable()->Some_0.priority_fn(ik), (e.data_at(ik), cpu), p)
        }
    }

    /// `ps` lists priorities that the sources may report, in order.
    pub open spec fn prios_ok(&self, ps: Seq<isize>, cpu: usize, ik: bool) -> bool {
        &&& ps.len() == self.sources_view().len()
        &&& forall|i: int| 0 <= i < ps.len() ==> #[trigger] self.source_prio(i, cpu, ik, ps[i])
    }

    /// `p` is a value the scheduler's highest priority may take: the minimum of
    /// `isize::MAX` and priorities the sources may report.
    pub open spec fn priority_is(&self, cpu: usize, ik: bool, p: isize) -> bool {
        exists|ps: Seq<isize>| #[trigger] self.prios_ok(ps, cpu, ik) && p == seq_min(ps)
    }

    /// `pop_task` taking from source `f` turned `old` into `new` with outcome
    /// `out`: only the queue of that source changed, as its taking says (see
    /// [`ready_take`] and [`trap_take`]); an outside source's function was
    /// called.
    pub open spec fn took_from(
        old: Self,
        new: Self,
        f: int,
        cpu: usize,
        ik: bool,
        out: Result<(usize, isize), TaskState>,
    ) -> bool {
        let e = old.sources_view()[f];
        &&& new.sources_view() == old.sources_view()
        &&& new.index() == old.index()
        &&& if e.is_ready_queue() {
            &&& new.traps() == old.traps()
            &&& new.ready().wf()
            &&& out is Ok
            &&& ready_take(old.ready()@, new.ready()@, out->Ok_0)
        } else if e.is_trap_wait_queue() {
            &&& new.ready() == old.ready()
            &&& trap_take(old.traps(), new.traps(), cpu, out)
        } else {
            &&& new.ready() == old.ready()
            &&& new.traps() == old.traps()
            &&& out is Ok
            &&& call_ensures(e.vtable()->Some_0.take_fn(ik), (e.data_at(ik), cpu), out->Ok_0)
        }
    }

    /// The process number; 0 for the kernel scheduler.
    pub fn global_index(&self) -> (r: usize)
        ensures
            r == self.index(),
    {
        self.global_index
    }

    /// Whether the kernel-level addresses of the sources are used.
    pub fn in_kernel(&self, in_kernel_now: bool) -> (r: bool)
        ensures
            r == self.uses_kernel(in_kernel_now),
    {
        self.global_index == 0 || in_kernel_now
    }

    /// A scheduler for process `global_index` with its own queues but no
    /// source yet (see [`Scheduler::init_sources`]).
    pub fn init_except_sources(global_index: usize) -> (r: Self)
        requires
            global_index < PROCESS_NUM,
        ensures
            r.wf(),
            r.index() == global_index,
            r.sources_view().len() == 0,
            r.ready()@ == ReadyQueue::new_view(),
            r.traps().traps() == Seq::new(
                CPU_NUM as nat,
                |c: int| Seq::<(usize, Option<usize>)>::empty(),
            ),
            r.traps().idle().len() == 0,
            r.traps().initial_handlers() == TrapWaitQueue::new_handlers_view(),
    {
        Scheduler {
            sources: Vec::new(),
            global_index,
            ready_queue: ReadyQueue::new(),
            trap_wait_queue: TrapWaitQueue::new(),
        }
    }

    /// The priority that source `i` reports on CPU `cpu_id`.
    fn source_priority(&self, i: usize, cpu_id: usize, ik: bool) -> (p: isize)
        requires
            self.wf(),
            i < self.sources@.len(),
            cpu_id < CPU_NUM,
        ensures
            self.source_prio(i as int, cpu_id, ik, p),
    {
        let e = &self.sources[i];
        match &e.kind {
            SourceKind::TrapWaitQueue => self.trap_wait_queue.hightest_priority(cpu_id),
            SourceKind::ReadyQueue => self.ready_queue.hightest_priority(cpu_id),
            SourceKind::Vtable(vt) => {
                let d = e.data(ik);
                vt.hightest_priority(d, cpu_id, ik)
            },
        }
    }

    /// The highest priority among all ready tasks of all sources on CPU
    /// `cpu_id` (smaller is higher): `isize::MAX` with no source.
    pub fn hightest_priority(&self, cpu_id: usize, in_kernel_now: bool) -> (r: isize)
        requires
            self.wf(),
            cpu_id < CPU_NUM,
        ensures
            self.priority_is(cpu_id, self.uses_kernel(in_kernel_now), r),
    {
        let ik = self.in_kernel(in_kernel_now);
        let mut acc: isize = isize::MAX;
        let ghost mut ps: Seq<isize> = Seq::empty();
        let mut i: usize = 0;
        while i < self.sources.len()
            invariant
                self.wf(),
                cpu_id < CPU_NUM,
                i <= self.sources@.len(),
                ps.len() == i,
                forall|j: int| 0 <= j < i ==> #[trigger] self.source_prio(j, cpu_id, ik, ps[j]),
                acc == seq_min(ps),
            decreases self.sources@.len() - i,
        {
            let p = self.source_priority(i, cpu_id, ik);
            proof {
                assert(ps.push(p).drop_last() =~= ps);
                ps = ps.push(p);
            }
            acc = if acc < p {
                acc
            } else {
                p
            };
            i += 1;
        }
        proof {
            assert(self.prios_ok(ps, cpu_id, ik));
        }
        acc
    }

    /// Records `prio` as the highest priority of this scheduler's process.
    ///
    /// `cpu_id` names the CPU whose view is updated, -1 for all; the table
    /// keeps one priority per process, which every CPU shares.
    pub fn update_prio(&self, table: &mut ProcessInfoTable, prio: isize, cpu_id: isize)
        requires
            self.wf(),
            old(table).wf(),
        ensures
            final(table).wf(),
            final(table).next() == old(table).next(),
            final(table).entries() == old(table).entries().update(
                self.index() as int,
                ProcessInfo { highest_prio: prio, ..old(table).entries()[self.index() as int] },
            ),
    {
        table.set_highest_prio(self.global_index, prio);
    }

    /// Computes the highest priority and records it for the current CPU.
    pub fn get_and_update_current_prio(
        &self,
        table: &mut ProcessInfoTable,
        cpu_id: usize,
        in_kernel_now: bool,
    ) -> (r: isize)
        requires
            self.wf(),
            old(table).wf(),
            cpu_id < CPU_NUM,
        ensures
            self.priority_is(cpu_id, self.uses_kernel(in_kernel_now), r),
            final(table).wf(),
            final(table).next() == old(table).next(),
            final(table).entries() == old(table).entries().update(
                self.index() as int,
                ProcessInfo { highest_prio: r, ..old(table).entries()[self.index() as int] },
            ),
    {
        let prio = self.hightest_priority(cpu_id, in_kernel_now);
        self.update_prio(table, prio, cpu_id as isize);
        prio
    }

    /// Computes the highest priority and records it for all CPUs.
    pub fn get_and_update_all_prio(
        &self,
        table: &mut ProcessInfoTable,
        cpu_id: usize,
        in_kernel_now: bool,
    ) -> (r: isize)
        requires
            self.wf(),
            old(table).wf(),
            cpu_id < CPU_NUM,
        ensures
            self.priority_is(cpu_id, self.uses_kernel(in_kernel_now), r),
            final(table).wf(),
            final(table).next() == old(table).next(),
            final(table).entries() == old(table).entries().update(
                self.index() as int,
                ProcessInfo { highest_prio: r, ..old(table).entries()[self.index() as int] },
            ),
    {
        let prio = self.hightest_priority(cpu_id, in_kernel_now);
        self.update_prio(table, prio, -1);
        prio
    }

    /// What `pop_task` did, given the priorities `ps` that the sources
    /// reported: with none below `isize::MAX`, nothing is taken and
    /// `isize::MAX` is recorded; otherwise the first source of highest
    /// priority is taken from, and the priority recorded and returned is the
    /// lower of what that source reports after the taking and the best
    /// priority of the other sources. A null task is returned as `None`; a
    /// trap handler handed out comes with the task of the trap it serves
    /// first. An error of the trap wait queue is passed on, and nothing is
    /// recorded.
    pub open spec fn pop_outcome(
        old: Self,
        new: Self,
        told: ProcessInfoTable,
        tnew: ProcessInfoTable,
        ps: Seq<isize>,
        cpu: usize,
        ik: bool,
        r: Result<Taken, TaskState>,
    ) -> bool {
        let f = first_source(ps);
        let idx = old.index() as int;
        &&& tnew.next() == told.next()
        &&& if f == -1 {
            &&& r == Ok::<Taken, TaskState>(
                Taken { task: None::<usize>, prio: isize::MAX, trap_of: None::<Option<usize>> },
            )
            &&& new == old
            &&& tnew.entries() == told.entries().update(
                idx,
                ProcessInfo { highest_prio: isize::MAX, ..told.entries()[idx] },
            )
        } else {
            exists|out: Result<(usize, isize), TaskState>|
                #[trigger] Self::took_from(old, new, f, cpu, ik, out) && match out {
                    Err(e) => r == Err::<Taken, TaskState>(e) && tnew.entries() == told.entries(),
                    Ok(t) => {
                        let sp = min_except(ps, f);
                        let prio = if t.1 < sp {
                            t.1
                        } else {
                            sp
                        };
                        &&& r == Ok::<Taken, TaskState>(
                            Taken {
                                task: if t.0 == 0 {
                                    None::<usize>
                                } else {
                                    Some(t.0)
                                },
                                prio,
                                trap_of: if old.sources_view()[f].is_trap_wait_queue() && t.0 != 0 {
                                    Some(old.traps().traps()[cpu as int][0].1)
                                } else {
                                    None::<Option<usize>>
                                },
                            },
                        )
                        &&& tnew.entries() == told.entries().update(
                            idx,
                            ProcessInfo { highest_prio: prio, ..told.entries()[idx] },
                        )
                    },
                }
        }
    }

    /// Takes the next task: from the first source of highest priority on CPU
    /// `cpu_id`, recording the priority left in `table` (see
    /// [`Scheduler::pop_outcome`]). `host` is used by the trap wait queue.
    pub fn pop_task<H: TaskHost>(
        &mut self,
        table: &mut ProcessInfoTable,
        cpu_id: usize,
        in_kernel_now: bool,
        host: &H,
    ) -> (r: Result<Taken, TaskState>)
        requires
            old(self).wf(),
            old(table).wf(),
            cpu_id < CPU_NUM,
        ensures
            final(self).wf(),
            final(table).wf(),
            final(self).index() == old(self).index(),
            exists|ps: Seq<isize>|
                #[trigger] old(self).prios_ok(ps, cpu_id, old(self).uses_kernel(in_kernel_now))
                    && Self::pop_outcome(
                    *old(self),
                    *final(self),
                    *old(table),
                    *final(table),
                    ps,
                    cpu_id,
                    old(self).uses_kernel(in_kernel_now),
                    r,
                ),
    {
        let ik = self.in_kernel(in_kernel_now);
        let mut first_index: usize = usize::MAX;
        let mut first_prio: isize = isize::MAX;
        let mut second_prio: isize = isize::MAX;
        let ghost mut ps: Seq<isize> = Seq::empty();
        let mut i: usize = 0;
        while i < self.sources.len()
            invariant
                self.wf(),
                self == old(self),
                cpu_id < CPU_NUM,
                i <= self.sources@.len(),
                ps.len() == i,
                forall|j: int| 0 <= j < i ==> #[trigger] self.source_prio(j, cpu_id, ik, ps[j]),
                first_prio == seq_min(ps),
                first_prio == isize::MAX ==> first_index == usize::MAX,
                first_prio < isize::MAX ==> first_index == first_index_of(ps, first_prio),
                second_prio == min_except(ps, first_source(ps)),
            decreases self.sources@.len() - i,
        {
            let p = self.source_priority(i, cpu_id, ik);
            let ghost ps2 = ps.push(p);
            proof {
                assert(ps2.drop_last() =~= ps);
                lemma_min_except_ge(ps, first_source(ps));
                if p < first_prio {
                    lemma_first_index_below_min(ps, p);
                    lemma_min_except_outside(ps, i as int);
                } else if first_prio < isize::MAX {
                    lemma_first_index_of_min(ps);
                }
            }
            if p < first_prio {
                second_prio = first_prio;
                first_prio = p;
                first_index = i;
            } else if p < second_prio {
                second_prio = p;
            }
            proof {
                ps = ps2;
            }
            i += 1;
        }
        proof {
            assert(self.prios_ok(ps, cpu_id, ik));
            if first_prio < isize::MAX {
                lemma_first_index_of_min(ps);
            }
        }
        if first_index == usize::MAX {
            self.update_prio(table, isize::MAX, cpu_id as isize);
            return Ok(Taken { task: None, prio: isize::MAX, trap_of: None });
        }
        let ghost f = first_index as int;
        assert(f == first_source(ps));
        let kind_tag: u8 = match &self.sources[first_index].kind {
            SourceKind::TrapWaitQueue => 0,
            SourceKind::ReadyQueue => 1,
            SourceKind::Vtable(_) => 2,
        };
        let ptr = self.sources[first_index].data(ik);
        let out: Result<(usize, isize), TaskState>;
        let per_cpu: bool;
        let mut first_trap: Option<(usize, Option<usize>)> = None;
        if kind_tag == 0 {
            first_trap = self.trap_wait_queue.first_trap(cpu_id);
            out = self.trap_wait_queue.take_task(cpu_id, ptr, host);
            per_cpu = true;
        } else if kind_tag == 1 {
            out = Ok(self.ready_queue.take_task(cpu_id));
            per_cpu = ReadyQueue::is_prio_per_cpu();
        } else {
            match &self.sources[first_index].kind {
                SourceKind::Vtable(vt) => {
                    out = Ok(vt.take_task(ptr, cpu_id, ik));
                    per_cpu = vt.per_cpu();
                },
                _ => {
                    out = Ok((0, isize::MAX));
                    per_cpu = false;
                },
            }
        }
        proof {
            assert(Self::took_from(*old(self), *self, f, cpu_id, ik, out));
        }
        match out {
            Err(e) => Err(e),
            Ok((task, new_prio)) => {
                let prio = if new_prio < second_prio {
                    new_prio
                } else {
                    second_prio
                };
                if per_cpu {
                    self.update_prio(table, prio, cpu_id as isize);
                } else {
                    self.update_prio(table, prio, -1);
                }
                let trap_of = match first_trap {
                    Some(item) => if task != 0 {
                        Some(item.1)
                    } else {
                        None
                    },
                    None => None,
                };
                if task == 0 {
                    Ok(Taken { task: None, prio, trap_of })
                } else {
                    Ok(Taken { task: Some(task), prio, trap_of })
                }
            },
        }
    }

    /// Takes the first trap waiting on CPU `cpuid` from the trap wait queue.
    pub fn pop_trap(&mut self, cpuid: usize) -> (r: Option<(usize, Option<usize>)>)
        requires
            old(self).wf(),
            cpuid < CPU_NUM,
        ensures
            final(self).wf(),
            final(self).sources_view() == old(self).sources_view(),
            final(self).index() == old(self).index(),
            final(self).ready() == old(self).ready(),
            final(self).traps().idle() == old(self).traps().idle(),
            final(self).traps().initial_handlers() == old(self).traps().initial_handlers(),
            if old(self).traps().traps()[cpuid as int].len() == 0 {
                r == None::<(usize, Option<usize>)> && final(self).traps().traps() == old(self).traps().traps()
            } else {
                r == Some(old(self).traps().traps()[cpuid as int][0]) && final(self).traps().traps() == old(self).traps().traps().update(
                    cpuid as int,
                    old(self).traps().traps()[cpuid as int].drop_first(),
                )
            },
    {
        self.trap_wait_queue.pop_trap(cpuid)
    }

    /// Whether a trap handler of CPU `cpuid` can park (see
    /// [`TrapWaitQueue::can_park`]).
    pub fn can_park(&self, cpuid: usize) -> (r: bool)
        requires
            self.wf(),
            cpuid < CPU_NUM,
        ensures
            r == (self.traps().traps()[cpuid as int].len() == 0 ==> self.traps().idle().len()
                < crate::interface::TRAP_WAIT_QUEUE_SIZE),
    {
        self.trap_wait_queue.can_park(cpuid)
    }

    /// Makes the trap handler `handler` idle again (see
    /// [`TrapWaitQueue::reschedule_handler`]).
    pub fn reschedule_handler(&mut self, handler: usize) -> (r: (usize, TaskState))
        requires
            old(self).wf(),
            old(self).traps().idle().len() < crate::interface::TRAP_WAIT_QUEUE_SIZE,
        ensures
            final(self).wf(),
            final(self).sources_view() == old(self).sources_view(),
            final(self).index() == old(self).index(),
            final(self).ready() == old(self).ready(),
            final(self).traps().traps() == old(self).traps().traps(),
            final(self).traps().initial_handlers() == old(self).traps().initial_handlers(),
            final(self).traps().idle() == old(self).traps().idle().push(handler),
            r == (0usize, TaskState::Blocking),
    {
        self.trap_wait_queue.reschedule_handler(handler)
    }

    /// What [`Scheduler::push_task`] does: the task goes to the back of its
    /// level unless that level is full, and when it went in the new highest
    /// priority is recorded for the scheduler's process.
    pub open spec fn push_task_post(
        old: Self,
        new: Self,
        told: ProcessInfoTable,
        tnew: ProcessInfoTable,
        task: usize,
        prio: isize,
        cpu_id: usize,
        in_kernel_now: bool,
        r: Result<(), usize>,
    ) -> bool {
        let l = prio - crate::interface::HIGHEST_PRIORITY;
        &&& new.wf()
        &&& tnew.wf()
        &&& tnew.next() == told.next()
        &&& new.sources_view() == old.sources_view()
        &&& new.index() == old.index()
        &&& new.traps() == old.traps()
        &&& if old.ready()@[l].len() < crate::interface::READY_QUEUE_SIZE {
            &&& r == Ok::<(), usize>(())
            &&& new.ready()@ == old.ready()@.update(l, old.ready()@[l].push(task))
            &&& new.priority_is(
                cpu_id,
                new.uses_kernel(in_kernel_now),
                tnew.entries()[old.index() as int].highest_prio,
            )
            &&& tnew.entries() == told.entries().update(
                old.index() as int,
                ProcessInfo {
                    highest_prio: tnew.entries()[old.index() as int].highest_prio,
                    ..told.entries()[old.index() as int]
                },
            )
        } else {
            &&& r == Err::<(), usize>(task)
            &&& new.ready()@ == old.ready()@
            &&& tnew.entries() == told.entries()
        }
    }

    /// What [`Scheduler::push_trap`] does: the record goes to the back of
    /// the CPU's trap queue unless it is full, and when it went in the new
    /// highest priority is recorded for the scheduler's process.
    pub open spec fn push_trap_post(
        old: Self,
        new: Self,
        told: ProcessInfoTable,
        tnew: ProcessInfoTable,
        trap_info: usize,
        task: Option<usize>,
        cpuid: usize,
        in_kernel_now: bool,
        r: Result<(), (usize, Option<usize>)>,
    ) -> bool {
        &&& new.wf()
        &&& tnew.wf()
        &&& tnew.next() == told.next()
        &&& new.sources_view() == old.sources_view()
        &&& new.index() == old.index()
        &&& new.ready() == old.ready()
        &&& new.traps().idle() == old.traps().idle()
        &&& if old.traps().traps()[cpuid as int].len() < crate::interface::TRAP_WAIT_QUEUE_SIZE {
            &&& r == Ok::<(), (usize, Option<usize>)>(())
            &&& new.traps().traps() == old.traps().traps().update(
                cpuid as int,
                old.traps().traps()[cpuid as int].push((trap_info, task)),
            )
            &&& new.priority_is(
                cpuid,
                new.uses_kernel(in_kernel_now),
                tnew.entries()[old.index() as int].highest_prio,
            )
            &&& tnew.entries() == told.entries().update(
                old.index() as int,
                ProcessInfo {
                    highest_prio: tnew.entries()[old.index() as int].highest_prio,
                    ..told.entries()[old.index() as int]
                },
            )
        } else {
            &&& r == Err::<(), (usize, Option<usize>)>((trap_info, task))
            &&& new.traps().traps() == old.traps().traps()
            &&& tnew.entries() == told.entries()
        }
    }

    /// Puts `task`, of priority `prio`, on the ready queue and, when it went
    /// in, records the new highest priority for all CPUs. Hands the task back
    /// when its level is full.
    pub fn push_task(
        &mut self,
        table: &mut ProcessInfoTable,
        task: usize,
        prio: isize,
        cpu_id: usize,
        in_kernel_now: bool,
    ) -> (r: Result<(), usize>)
        requires
            old(self).wf(),
            old(table).wf(),
            cpu_id < CPU_NUM,
            crate::interface::HIGHEST_PRIORITY <= prio <= crate::interface::LOWEST_PRIORITY,
            task != 0,
        ensures
            Self::push_task_post(
                *old(self),
                *final(self),
                *old(table),
                *final(table),
                task,
                prio,
                cpu_id,
                in_kernel_now,
                r,
            ),
    {
        let res = self.ready_queue.push_task(task, prio);
        if res.is_ok() {
            let p = if ReadyQueue::is_prio_per_cpu() {
                self.get_and_update_current_prio(table, cpu_id, in_kernel_now)
            } else {
                self.get_and_update_all_prio(table, cpu_id, in_kernel_now)
            };
            assert(table.entries()[self.index() as int].highest_prio == p);
        }
        res
    }

    /// Records a trap of CPU `cpuid` with the task it stopped, if any, and,
    /// when it went in, records the new highest priority for this CPU. Hands
    /// the record back when that CPU's trap queue is full.
    pub fn push_trap(
        &mut self,
        table: &mut ProcessInfoTable,
        trap_info: usize,
        task: Option<usize>,
        cpuid: usize,
        in_kernel_now: bool,
    ) -> (r: Result<(), (usize, Option<usize>)>)
        requires
            old(self).wf(),
            old(table).wf(),
            cpuid < CPU_NUM,
        ensures
            Self::push_trap_post(
                *old(self),
                *final(self),
                *old(table),
                *final(table),
                trap_info,
                task,
                cpuid,
                in_kernel_now,
                r,
            ),
    {
        let res = self.trap_wait_queue.push_trap(trap_info, task, cpuid);
        if res.is_ok() {
            let p = self.get_and_update_current_prio(table, cpuid, in_kernel_now);
            assert(table.entries()[self.index() as int].highest_prio == p);
        }
        res
    }

    /// Inserts an outside source at `index` (from the front when `index >= 0`;
    /// from the back when negative, -1 being the last place), then records
    /// the new highest priority for all CPUs. Among sources of equal priority
    /// the earlier is preferred.
    ///
    /// Fails, changing nothing, when an address is 0, when `index` lies
    /// outside `-len - 1..=len`, or when `EVENT_SORCE_NUM` sources are
    /// registered already.
    pub fn register_event_source(
        &mut self,
        table: &mut ProcessInfoTable,
        kernel_data: usize,
        user_data: usize,
        vtable: EventSourceVtable<HP, TT>,
        index: isize,
        cpu_id: usize,
        in_kernel_now: bool,
    ) -> (r: bool)
        requires
            old(self).wf(),
            old(table).wf(),
            cpu_id < CPU_NUM,
            vtable_callable(vtable, kernel_data, user_data),
        ensures
            final(self).wf(),
            final(table).wf(),
            final(table).next() == old(table).next(),
            final(self).index() == old(self).index(),
            final(self).ready() == old(self).ready(),
            final(self).traps() == old(self).traps(),
            ({
                let len = old(self).sources_view().len() as int;
                r == (kernel_data != 0 && user_data != 0 && -len - 1 <= index <= len && len
                    < EVENT_SORCE_NUM)
            }),
            r ==> {
                let len = old(self).sources_view().len() as int;
                let pos = if index >= 0 {
                    index as int
                } else {
                    len + index + 1
                };
                &&& final(self).sources_view().len() == len + 1
                &&& final(self).sources_view().subrange(0, pos) == old(self).sources_view().subrange(0, pos)
                &&& final(self).sources_view().subrange(pos + 1, len + 1) == old(self).sources_view().subrange(pos, len)
                &&& final(self).sources_view()[pos].data_at(true) == kernel_data
                &&& final(self).sources_view()[pos].data_at(false) == user_data
                &&& final(self).sources_view()[pos].vtable() == Some(vtable)
                &&& exists|p: isize|
                    #[trigger] final(self).priority_is(
                        cpu_id,
                        final(self).uses_kernel(in_kernel_now),
                        p,
                    ) && final(table).entries() == old(table).entries().update(
                        old(self).index() as int,
                        ProcessInfo {
                            highest_prio: p,
                            ..old(table).entries()[old(self).index() as int]
                        },
                    )
            },
            !r ==> final(self).sources_view() == old(self).sources_view() && final(table).entries() == old(table).entries(),
    {
        if kernel_data == 0 || user_data == 0 {
            return false;
        }
        let len = self.sources.len() as isize;
        if index > len || index < -len - 1 {
            return false;
        }
        if self.sources.len() >= EVENT_SORCE_NUM {
            return false;
        }
        let insert_index: usize = if index >= 0 {
            index as usize
        } else {
            (len + index + 1) as usize
        };
        let entry = EventSourceEntry::new(kernel_data, user_data, vtable);
        let ghost old_sources = self.sources@;
        self.sources.insert(insert_index, entry);
        proof {
            assert forall|i: int| 0 <= i < self.sources@.len() implies match (
            #[trigger] self.sources@[i]).kind {
                SourceKind::Vtable(vt) => vtable_callable(
                    vt,
                    self.sources@[i].kernel_data,
                    self.sources@[i].user_data,
                ),
                _ => true,
            } by {
                if i < insert_index {
                    assert(self.sources@[i] == old_sources[i]);
                } else if i > insert_index {
                    assert(self.sources@[i] == old_sources[i - 1]);
                }
            }
            assert(self.sources@.subrange(0, insert_index as int) =~= old_sources.subrange(
                0,
                insert_index as int,
            ));
            assert(self.sources@.subrange(insert_index + 1, (old_sources.len() + 1) as int)
                =~= old_sources.subrange(insert_index as int, old_sources.len() as int));
        }
        let p = self.get_and_update_all_prio(table, cpu_id, in_kernel_now);
        true
    }

    /// Removes the first source whose data address at the current privilege
    /// level is `event_source`, then records the new highest priority for all
    /// CPUs. Returns whether one was found.
    pub fn unregister_event_source(
        &mut self,
        table: &mut ProcessInfoTable,
        event_source: usize,
        cpu_id: usize,
        in_kernel_now: bool,
    ) -> (r: bool)
        requires
            old(self).wf(),
            old(table).wf(),
            cpu_id < CPU_NUM,
        ensures
            final(self).wf(),
            final(table).wf(),
            final(table).next() == old(table).next(),
            final(self).index() == old(self).index(),
            final(self).ready() == old(self).ready(),
            final(self).traps() == old(self).traps(),
            ({
                let ik = old(self).uses_kernel(in_kernel_now);
                let f = first_with_data(old(self).sources_view(), ik, event_source);
                &&& r == (f >= 0)
                &&& r ==> final(self).sources_view() == old(self).sources_view().remove(f)
                    && exists|p: isize|
                    #[trigger] final(self).priority_is(
                        cpu_id,
                        final(self).uses_kernel(in_kernel_now),
                        p,
                    ) && final(table).entries() == old(table).entries().update(
                        old(self).index() as int,
                        ProcessInfo {
                            highest_prio: p,
                            ..old(table).entries()[old(self).index() as int]
                        },
                    )
                &&& !r ==> final(self).sources_view() == old(self).sources_view() && final(table).entries() == old(table).entries()
            }),
    {
        let ik = self.in_kernel(in_kernel_now);
        let mut i: usize = 0;
        while i < self.sources.len()
            invariant
                self == old(self),
                self.wf(),
                *table == *old(table),
                old(table).wf(),
                cpu_id < CPU_NUM,
                ik == self.uses_kernel(in_kernel_now),
                i <= self.sources@.len(),
                forall|k: int| 0 <= k < i ==> #[trigger] self.sources@[k].data_at(ik) != event_source,
            decreases self.sources@.len() - i,
        {
            if self.sources[i].data(ik) == event_source {
                proof {
                    lemma_first_with_data(self.sources@, ik, event_source);
                    let f = first_with_data(self.sources@, ik, event_source);
                    if f < i {
                        assert(self.sources@[f].data_at(ik) != event_source);
                    }
                    assert(f == i);
                }
                let ghost old_sources = self.sources@;
                let _ = self.sources.remove(i);
                proof {
                    assert forall|j: int| 0 <= j < self.sources@.len() implies match (
                    #[trigger] self.sources@[j]).kind {
                        SourceKind::Vtable(vt) => vtable_callable(
                            vt,
                            self.sources@[j].kernel_data,
                            self.sources@[j].user_data,
                        ),
                        _ => true,
                    } by {
                        if j < i {
                            assert(self.sources@[j] == old_sources[j]);
                        } else {
                            assert(self.sources@[j] == old_sources[j + 1]);
                        }
                    }
                }
                let p = self.get_and_update_all_prio(table, cpu_id, in_kernel_now);
                return true;
            }
            i += 1;
        }
        proof {
            lemma_first_with_data(self.sources@, ik, event_source);
            let f = first_with_data(self.sources@, ik, event_source);
            if f >= 0 {
                assert(self.sources@[f].data_at(ik) != event_source);
            }
        }
        false
    }

    /// Whether one of the sources is the scheduler's trap wait queue with its
    /// kernel-level data at `queue`.
    pub open spec fn serves_trap_queue(&self, queue: usize) -> bool {
        exists|i: int|
            0 <= i < self.sources_view().len() && #[trigger] self.sources_view()[i].is_trap_wait_queue()
                && self.sources_view()[i].data_at(true) == queue
    }

    /// Computes [`Scheduler::serves_trap_queue`].
    pub fn has_trap_queue(&self, queue: usize) -> (r: bool)
        requires
            self.wf(),
        ensures
            r == self.serves_trap_queue(queue),
    {
        let mut i: usize = 0;
        while i < self.sources.len()
            invariant
                i <= self.sources@.len(),
                forall|j: int|
                    0 <= j < i ==> !(#[trigger] self.sources@[j].is_trap_wait_queue()
                        && self.sources@[j].data_at(true) == queue),
            decreases self.sources@.len() - i,
        {
            let hit = match self.sources[i].kind {
                SourceKind::TrapWaitQueue => self.sources[i].kernel_data == queue,
                _ => false,
            };
            if hit {
                assert(self.sources_view()[i as int].is_trap_wait_queue());
                return true;
            }
            i += 1;
        }
        false
    }

    /// Whether the scheduler's own sources are not set up yet: no source and
    /// no trap handler.
    pub fn sources_unset(&self) -> (r: bool)
        requires
            self.wf(),
        ensures
            r == (self.sources_view().len() == 0 && self.traps().idle().len() == 0 && forall|c: int|
                0 <= c < CPU_NUM ==> #[trigger] self.traps().initial_handlers()[c] == None::<usize>),
    {
        self.sources.len() == 0 && self.trap_wait_queue.is_unused()
    }

    /// Sets up the scheduler's own sources: creates the trap handlers of its
    /// trap wait queue, registers the ready queue first (index 0 is always
    /// the ready queue) and then the trap wait queue (their data at the given
    /// kernel and user addresses), and records the highest priority for all
    /// CPUs.
    pub fn init_sources<H: TaskHost>(
        &mut self,
        table: &mut ProcessInfoTable,
        host: &H,
        twq_kernel: usize,
        twq_user: usize,
        rq_kernel: usize,
        rq_user: usize,
        cpu_id: usize,
        in_kernel_now: bool,
    )
        requires
            old(self).wf(),
            old(table).wf(),
            cpu_id < CPU_NUM,
            old(self).sources_view().len() == 0,
            old(self).traps().idle().len() == 0,
            forall|c: int|
                0 <= c < CPU_NUM ==> old(self).traps().initial_handlers()[c] == None::<usize>,
        ensures
            final(self).wf(),
            final(table).wf(),
            final(table).next() == old(table).next(),
            final(self).index() == old(self).index(),
            final(self).ready() == old(self).ready(),
            final(self).traps().traps() == old(self).traps().traps(),
            final(self).traps().idle().len() == CPU_NUM,
            final(self).sources_view().len() == 2,
            final(self).sources_view()[1].is_trap_wait_queue(),
            final(self).sources_view()[1].data_at(true) == twq_kernel,
            final(self).sources_view()[1].data_at(false) == twq_user,
            final(self).sources_view()[0].is_ready_queue(),
            final(self).sources_view()[0].data_at(true) == rq_kernel,
            final(self).sources_view()[0].data_at(false) == rq_user,
            exists|p: isize|
                #[trigger] final(self).priority_is(
                    cpu_id,
                    final(self).uses_kernel(in_kernel_now),
                    p,
                ) && final(table).entries() == old(table).entries().update(
                    old(self).index() as int,
                    ProcessInfo {
                        highest_prio: p,
                        ..old(table).entries()[old(self).index() as int]
                    },
                ),
    {
        assert(self.trap_wait_queue.idle() =~= Seq::<usize>::empty());
        self.trap_wait_queue.init(twq_kernel, host);
        self.sources.push(
            EventSourceEntry { kernel_data: rq_kernel, user_data: rq_user, kind: SourceKind::ReadyQueue },
        );
        self.sources.push(
            EventSourceEntry { kernel_data: twq_kernel, user_data: twq_user, kind: SourceKind::TrapWaitQueue },
        );
        let p = self.get_and_update_all_prio(table, cpu_id, in_kernel_now);
    }

    /// A ready-to-use scheduler for process `global_index` whose own queues
    /// are reached at the same addresses at both privilege levels.
    pub fn init<H: TaskHost>(
        global_index: usize,
        table: &mut ProcessInfoTable,
        host: &H,
        twq_addr: usize,
        rq_addr: usize,
        cpu_id: usize,
        in_kernel_now: bool,
    ) -> (r: Self)
        requires
            global_index < PROCESS_NUM,
            old(table).wf(),
            cpu_id < CPU_NUM,
        ensures
            r.wf(),
            final(table).wf(),
            final(table).next() == old(table).next(),
            r.index() == global_index,
            r.ready()@ == ReadyQueue::new_view(),
            r.traps().idle().len() == CPU_NUM,
            r.sources_view().len() == 2,
            r.sources_view()[1].is_trap_wait_queue(),
            r.sources_view()[1].data_at(true) == twq_addr,
            r.sources_view()[1].data_at(false) == twq_addr,
            r.sources_view()[0].is_ready_queue(),
            r.sources_view()[0].data_at(true) == rq_addr,
            r.sources_view()[0].data_at(false) == rq_addr,
            exists|p: isize|
                #[trigger] r.priority_is(cpu_id, r.uses_kernel(in_kernel_now), p)
                    && final(table).entries() == old(table).entries().update(
                    global_index as int,
                    ProcessInfo { highest_prio: p, ..old(table).entries()[global_index as int] },
                ),
    {
        let mut s = Self::init_except_sources(global_index);
        proof {
            assert forall|c: int| 0 <= c < CPU_NUM implies s.traps().initial_handlers()[c]
                == None::<usize> by {
                assert(s.trap_wait_queue.initial_handlers() == TrapWaitQueue::new_handlers_view());
            }
        }
        s.init_sources(table, host, twq_addr, twq_addr, rq_addr, rq_addr, cpu_id, in_kernel_now);
        s
    }
}

/// The first index whose source has its data at `ptr` at the given
/// privilege level, or -1.
pub open spec fn first_with_data<HP, TT>(
    sources: Seq<EventSourceEntry<HP, TT>>,
    ik: bool,
    ptr: usize,
) -> int where HP: Fn(usize, usize) -> isize, TT: Fn(usize, usize) -> (usize, isize)
    decreases sources.len(),
{
    if sources.len() == 0 {
        -1
    } else {
        let i = first_with_data(sources.drop_last(), ik, ptr);
        if i >= 0 {
            i
        } else if sources.last().data_at(ik) == ptr {
            sources.len() - 1
        } else {
            -1
        }
    }
}

/// `first_with_data` is the least index with its data at `ptr`.
pub proof fn lemma_first_with_data<HP, TT>(
    sources: Seq<EventSourceEntry<HP, TT>>,
    ik: bool,
    ptr: usize,
) where HP: Fn(usize, usize) -> isize, TT: Fn(usize, usize) -> (usize, isize)
    ensures
        -1 <= first_with_data(sources, ik, ptr) < sources.len(),
        first_with_data(sources, ik, ptr) >= 0 ==> sources[first_with_data(
            sources,
            ik,
            ptr,
        )].data_at(ik) == ptr,
        forall|k: int|
            0 <= k < sources.len() && (first_with_data(sources, ik, ptr) == -1 || k
                < first_with_data(sources, ik, ptr)) ==> #[trigger] sources[k].data_at(ik) != ptr,
    decreases sources.len(),
{
    if sources.len() > 0 {
        lemma_first_with_data(sources.drop_last(), ik, ptr);
        assert forall|k: int|
            0 <= k < sources.len() && (first_with_data(sources, ik, ptr) == -1 || k
                < first_with_data(sources, ik, ptr)) implies #[trigger] sources[k].data_at(ik)
            != ptr by {
            if k < sources.len() - 1 {
                assert(sources[k] == sources.drop_last()[k]);
            }
        }
        if first_with_data(sources.drop_last(), ik, ptr) >= 0 {
            assert(sources[first_with_data(sources, ik, ptr)] == sources.drop_last()[first_with_data(
                sources,
                ik,
                ptr,
            )]);
        }
    }
}

/// `pop_task` takes from the source of highest priority, and among several of
/// that priority from the first; with every priority `isize::MAX` it takes
/// from none.
pub proof fn law_first_source(ps: Seq<isize>)
    ensures
        first_source(ps) == -1 <==> forall|j: int| 0 <= j < ps.len() ==> #[trigger] ps[j]
            == isize::MAX,
        first_source(ps) >= 0 ==> {
            let f = first_source(ps);
            &&& f < ps.len()
            &&& forall|j: int| 0 <= j < ps.len() ==> ps[f] <= #[trigger] ps[j]
            &&& forall|j: int| 0 <= j < f ==> ps[f] < #[trigger] ps[j]
        },
{
    lemma_seq_min(ps);
    if seq_min(ps) < isize::MAX {
        lemma_first_index_of_min(ps);
        lemma_first_index_of(ps, seq_min(ps));
        let j = choose|j: int| 0 <= j < ps.len() && #[trigger] ps[j] == seq_min(ps);
        assert(ps[j] != isize::MAX);
    }
}

/// The priority `pop_task` records after taking from source `f` is the best
/// of what that source has left and what the other sources report.
pub proof fn law_priority_after_pop(ps: Seq<isize>, f: int, left: isize)
    requires
        0 <= f < ps.len(),
    ensures
        ({
            let sp = min_except(ps, f);
            let prio = if left < sp {
                left
            } else {
                sp
            };
            prio == seq_min(ps.update(f, left))
        }),
    decreases ps.len(),
{
    let q = ps.update(f, left);
    if f == ps.len() - 1 {
        assert(q.drop_last() =~= ps.drop_last());
        lemma_min_except_outside(ps.drop_last(), f);
    } else {
        law_priority_after_pop(ps.drop_last(), f, left);
        assert(q.drop_last() =~= ps.drop_last().update(f, left));
    }
}

/// A scheduler without sources reports `isize::MAX` as its highest priority.
pub proof fn law_no_sources_max<HP, TT>(s: Scheduler<HP, TT>, cpu: usize, ik: bool, p: isize) where
    HP: Fn(usize, usize) -> isize,
    TT: Fn(usize, usize) -> (usize, isize),

    requires
        s.sources_view().len() == 0,
        s.priority_is(cpu, ik, p),
    ensures
        p == isize::MAX,
{
    let ps = choose|ps: Seq<isize>| #[trigger] s.prios_ok(ps, cpu, ik) && p == seq_min(ps);
    assert(ps.len() == 0);
}

/// The highest priority of a scheduler is no worse than what any of its
/// sources reports.
pub proof fn law_priority_is_best<HP, TT>(s: Scheduler<HP, TT>, cpu: usize, ik: bool, p: isize) where
    HP: Fn(usize, usize) -> isize,
    TT: Fn(usize, usize) -> (usize, isize),

    requires
        s.priority_is(cpu, ik, p),
    ensures
        exists|ps: Seq<isize>|
            #[trigger] s.prios_ok(ps, cpu, ik) && forall|i: int| 0 <= i < ps.len() ==> p <= ps[i],
{
    let ps = choose|ps: Seq<isize>| #[trigger] s.prios_ok(ps, cpu, ik) && p == seq_min(ps);
    lemma_seq_min(ps);
}


/// Registering a source whose data address (at the privilege level in use)
/// no registered source has, and then unregistering that address, gives the
/// source list back as it was: `new` is `old` with one source inserted at
/// `pos`, as [`Scheduler::register_event_source`] states, and
/// [`Scheduler::unregister_event_source`] removes entry
/// `first_with_data(new, ik, ptr)`.
pub proof fn law_register_unregister_source<HP, TT>(
    old: Seq<EventSourceEntry<HP, TT>>,
    new: Seq<EventSourceEntry<HP, TT>>,
    pos: int,
    ik: bool,
    ptr: usize,
) where HP: Fn(usize, usize) -> isize, TT: Fn(usize, usize) -> (usize, isize)
    requires
        0 <= pos <= old.len(),
        new.len() == old.len() + 1,
        new.subrange(0, pos) == old.subrange(0, pos),
        new.subrange(pos + 1, new.len() as int) == old.subrange(pos, old.len() as int),
        new[pos].data_at(ik) == ptr,
        first_with_data(old, ik, ptr) == -1,
    ensures
        first_with_data(new, ik, ptr) == pos,
        new.remove(first_with_data(new, ik, ptr)) == old,
{
    lemma_first_with_data(old, ik, ptr);
    lemma_first_with_data(new, ik, ptr);
    let f = first_with_data(new, ik, ptr);
    assert forall|k: int| 0 <= k < pos implies #[trigger] new[k].data_at(ik) != ptr by {
        assert(new.subrange(0, pos)[k] == old.subrange(0, pos)[k]);
        assert(new.subrange(0, pos)[k] == new[k]);
        assert(old.subrange(0, pos)[k] == old[k]);
        assert(old[k].data_at(ik) != ptr);
    }
    if f > pos {
        assert(new.subrange(pos + 1, new.len() as int)[f - pos - 1] == old.subrange(pos, old.len() as int)[f - pos - 1]);
        assert(old[f - 1].data_at(ik) != ptr);
    }
    assert(f == pos);
    assert forall|k: int| 0 <= k < old.len() implies #[trigger] new.remove(pos)[k] == old[k] by {
        if k < pos {
            assert(new.subrange(0, pos)[k] == old.subrange(0, pos)[k]);
        } else {
            assert(new.subrange(pos + 1, new.len() as int)[k - pos] == old.subrange(pos, old.len() as int)[k - pos]);
        }
    }
    assert(new.remove(pos) =~= old);
}

} // verus!
