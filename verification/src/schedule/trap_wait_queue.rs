//! The trap wait queue: traps received by each CPU, waiting for a trap
//! handler task.
//!
//! Taking a task from this queue hands out an idle trap handler task, which
//! then drains the traps of its CPU.
use vstd::prelude::*;
use crate::collections::{TaskFifo, TrapFifo};
use crate::interface::{
    TaskHost, TaskState, CPU_NUM, HIGHEST_PRIORITY, LOWEST_PRIORITY, TRAP_WAIT_QUEUE_SIZE,
};

verus! {

/// Priority reported while no trap is waiting.
pub const INACTIVE_PRIORITY: isize = 16;

/// Priority reported while a trap is waiting.
pub const ACTIVE_PRIORITY: isize = 0;

/// The priority a CPU's trap queue `traps` reports: `ACTIVE_PRIORITY` while
/// a trap waits, else `INACTIVE_PRIORITY`.
pub open spec fn trap_priority(traps: Seq<(usize, Option<usize>)>) -> isize {
    if traps.len() == 0 {
        INACTIVE_PRIORITY
    } else {
        ACTIVE_PRIORITY
    }
}

/// What an idle trap handler, found in a given state, is good for.
#[derive(PartialEq, Eq, Structural, Clone, Copy, Debug)]
pub enum IdleStep {
    /// It was blocked and is now ready: run it.
    Run,
    /// It is still saving its context and will be made ready by its CPU:
    /// run nothing now.
    WakeInProgress,
    /// It has exited: drop it and look at the next one.
    Skip,
    /// No idle handler can be in this state.
    Invalid,
}

/// The outcome of looking for an idle trap handler.
#[derive(PartialEq, Eq, Structural, Clone, Copy, Debug)]
pub enum IdleHandler {
    /// This handler can run.
    Runnable(usize),
    /// A handler is being woken by another CPU.
    WakeInProgress,
    /// No idle handler is left.
    Empty,
    /// An idle handler was found in this state, which no idle handler can be in.
    Invalid(TaskState),
}

/// What to do with an idle handler that was in `state` before it was woken:
/// run it when it was blocked; when it was still blocking, another CPU makes
/// it ready; skip it when it exited; no idle handler can be in another state.
pub open spec fn step_for(state: TaskState) -> IdleStep {
    match state {
        TaskState::Blocked => IdleStep::Run,
        TaskState::Blocking => IdleStep::WakeInProgress,
        TaskState::Exited => IdleStep::Skip,
        _ => IdleStep::Invalid,
    }
}

/// Computes [`step_for`].
pub fn idle_step(state: TaskState) -> (r: IdleStep)
    ensures
        r == step_for(state),
{
    match state {
        TaskState::Blocked => IdleStep::Run,
        TaskState::Blocking => IdleStep::WakeInProgress,
        TaskState::Exited => IdleStep::Skip,
        _ => IdleStep::Invalid,
    }
}

/// The states a trap handler is moved to when it is woken, for each state it
/// may be in (ready, running, blocked, exited, blocking): a blocked or
/// blocking handler becomes ready, any other keeps its state.
pub open spec fn wake_mapping() -> (TaskState, TaskState, TaskState, TaskState, TaskState) {
    (TaskState::Ready, TaskState::Running, TaskState::Ready, TaskState::Exited, TaskState::Ready)
}

/// Computes [`wake_mapping`].
pub fn handler_wake_mapping() -> (r: (TaskState, TaskState, TaskState, TaskState, TaskState))
    ensures
        r == wake_mapping(),
{
    (TaskState::Ready, TaskState::Running, TaskState::Ready, TaskState::Exited, TaskState::Ready)
}

/// The states a task whose trap has been handled is moved to, in one step,
/// for each state it may be in (ready, running, blocked, exited, blocking):
/// a blocked task becomes ready, any other keeps its state.
pub open spec fn handled_mapping() -> (TaskState, TaskState, TaskState, TaskState, TaskState) {
    (TaskState::Ready, TaskState::Running, TaskState::Ready, TaskState::Exited, TaskState::Blocking)
}

/// Computes [`handled_mapping`]: the states to hand the host's
/// `match_set_state` for a task whose trap has been handled.
pub fn trapped_task_mapping() -> (r: (TaskState, TaskState, TaskState, TaskState, TaskState))
    ensures
        r == handled_mapping(),
{
    (TaskState::Ready, TaskState::Running, TaskState::Ready, TaskState::Exited, TaskState::Blocking)
}

/// Wakes the trap handler `handler` through the host with
/// [`wake_mapping`] and returns the state it was in.
fn wake_handler<H: TaskHost>(handler: usize, host: &H) -> (r: TaskState) {
    let (ready, running, blocked, exited, blocking) = handler_wake_mapping();
    host.match_set_state(handler, ready, running, blocked, exited, blocking)
}

/// Whether a freshly created handler found in `state` can run: it was
/// ready or blocked.
pub open spec fn new_handler_runs(state: TaskState) -> bool {
    state == TaskState::Ready || state == TaskState::Blocked
}

/// Computes [`new_handler_runs`].
pub fn new_handler_ok(state: TaskState) -> (r: bool)
    ensures
        r == new_handler_runs(state),
{
    match state {
        TaskState::Ready | TaskState::Blocked => true,
        _ => false,
    }
}

/// What [`create_new_handler`] returns for a new handler that was in state
/// `state` when it was woken: the handler when it can run, else the state.
pub open spec fn new_handler_result(handler: usize, state: TaskState) -> Result<usize, TaskState> {
    if new_handler_runs(state) {
        Ok(handler)
    } else {
        Err(state)
    }
}

/// What becomes of a task once its trap has been handled, given the state it
/// was in: `Ok(true)` to put it back on its ready queue (it was blocked),
/// `Ok(false)` to leave it (it exited while the trap was handled); any other
/// state is returned as an error.
pub fn trapped_task_requeue(state: TaskState) -> (r: Result<bool, TaskState>)
    ensures
        r == (match state {
            TaskState::Blocked => Ok::<bool, TaskState>(true),
            TaskState::Exited => Ok::<bool, TaskState>(false),
            _ => Err::<bool, TaskState>(state),
        }),
{
    match state {
        TaskState::Blocked => Ok(true),
        TaskState::Exited => Ok(false),
        _ => Err(state),
    }
}

/// Wakes a freshly created trap handler with [`wake_mapping`]; the result,
/// for the state the host reports it was in, is [`new_handler_result`].
pub fn create_new_handler<H: TaskHost>(handler: usize, host: &H) -> (r: Result<usize, TaskState>)
    ensures
        exists|state: TaskState| r == #[trigger] new_handler_result(handler, state),
{
    let state = wake_handler(handler, host);
    let r = if new_handler_ok(state) {
        Ok(handler)
    } else {
        Err(state)
    };
    assert(r == new_handler_result(handler, state));
    r
}

/// `states` are the states the host reported, in order, for the idle
/// handlers taken off the front of `idle` while looking for one: every one
/// but the last exited, and the look ends at the first that did not exit or
/// when the queue is used up.
pub open spec fn idle_scan(idle: Seq<usize>, states: Seq<TaskState>) -> bool {
    &&& states.len() <= idle.len()
    &&& forall|j: int| 0 <= j < states.len() - 1 ==> #[trigger] states[j] == TaskState::Exited
    &&& (states.len() == 0 || states.last() == TaskState::Exited) ==> states.len() == idle.len()
}

/// What looking for an idle handler finds, the host having reported
/// `states` (see [`idle_scan`]): the last handler taken off when it was
/// blocked; a handler being woken elsewhere when it was blocking; its state
/// when no idle handler can be in it; nothing when every handler had exited.
pub open spec fn idle_found(idle: Seq<usize>, states: Seq<TaskState>) -> IdleHandler {
    if states.len() == 0 {
        IdleHandler::Empty
    } else {
        let last = states.last();
        match step_for(last) {
            IdleStep::Run => IdleHandler::Runnable(idle[states.len() - 1]),
            IdleStep::WakeInProgress => IdleHandler::WakeInProgress,
            IdleStep::Skip => IdleHandler::Empty,
            IdleStep::Invalid => IdleHandler::Invalid(last),
        }
    }
}

/// Takes idle handlers off the front of `queue` until one can run, one is
/// being woken, or the queue has been gone through once. Each handler taken
/// off is woken with [`wake_mapping`] and judged by [`step_for`] on the
/// state the host reports it was in; see [`idle_scan`] and [`idle_found`].
pub fn get_idle_handler<H: TaskHost>(queue: &mut TaskFifo, host: &H) -> (r: IdleHandler)
    ensures
        exists|states: Seq<TaskState>|
            #[trigger] idle_scan(old(queue)@, states) && final(queue)@ == old(queue)@.skip(
                states.len() as int,
            ) && r == idle_found(old(queue)@, states),
{
    let len = queue.len();
    let mut i: usize = 0;
    let ghost mut states: Seq<TaskState> = Seq::empty();
    while i < len
        invariant
            i <= len,
            len == old(queue)@.len(),
            queue@ == old(queue)@.skip(i as int),
            states.len() == i,
            forall|j: int| 0 <= j < i ==> #[trigger] states[j] == TaskState::Exited,
        decreases len - i,
    {
        let popped = queue.pop_front();
        let handler = match popped {
            Some(h) => h,
            None => 0,
        };
        proof {
            assert(old(queue)@.skip(i as int)[0] == old(queue)@[i as int]);
            assert(old(queue)@.skip(i as int).drop_first() =~= old(queue)@.skip(i + 1));
        }
        i += 1;
        let state = wake_handler(handler, host);
        proof {
            states = states.push(state);
        }
        match idle_step(state) {
            IdleStep::Run => {
                assert(idle_scan(old(queue)@, states));
                return IdleHandler::Runnable(handler);
            },
            IdleStep::WakeInProgress => {
                assert(idle_scan(old(queue)@, states));
                return IdleHandler::WakeInProgress;
            },
            IdleStep::Skip => {},
            IdleStep::Invalid => {
                assert(idle_scan(old(queue)@, states));
                return IdleHandler::Invalid(state);
            },
        }
    }
    assert(idle_scan(old(queue)@, states));
    IdleHandler::Empty
}

/// How [`TrapWaitQueue::take_task`] answers once idle handlers have been
/// looked for, the host having reported `states` for them (see
/// [`idle_found`]), `fresh` for a new handler and `fresh_state` for the
/// state that new handler was in: an idle handler that can run, or else a
/// new handler that can run, is handed out with `ACTIVE_PRIORITY`; while a
/// handler is being woken elsewhere, the null handle with `ACTIVE_PRIORITY`;
/// a handler found in a state it cannot be in is an error.
pub open spec fn handout(
    idle: Seq<usize>,
    states: Seq<TaskState>,
    fresh: usize,
    fresh_state: TaskState,
) -> Result<(usize, isize), TaskState> {
    match idle_found(idle, states) {
        IdleHandler::Runnable(h) => Ok((h, ACTIVE_PRIORITY)),
        IdleHandler::WakeInProgress => Ok((0usize, ACTIVE_PRIORITY)),
        IdleHandler::Invalid(s) => Err(s),
        IdleHandler::Empty => match new_handler_result(fresh, fresh_state) {
            Ok(h) => Ok((h, ACTIVE_PRIORITY)),
            Err(s) => Err(s),
        },
    }
}

/// A trap handler was handed out with the host answering `states`, `fresh`
/// and `fresh_state` (see [`handout`]): the idle handlers looked at are off
/// the idle queue.
pub open spec fn handed_out(
    old: TrapWaitQueue,
    new: TrapWaitQueue,
    states: Seq<TaskState>,
    fresh: usize,
    fresh_state: TaskState,
    r: Result<(usize, isize), TaskState>,
) -> bool {
    &&& idle_scan(old.idle(), states)
    &&& new.idle() == old.idle().skip(states.len() as int)
    &&& r == handout(old.idle(), states, fresh, fresh_state)
}

/// Handing out a trap handler for CPU `cpu_id` turns `old` into `new` and
/// returns `r`: the traps stay queued; with none waiting on that CPU the
/// result is the null handle with `INACTIVE_PRIORITY` and nothing changes;
/// otherwise a handler is handed out as [`handed_out`] says, for some
/// answers of the host.
pub open spec fn trap_take(
    old: TrapWaitQueue,
    new: TrapWaitQueue,
    cpu_id: usize,
    r: Result<(usize, isize), TaskState>,
) -> bool {
    &&& new.wf()
    &&& new.traps() == old.traps()
    &&& new.initial_handlers() == old.initial_handlers()
    &&& old.traps()[cpu_id as int].len() == 0 ==> r == Ok::<(usize, isize), TaskState>(
        (0usize, INACTIVE_PRIORITY),
    ) && new.idle() == old.idle()
    &&& old.traps()[cpu_id as int].len() > 0 ==> exists|
        states: Seq<TaskState>,
        fresh: usize,
        fresh_state: TaskState,
    | #[trigger] handed_out(old, new, states, fresh, fresh_state, r)
}

/// Handing out a trap handler takes at least one idle handler when there is
/// one; the first idle handler that has not exited is handed out when it was
/// blocked; a new handler is made only when every idle handler had exited;
/// any handler handed out comes with `ACTIVE_PRIORITY`; and an error names a
/// state in which no idle handler, or no new handler, can be found.
pub proof fn law_handout(idle: Seq<usize>, states: Seq<TaskState>, fresh: usize, fresh_state: TaskState)
    requires
        idle_scan(idle, states),
    ensures
        idle.len() > 0 ==> states.len() > 0,
        states.len() > 0 && states.last() == TaskState::Blocked ==> handout(idle, states, fresh, fresh_state)
            == Ok::<(usize, isize), TaskState>((idle[states.len() - 1], ACTIVE_PRIORITY)),
        (states.len() == 0 || states.last() == TaskState::Exited) ==> states.len() == idle.len()
            && handout(idle, states, fresh, fresh_state) == (if new_handler_runs(fresh_state) {
            Ok::<(usize, isize), TaskState>((fresh, ACTIVE_PRIORITY))
        } else {
            Err::<(usize, isize), TaskState>(fresh_state)
        }),
        handout(idle, states, fresh, fresh_state) matches Ok(t) ==> t.1 == ACTIVE_PRIORITY,
        handout(idle, states, fresh, fresh_state) matches Err(s) ==> (states.len() > 0 && s == states.last()
            && step_for(s) == IdleStep::Invalid) || (idle_found(idle, states) == IdleHandler::Empty
            && s == fresh_state && !new_handler_runs(s)),
{
}

/// Traps waiting on each CPU, the shared queue of idle trap handlers, and
/// the handlers created at start-up.
pub struct TrapWaitQueue {
    queues: Vec<TrapFifo>,
    idle_handlers: TaskFifo,
    handlers: Vec<Option<usize>>,
}

impl TrapWaitQueue {
    /// One trap queue and one start-up handler slot per CPU.
    pub closed spec fn wf(&self) -> bool {
        &&& self.queues@.len() == CPU_NUM
        &&& self.handlers@.len() == CPU_NUM
    }

    /// A well-formed trap wait queue has one trap queue and one start-up
    /// handler slot per CPU.
    pub proof fn lemma_wf(&self)
        requires
            self.wf(),
        ensures
            self.traps().len() == CPU_NUM,
            self.initial_handlers().len() == CPU_NUM,
    {
    }

    /// The traps waiting on each CPU, front first.
    pub closed spec fn traps(&self) -> Seq<Seq<(usize, Option<usize>)>> {
        Seq::new(self.queues@.len(), |c: int| self.queues@[c]@)
    }

    /// The idle trap handlers, front first.
    pub closed spec fn idle(&self) -> Seq<usize> {
        self.idle_handlers@
    }

    /// The handlers created at start-up, per CPU.
    pub closed spec fn initial_handlers(&self) -> Seq<Option<usize>> {
        self.handlers@
    }

    /// The start-up handler slots before [`TrapWaitQueue::init`].
    pub open spec fn new_handlers_view() -> Seq<Option<usize>> {
        Seq::new(CPU_NUM as nat, |c: int| None::<usize>)
    }

    /// An empty queue; [`TrapWaitQueue::init`] must follow before use.
    pub fn new() -> (r: Self)
        ensures
            r.wf(),
            r.traps() == Seq::new(CPU_NUM as nat, |c: int| Seq::<(usize, Option<usize>)>::empty()),
            r.idle() == Seq::<usize>::empty(),
            r.initial_handlers() == Self::new_handlers_view(),
    {
        let mut queues: Vec<TrapFifo> = Vec::new();
        let mut handlers: Vec<Option<usize>> = Vec::new();
        let mut c: usize = 0;
        while c < CPU_NUM
            invariant
                c <= CPU_NUM,
                queues@.len() == c,
                handlers@.len() == c,
                forall|k: int| 0 <= k < c ==> queues@[k]@.len() == 0,
                forall|k: int| 0 <= k < c ==> handlers@[k] == None::<usize>,
            decreases CPU_NUM - c,
        {
            queues.push(TrapFifo::new());
            handlers.push(None);
            c += 1;
        }
        let r = TrapWaitQueue { queues, idle_handlers: TaskFifo::new(), handlers };
        proof {
            assert forall|k: int| 0 <= k < CPU_NUM implies r.traps()[k] == Seq::<
                (usize, Option<usize>),
            >::empty() by {
                assert(r.queues@[k]@ =~= Seq::<(usize, Option<usize>)>::empty());
            }
            assert(r.traps() =~= Seq::new(
                CPU_NUM as nat,
                |c: int| Seq::<(usize, Option<usize>)>::empty(),
            ));
            assert(r.initial_handlers() =~= Seq::new(CPU_NUM as nat, |c: int| None::<usize>));
        }
        r
    }

    /// Creates one trap handler per CPU for the queue at address `queue` and
    /// makes them all idle.
    pub fn init<H: TaskHost>(&mut self, queue: usize, host: &H)
        requires
            old(self).wf(),
            old(self).idle() == Seq::<usize>::empty(),
            forall|c: int| 0 <= c < CPU_NUM ==> old(self).initial_handlers()[c] == None::<usize>,
        ensures
            final(self).wf(),
            final(self).traps() == old(self).traps(),
            final(self).idle().len() == CPU_NUM,
            forall|c: int|
                0 <= c < CPU_NUM ==> final(self).initial_handlers()[c] == Some(
                    final(self).idle()[c],
                ),
            forall|c: int| 0 <= c < CPU_NUM ==> host.handler_queue(#[trigger] final(self).idle()[c]) == queue,
    {
        let ghost traps0 = self.traps();
        let mut c: usize = 0;
        while c < CPU_NUM
            invariant
                self.wf(),
                c <= CPU_NUM,
                self.traps() == traps0,
                self.idle_handlers@.len() == c,
                forall|k: int| 0 <= k < c ==> self.handlers@[k] == Some(self.idle_handlers@[k]),
                forall|k: int| 0 <= k < c ==> host.handler_queue(#[trigger] self.idle_handlers@[k]) == queue,
            decreases CPU_NUM - c,
        {
            let handler = host.new_handler(queue);
            self.handlers.set(c, Some(handler));
            let _ = self.idle_handlers.push_back(handler);
            proof {
                assert(self.idle_handlers@.len() == c + 1);
            }
            c += 1;
        }
    }

    /// Whether no trap handler was created yet: no idle handler and no
    /// start-up handler.
    pub fn is_unused(&self) -> (r: bool)
        requires
            self.wf(),
        ensures
            r == (self.idle().len() == 0 && forall|c: int|
                0 <= c < CPU_NUM ==> #[trigger] self.initial_handlers()[c] == None::<usize>),
    {
        if !self.idle_handlers.is_empty() {
            return false;
        }
        let mut c: usize = 0;
        while c < CPU_NUM
            invariant
                self.wf(),
                c <= CPU_NUM,
                forall|k: int| 0 <= k < c ==> #[trigger] self.handlers@[k] == None::<usize>,
            decreases CPU_NUM - c,
        {
            if self.handlers[c].is_some() {
                return false;
            }
            c += 1;
        }
        true
    }

    /// Records a trap of CPU `cpuid`, with the task it stopped if any.
    ///
    /// Hands the record back when that CPU's queue is full.
    pub fn push_trap(&mut self, trap_info: usize, task: Option<usize>, cpuid: usize) -> (r: Result<
        (),
        (usize, Option<usize>),
    >)
        requires
            old(self).wf(),
            cpuid < CPU_NUM,
        ensures
            final(self).wf(),
            final(self).idle() == old(self).idle(),
            final(self).initial_handlers() == old(self).initial_handlers(),
            if old(self).traps()[cpuid as int].len() < crate::interface::TRAP_WAIT_QUEUE_SIZE {
                r == Ok::<(), (usize, Option<usize>)>(()) && final(self).traps()
                    == old(self).traps().update(
                    cpuid as int,
                    old(self).traps()[cpuid as int].push((trap_info, task)),
                )
            } else {
                r == Err::<(), (usize, Option<usize>)>((trap_info, task)) && final(self).traps()
                    == old(self).traps()
            },
    {
        let r = self.queues[cpuid].push_back((trap_info, task));
        proof {
            assert(self.traps() =~= if old(self).traps()[cpuid as int].len()
                < crate::interface::TRAP_WAIT_QUEUE_SIZE {
                old(self).traps().update(
                    cpuid as int,
                    old(self).traps()[cpuid as int].push((trap_info, task)),
                )
            } else {
                old(self).traps()
            });
        }
        r
    }

    /// The first trap waiting on CPU `cpuid`, if any.
    pub fn first_trap(&self, cpuid: usize) -> (r: Option<(usize, Option<usize>)>)
        requires
            self.wf(),
            cpuid < CPU_NUM,
        ensures
            r == (if self.traps()[cpuid as int].len() == 0 {
                None::<(usize, Option<usize>)>
            } else {
                Some(self.traps()[cpuid as int][0])
            }),
    {
        self.queues[cpuid].front()
    }

    /// Takes the first trap waiting on CPU `cpuid`.
    pub fn pop_trap(&mut self, cpuid: usize) -> (r: Option<(usize, Option<usize>)>)
        requires
            old(self).wf(),
            cpuid < CPU_NUM,
        ensures
            final(self).wf(),
            final(self).idle() == old(self).idle(),
            final(self).initial_handlers() == old(self).initial_handlers(),
            if old(self).traps()[cpuid as int].len() == 0 {
                r == None::<(usize, Option<usize>)> && final(self).traps() == old(self).traps()
            } else {
                r == Some(old(self).traps()[cpuid as int][0]) && final(self).traps()
                    == old(self).traps().update(
                    cpuid as int,
                    old(self).traps()[cpuid as int].drop_first(),
                )
            },
    {
        let r = self.queues[cpuid].pop_front();
        proof {
            assert(self.traps() =~= if old(self).traps()[cpuid as int].len() == 0 {
                old(self).traps()
            } else {
                old(self).traps().update(
                    cpuid as int,
                    old(self).traps()[cpuid as int].drop_first(),
                )
            });
        }
        r
    }

    /// Whether a trap handler of CPU `cpuid` that finds no trap can park:
    /// a trap waits, or the idle queue has room.
    pub fn can_park(&self, cpuid: usize) -> (r: bool)
        requires
            self.wf(),
            cpuid < CPU_NUM,
        ensures
            r == (self.traps()[cpuid as int].len() == 0 ==> self.idle().len() < TRAP_WAIT_QUEUE_SIZE),
    {
        !self.queues[cpuid].is_empty() || self.idle_handlers.len() < TRAP_WAIT_QUEUE_SIZE
    }

    /// Makes `handler` idle again: it goes to the back of the idle queue,
    /// which must have room, and the answer is the process number (0) and
    /// state (`Blocking`, until its context is saved) to give it.
    pub fn reschedule_handler(&mut self, handler: usize) -> (r: (usize, TaskState))
        requires
            old(self).wf(),
            old(self).idle().len() < TRAP_WAIT_QUEUE_SIZE,
        ensures
            final(self).wf(),
            final(self).traps() == old(self).traps(),
            final(self).initial_handlers() == old(self).initial_handlers(),
            final(self).idle() == old(self).idle().push(handler),
            r == (0usize, TaskState::Blocking),
    {
        let _ = self.idle_handlers.push_back(handler);
        (0, TaskState::Blocking)
    }

    /// `ACTIVE_PRIORITY` while a trap waits on CPU `cpu_id`, else
    /// `INACTIVE_PRIORITY`.
    pub fn hightest_priority(&self, cpu_id: usize) -> (r: isize)
        requires
            self.wf(),
            cpu_id < CPU_NUM,
        ensures
            r == trap_priority(self.traps()[cpu_id as int]),
    {
        if self.queues[cpu_id].is_empty() {
            INACTIVE_PRIORITY
        } else {
            ACTIVE_PRIORITY
        }
    }

    /// Hands out a trap handler for the traps of CPU `cpu_id`.
    ///
    /// With no trap waiting: the null handle and `INACTIVE_PRIORITY`.
    /// Otherwise an idle handler is woken (see [`get_idle_handler`]), or a new
    /// one is created for the queue at address `queue` when none is idle; it
    /// is returned with `ACTIVE_PRIORITY` (the caller gives it the process
    /// number of the trapped task, see [`TrapWaitQueue::first_trap`]). While a handler is being woken by
    /// another CPU: the null handle and `ACTIVE_PRIORITY`. An idle or new
    /// handler found in a state it cannot be in is returned as an error.
    /// The traps stay queued for the handler.
    pub fn take_task<H: TaskHost>(&mut self, cpu_id: usize, queue: usize, host: &H) -> (r: Result<
        (usize, isize),
        TaskState,
    >)
        requires
            old(self).wf(),
            cpu_id < CPU_NUM,
        ensures
            final(self).wf(),
            trap_take(*old(self), *final(self), cpu_id, r),
            forall|h: usize, p: isize|
                r == Ok::<(usize, isize), TaskState>((h, p)) && h != 0 && !old(self).idle().contains(h)
                    ==> host.handler_queue(h) == queue,
    {
        if self.queues[cpu_id].is_empty() {
            return Ok((0, INACTIVE_PRIORITY));
        }
        let ghost idle0 = self.idle_handlers@;
        let ghost mut fresh_g: usize = 0;
        let ghost mut fs_g: TaskState = TaskState::Ready;
        let found = get_idle_handler(&mut self.idle_handlers, host);
        let ghost states = choose|states: Seq<TaskState>|
            #[trigger] idle_scan(idle0, states) && self.idle_handlers@ == idle0.skip(
                states.len() as int,
            ) && found == idle_found(idle0, states);
        proof {
            assert(idle0 == old(self).idle());
            assert(self.idle() == old(self).idle().skip(states.len() as int));
        }
        let handler = match found {
            IdleHandler::Runnable(h) => h,
            IdleHandler::WakeInProgress => {
                let r = Ok((0, ACTIVE_PRIORITY));
                assert(handed_out(*old(self), *self, states, 0, TaskState::Ready, r));
                return r;
            },
            IdleHandler::Empty => {
                let fresh = host.new_handler(queue);
                let made = create_new_handler(fresh, host);
                let ghost fs = choose|fs: TaskState| made == #[trigger] new_handler_result(fresh, fs);
                match made {
                    Ok(h) => {
                        proof {
                            fresh_g = fresh;
                            fs_g = fs;
                        }
                        assert(handout(idle0, states, fresh, fs) == Ok::<(usize, isize), TaskState>((h, ACTIVE_PRIORITY)));
                        h
                    },
                    Err(state) => {
                        let r = Err(state);
                        assert(handed_out(*old(self), *self, states, fresh, fs, r));
                        return r;
                    },
                }
            },
            IdleHandler::Invalid(s) => {
                let r = Err(s);
                assert(handed_out(*old(self), *self, states, 0, TaskState::Ready, r));
                return r;
            },
        };
        let r = Ok((handler, ACTIVE_PRIORITY));
        proof {
            if found is Empty {
                assert(handed_out(*old(self), *self, states, fresh_g, fs_g, r));
            } else {
                assert(handed_out(*old(self), *self, states, 0, TaskState::Ready, r));
            }
        }
        r
    }
}

/// Recording a trap leaves the CPU's queue non-empty, so it reports the
/// highest priority, `ACTIVE_PRIORITY`; and traps are taken in the order
/// they came.
pub proof fn law_trap_pending(traps: Seq<(usize, Option<usize>)>, item: (usize, Option<usize>))
    ensures
        traps.push(item).len() > 0,
        trap_priority(traps.push(item)) == ACTIVE_PRIORITY,
        ACTIVE_PRIORITY == HIGHEST_PRIORITY,
        traps.len() > 0 ==> traps.push(item)[0] == traps[0] && traps.push(item).drop_first()
            == traps.drop_first().push(item),
        traps.len() == 0 ==> traps.push(item)[0] == item,
{
    if traps.len() > 0 {
        assert(traps.push(item).drop_first() =~= traps.drop_first().push(item));
    }
}

} // verus!
