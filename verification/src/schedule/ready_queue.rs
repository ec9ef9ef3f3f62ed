//! The ready queue: one FIFO per priority level plus a priority bitmap.
//!
//! Priority `p` lives in FIFO `p - HIGHEST_PRIORITY` and in bit
//! `63 - (p - HIGHEST_PRIORITY)` of the bitmap, so the highest priority sits
//! in the most significant bit. The bit just below the last level is always
//! set and every lower bit is always clear, which makes an empty queue report
//! `LOWEST_PRIORITY + 1`.
use vstd::prelude::*;
use crate::collections::TaskFifo;
use crate::interface::{HIGHEST_PRIORITY, LOWEST_PRIORITY, READY_QUEUE_SIZE};
use crate::schedule::event_source::EventSource;

verus! {

/// Number of priority levels.
pub const PRIORITY_LEVELS: usize = 16;

/// Whether bit `i` of `b` is set.
pub open spec fn bit_set(b: u64, i: u64) -> bool {
    i < 64 && b & (1u64 << i) != 0
}

/// Setting bit `k` changes bit `k` only.
pub proof fn lemma_bit_or(b: u64, k: u64, j: u64)
    requires
        k < 64,
        j < 64,
    ensures
        bit_set(b | (1u64 << k), j) == (j == k || bit_set(b, j)),
{
    assert((b | (1u64 << k)) & (1u64 << j) != 0 <==> (j == k || b & (1u64 << j) != 0))
        by (bit_vector)
        requires
            k < 64,
            j < 64,
    ;
}

/// Clearing bit `k` changes bit `k` only.
pub proof fn lemma_bit_clear(b: u64, k: u64, j: u64)
    requires
        k < 64,
        j < 64,
    ensures
        bit_set(b & !(1u64 << k), j) == (j != k && bit_set(b, j)),
{
    assert((b & !(1u64 << k)) & (1u64 << j) != 0 <==> (j != k && b & (1u64 << j) != 0))
        by (bit_vector)
        requires
            k < 64,
            j < 64,
    ;
}

/// Index of the highest set bit of `bitmap`, or `None` when no bit is set.
pub fn highest_one(bitmap: u64) -> (r: Option<usize>)
    ensures
        match r {
            Some(i) => i < 64 && bit_set(bitmap, i as u64) && forall|j: u64|
                i < j < 64 ==> !bit_set(bitmap, j),
            None => forall|j: u64| j < 64 ==> !bit_set(bitmap, j),
        },
{
    let mut index: u64 = 63;
    loop
        invariant
            index < 64,
            forall|j: u64| index < j < 64 ==> !bit_set(bitmap, j),
        decreases index,
    {
        if bitmap & (1u64 << index) != 0 {
            return Some(index as usize);
        }
        if index == 0 {
            return None;
        }
        index -= 1;
    }
}

/// The first level at or after `l` whose FIFO is not empty, or `qs.len()`.
pub open spec fn first_ready_from(qs: Seq<Seq<usize>>, l: int) -> int
    decreases qs.len() - l,
{
    if l >= qs.len() || l < 0 {
        qs.len() as int
    } else if qs[l].len() > 0 {
        l
    } else {
        first_ready_from(qs, l + 1)
    }
}

/// The first non-empty level of `qs`, or `qs.len()` when all are empty.
pub open spec fn top_level(qs: Seq<Seq<usize>>) -> int {
    first_ready_from(qs, 0)
}

/// `first_ready_from` is the least non-empty level at or after `l`.
pub proof fn lemma_first_ready_from(qs: Seq<Seq<usize>>, l: int)
    requires
        0 <= l <= qs.len(),
    ensures
        l <= first_ready_from(qs, l) <= qs.len(),
        first_ready_from(qs, l) < qs.len() ==> qs[first_ready_from(qs, l)].len() > 0,
        forall|k: int| l <= k < first_ready_from(qs, l) ==> qs[k].len() == 0,
    decreases qs.len() - l,
{
    if l < qs.len() && qs[l].len() == 0 {
        lemma_first_ready_from(qs, l + 1);
    }
}

/// The least non-empty level is determined by which levels are empty.
pub proof fn lemma_top_level_unique(qs: Seq<Seq<usize>>, t: int)
    requires
        0 <= t <= qs.len(),
        t < qs.len() ==> qs[t].len() > 0,
        forall|k: int| 0 <= k < t ==> qs[k].len() == 0,
    ensures
        top_level(qs) == t,
{
    lemma_first_ready_from(qs, 0);
    let f = top_level(qs);
    if f < t {
        assert(qs[f].len() == 0);
    } else if t < f {
        assert(qs[t].len() == 0);
    }
}

/// The priority of the highest-priority ready task in `qs`, or
/// `LOWEST_PRIORITY + 1` when there is none.
pub open spec fn top_priority(qs: Seq<Seq<usize>>) -> int {
    HIGHEST_PRIORITY + top_level(qs)
}

/// Taking a task turns the levels `old` into `new` and returns `r`: the front
/// task of the highest non-empty level and the priority of the highest-priority
/// task left; or, with every level empty, the null handle and
/// `LOWEST_PRIORITY + 1`.
pub open spec fn ready_take(old: Seq<Seq<usize>>, new: Seq<Seq<usize>>, r: (usize, isize)) -> bool {
    let t = top_level(old);
    if t == old.len() {
        r.0 == 0 && r.1 == LOWEST_PRIORITY + 1 && new == old
    } else {
        &&& r.0 == old[t][0]
        &&& new == old.update(t, old[t].drop_first())
        &&& r.1 == top_priority(new)
    }
}

/// The ready queue.
pub struct ReadyQueue {
    /// FIFO of level `priority - HIGHEST_PRIORITY` at that index.
    queues: Vec<TaskFifo>,
    /// Bit `63 - level` is set iff that level holds a task; bit
    /// `63 - PRIORITY_LEVELS` is always set and every lower bit is clear.
    prio_bitmap: u64,
}

impl View for ReadyQueue {
    type V = Seq<Seq<usize>>;

    /// The tasks of each level, front first.
    closed spec fn view(&self) -> Seq<Seq<usize>> {
        Seq::new(self.queues@.len(), |l: int| self.queues@[l]@)
    }
}

impl ReadyQueue {
    /// Well-formedness: one FIFO per level, the bitmap mirrors which levels
    /// are non-empty, and no queued handle is null.
    pub closed spec fn wf(&self) -> bool {
        &&& self.queues@.len() == PRIORITY_LEVELS
        &&& forall|l: int|
            0 <= l < PRIORITY_LEVELS ==> (#[trigger] bit_set(self.prio_bitmap, (63 - l) as u64)
                <==> self.queues@[l]@.len() > 0)
        &&& bit_set(self.prio_bitmap, (63 - PRIORITY_LEVELS) as u64)
        &&& forall|j: u64| j < 63 - PRIORITY_LEVELS ==> !bit_set(self.prio_bitmap, j)
        &&& forall|l: int, i: int|
            0 <= l < PRIORITY_LEVELS && 0 <= i < self.queues@[l]@.len() ==> self.queues@[l]@[i]
                != 0
        &&& forall|l: int|
            0 <= l < PRIORITY_LEVELS ==> #[trigger] self.queues@[l]@.len() <= READY_QUEUE_SIZE
    }

    /// The priority bitmap.
    pub closed spec fn bitmap(&self) -> u64 {
        self.prio_bitmap
    }

    /// A well-formed ready queue has one level per priority, each holding at
    /// most `READY_QUEUE_SIZE` non-null tasks, and its bitmap has the bit of
    /// a level set exactly when that level holds a task; below the levels,
    /// the sentinel bit `63 - PRIORITY_LEVELS` is set and every lower bit is
    /// clear, so every bit of the bitmap is fixed by the levels.
    pub proof fn law_bitmap_mirrors_levels(&self)
        requires
            self.wf(),
        ensures
            self@.len() == PRIORITY_LEVELS,
            bit_set(self.bitmap(), (63 - PRIORITY_LEVELS) as u64),
            forall|j: u64| j < 63 - PRIORITY_LEVELS ==> !bit_set(self.bitmap(), j),
            forall|l: int|
                0 <= l < PRIORITY_LEVELS ==> (bit_set(self.bitmap(), (63 - l) as u64) <==> (
                #[trigger] self@[l]).len() > 0),
            forall|l: int| 0 <= l < PRIORITY_LEVELS ==> (#[trigger] self@[l]).len() <= READY_QUEUE_SIZE,
            forall|l: int, i: int|
                0 <= l < PRIORITY_LEVELS && 0 <= i < self@[l].len() ==> #[trigger] self@[l][i] != 0,
    {
        self.lemma_view();
    }

    proof fn lemma_view(&self)
        ensures
            self@.len() == self.queues@.len(),
            forall|l: int| 0 <= l < self.queues@.len() ==> #[trigger] self@[l] == self.queues@[l]@,
    {
    }

    /// The levels of an empty ready queue.
    pub open spec fn new_view() -> Seq<Seq<usize>> {
        Seq::new(PRIORITY_LEVELS as nat, |l: int| Seq::<usize>::empty())
    }

    /// An empty ready queue.
    pub fn new() -> (r: Self)
        ensures
            r.wf(),
            r@ == Self::new_view(),
    {
        let mut queues: Vec<TaskFifo> = Vec::new();
        let mut l: usize = 0;
        while l < PRIORITY_LEVELS
            invariant
                l <= PRIORITY_LEVELS,
                queues@.len() == l,
                forall|k: int| 0 <= k < l ==> queues@[k]@.len() == 0,
            decreases PRIORITY_LEVELS - l,
        {
            queues.push(TaskFifo::new());
            l += 1;
        }
        let bitmap_init: u64 = 1u64 << 47u64;
        let r = ReadyQueue { queues, prio_bitmap: bitmap_init };
        proof {
            assert forall|j: u64| j < 64 implies bit_set(bitmap_init, j) == (j == 47) by {
                assert((1u64 << 47u64) & (1u64 << j) != 0 <==> j == 47) by (bit_vector)
                    requires
                        j < 64,
                ;
            }
            assert forall|l: int| 0 <= l < PRIORITY_LEVELS implies (#[trigger] bit_set(
                r.prio_bitmap,
                (63 - l) as u64,
            ) <==> r.queues@[l]@.len() > 0) by {
                assert((63 - l) as u64 != 47);
            }
            assert forall|k: int| 0 <= k < PRIORITY_LEVELS implies r@[k] == Seq::<usize>::empty() by {
                assert(r.queues@[k]@ =~= Seq::<usize>::empty());
            }
            assert(r@ =~= Seq::new(PRIORITY_LEVELS as nat, |l: int| Seq::<usize>::empty()));
        }
        r
    }

    /// Puts `task`, whose priority is `prio`, at the back of its level.
    ///
    /// Hands the task back when that level is full.
    pub fn push_task(&mut self, task: usize, prio: isize) -> (r: Result<(), usize>)
        requires
            old(self).wf(),
            HIGHEST_PRIORITY <= prio <= LOWEST_PRIORITY,
            task != 0,
        ensures
            final(self).wf(),
            ({
                let l = prio - HIGHEST_PRIORITY;
                if old(self)@[l].len() < READY_QUEUE_SIZE {
                    r == Ok::<(), usize>(()) && final(self)@ == old(self)@.update(
                        l,
                        old(self)@[l].push(task),
                    )
                } else {
                    r == Err::<(), usize>(task) && final(self)@ == old(self)@
                }
            }),
    {
        proof {
            self.lemma_view();
        }
        let l: usize = (prio - HIGHEST_PRIORITY) as usize;
        let res = self.queues[l].push_back(task);
        if res.is_ok() {
                let k: u64 = 63 - l as u64;
                let old_bitmap = self.prio_bitmap;
                self.prio_bitmap = self.prio_bitmap | (1u64 << k);
                proof {
                    assert forall|j: u64| j < 64 implies bit_set(self.prio_bitmap, j) == (j == k
                        || bit_set(old_bitmap, j)) by {
                        lemma_bit_or(old_bitmap, k, j);
                    }
                    assert forall|ll: int| 0 <= ll < PRIORITY_LEVELS implies (#[trigger] bit_set(
                        self.prio_bitmap,
                        (63 - ll) as u64,
                    ) <==> self.queues@[ll]@.len() > 0) by {
                        let j = (63 - ll) as u64;
                        lemma_bit_or(old_bitmap, k, j);
                        if ll == l {
                            assert(j == k);
                            assert(self.queues@[ll]@ == old(self).queues@[ll]@.push(task));
                        } else {
                            assert(j != k);
                            assert(self.queues@[ll] == old(self).queues@[ll]);
                            assert(bit_set(old_bitmap, (63 - ll) as u64) <==> old(self).queues@[ll]@.len() > 0);
                        }
                    }
                    assert forall|j: u64| j < 63 - PRIORITY_LEVELS implies !bit_set(self.prio_bitmap, j) by {
                        assert(!bit_set(old_bitmap, j));
                    }
                    assert forall|ll: int, i: int|
                        0 <= ll < PRIORITY_LEVELS && 0 <= i
                            < self.queues@[ll]@.len() implies self.queues@[ll]@[i] != 0 by {
                        if ll == l {
                            if i < old(self).queues@[ll]@.len() {
                                assert(self.queues@[ll]@[i] == old(self).queues@[ll]@[i]);
                            }
                        } else {
                            assert(self.queues@[ll] == old(self).queues@[ll]);
                        }
                    }
                    self.lemma_view();
                    assert(self.queues@.len() == PRIORITY_LEVELS);
                    assert(bit_set(self.prio_bitmap, (63 - PRIORITY_LEVELS) as u64)) by {
                        lemma_bit_or(old_bitmap, k, (63 - PRIORITY_LEVELS) as u64);
                    }
                    assert(self@ =~= old(self)@.update(l as int, old(self)@[l as int].push(task)));
                    assert(forall|ll: int|
            0 <= ll < PRIORITY_LEVELS ==> (#[trigger] bit_set(self.prio_bitmap, (63 - ll) as u64)
                <==> self.queues@[ll]@.len() > 0));
                    assert(forall|j: u64| j < 63 - PRIORITY_LEVELS ==> !bit_set(self.prio_bitmap, j));
                    assert(forall|ll: int, i: int|
            0 <= ll < PRIORITY_LEVELS && 0 <= i < self.queues@[ll]@.len() ==> self.queues@[ll]@[i]
                != 0);
                }
                Ok(())
        } else {
                proof {
                    self.lemma_view();
                    assert(self@ =~= old(self)@);
                    assert forall|ll: int| 0 <= ll < PRIORITY_LEVELS implies #[trigger] self.queues@[ll]@ == old(self).queues@[ll]@ by {
                        if ll != l {
                            assert(self.queues@[ll] == old(self).queues@[ll]);
                        }
                    }
                    assert(self.wf());
                }
                res
        }
    }

    /// The priority of the highest-priority ready task, computed from the
    /// bitmap.
    fn bitmap_priority(&self) -> (r: isize)
        requires
            self.wf(),
        ensures
            r == top_priority(self@),
    {
        let bitmap = self.prio_bitmap;
        let highest_one_index: isize = match highest_one(bitmap) {
            Some(i) => i as isize,
            None => -1,
        };
        proof {
            self.lemma_view();
            let i = highest_one_index;
            assert(bit_set(bitmap, (63 - PRIORITY_LEVELS) as u64));
            assert(i >= 63 - PRIORITY_LEVELS);
            let t = 63 - i;
            assert forall|k: int| 0 <= k < t implies self@[k].len() == 0 by {
                assert(!bit_set(bitmap, (63 - k) as u64));
                assert(bit_set(self.prio_bitmap, (63 - k) as u64) <==> self.queues@[k]@.len() > 0);
            }
            if t < PRIORITY_LEVELS {
                assert(bit_set(self.prio_bitmap, (63 - t) as u64) <==> self.queues@[t]@.len() > 0);
            }
            lemma_top_level_unique(self@, t);
        }
        63 + HIGHEST_PRIORITY - highest_one_index
    }
}

impl EventSource for ReadyQueue {
    open spec fn inv(&self) -> bool {
        self.wf()
    }

    /// The priority of the highest-priority ready task, or
    /// `LOWEST_PRIORITY + 1` when the queue is empty.
    fn hightest_priority(&self, _cpu_id: usize) -> (r: isize)
        ensures
            r == top_priority(self@),
    {
        self.bitmap_priority()
    }

    /// Takes the task at the front of the highest non-empty level and returns
    /// it with the priority of the highest-priority task left; returns the
    /// null handle and `LOWEST_PRIORITY + 1` when the queue is empty.
    fn take_task(&mut self, _cpu_id: usize) -> (r: (usize, isize))
        ensures
            ready_take(old(self)@, final(self)@, r),
    {
        proof {
            self.lemma_view();
            lemma_first_ready_from(self@, 0);
        }
        let mut prio: isize = HIGHEST_PRIORITY;
        while prio <= LOWEST_PRIORITY
            invariant
                self == old(self),
                self.wf(),
                HIGHEST_PRIORITY <= prio <= LOWEST_PRIORITY + 1,
                forall|k: int| 0 <= k < prio - HIGHEST_PRIORITY ==> self@[k].len() == 0,
            decreases LOWEST_PRIORITY + 1 - prio,
        {
            let l: usize = (prio - HIGHEST_PRIORITY) as usize;
            proof {
                self.lemma_view();
            }
            if !self.queues[l].is_empty() {
                let ghost old_view = self@;
                proof {
                    lemma_top_level_unique(self@, l as int);
                }
                let popped = self.queues[l].pop_front();
                let task = match popped {
                    Some(t) => t,
                    None => 0,
                };
                let next_prio = if self.queues[l].is_empty() {
                    let k: u64 = 63 - l as u64;
                    let old_bitmap = self.prio_bitmap;
                    self.prio_bitmap = self.prio_bitmap & !(1u64 << k);
                    proof {
                        assert forall|j: u64| j < 64 implies bit_set(self.prio_bitmap, j) == (j
                            != k && bit_set(old_bitmap, j)) by {
                            lemma_bit_clear(old_bitmap, k, j);
                        }
                        assert forall|ll: int| 0 <= ll < PRIORITY_LEVELS implies (
                        #[trigger] bit_set(self.prio_bitmap, (63 - ll) as u64)
                            <==> self.queues@[ll]@.len() > 0) by {
                            let j = (63 - ll) as u64;
                            lemma_bit_clear(old_bitmap, k, j);
                            if ll == l {
                                assert(j == k);
                            } else {
                                assert(j != k);
                                assert(self.queues@[ll] == old(self).queues@[ll]);
                                assert(bit_set(old_bitmap, (63 - ll) as u64) <==> old(self).queues@[ll]@.len() > 0);
                            }
                        }
                        assert forall|j: u64| j < 63 - PRIORITY_LEVELS implies !bit_set(self.prio_bitmap, j) by {
                            assert(!bit_set(old_bitmap, j));
                        }
                        assert(bit_set(self.prio_bitmap, (63 - PRIORITY_LEVELS) as u64));
                        assert forall|ll: int, i: int|
                            0 <= ll < PRIORITY_LEVELS && 0 <= i
                                < self.queues@[ll]@.len() implies self.queues@[ll]@[i] != 0 by {
                            if ll == l {
                                assert(self.queues@[ll]@[i] == old(self).queues@[ll]@[i + 1]);
                            } else {
                                assert(self.queues@[ll] == old(self).queues@[ll]);
                            }
                        }
                    }
                    self.bitmap_priority()
                } else {
                    proof {
                        assert forall|ll: int, i: int|
                            0 <= ll < PRIORITY_LEVELS && 0 <= i
                                < self.queues@[ll]@.len() implies self.queues@[ll]@[i] != 0 by {
                            if ll == l {
                                assert(self.queues@[ll]@[i] == old(self).queues@[ll]@[i + 1]);
                            } else {
                                assert(self.queues@[ll] == old(self).queues@[ll]);
                            }
                        }
                        self.lemma_view();
                        assert forall|kk: int| 0 <= kk < l implies self@[kk].len() == 0 by {
                            old(self).lemma_view();
                            assert(old_view[kk].len() == 0);
                            assert(self.queues@[kk] == old(self).queues@[kk]);
                        }
                        lemma_top_level_unique(self@, l as int);
                    }
                    prio
                };
                proof {
                    self.lemma_view();
                    assert(self@ =~= old_view.update(l as int, old_view[l as int].drop_first()));
                }
                return (task, next_prio);
            }
            prio += 1;
        }
        proof {
            lemma_top_level_unique(self@, PRIORITY_LEVELS as int);
        }
        (0, prio)
    }

    fn is_prio_per_cpu() -> (r: bool)
        ensures
            r == false,
    {
        false
    }
}

/// Taking a task from a non-empty ready queue takes the front task of the
/// level of the reported highest priority.
pub proof fn law_take_highest_priority(old: Seq<Seq<usize>>, new: Seq<Seq<usize>>, r: (usize, isize))
    requires
        old.len() == PRIORITY_LEVELS,
        top_level(old) < PRIORITY_LEVELS,
        ready_take(old, new, r),
    ensures
        r.0 == old[top_priority(old) - HIGHEST_PRIORITY][0],
        forall|k: int| 0 <= k < top_priority(old) - HIGHEST_PRIORITY ==> old[k].len() == 0,
{
    lemma_first_ready_from(old, 0);
}

/// Taking a task never leaves a ready task of higher priority than the one
/// reported before.
pub proof fn law_take_priority_monotone(old: Seq<Seq<usize>>, new: Seq<Seq<usize>>, r: (usize, isize))
    requires
        old.len() == PRIORITY_LEVELS,
        ready_take(old, new, r),
    ensures
        r.1 >= top_priority(old),
        top_priority(new) >= top_priority(old),
{
    lemma_first_ready_from(old, 0);
    lemma_first_ready_from(new, 0);
    let t = top_level(old);
    if t < PRIORITY_LEVELS {
        assert forall|k: int| 0 <= k < t implies new[k].len() == 0 by {
            assert(new[k] == old[k]);
        }
        if top_level(new) < t {
            assert(new[top_level(new)].len() == 0);
        }
    }
}

/// Tasks of one priority come out in the order they went in: pushing `task`
/// at priority `prio` puts it behind every task already waiting at that
/// priority and ahead of none.
pub proof fn law_push_fifo(old: Seq<Seq<usize>>, task: usize, prio: isize)
    requires
        old.len() == PRIORITY_LEVELS,
        HIGHEST_PRIORITY <= prio <= LOWEST_PRIORITY,
    ensures
        ({
            let l = prio - HIGHEST_PRIORITY;
            let new = old.update(l, old[l].push(task));
            &&& new[l].len() == old[l].len() + 1
            &&& new[l][old[l].len() as int] == task
            &&& forall|i: int| 0 <= i < old[l].len() ==> new[l][i] == old[l][i]
        }),
{
}

/// After a task of priority `prio` is pushed, the reported highest priority is
/// `prio` or better, and it is exactly `prio` when nothing better was waiting.
pub proof fn law_push_priority(old: Seq<Seq<usize>>, task: usize, prio: isize)
    requires
        old.len() == PRIORITY_LEVELS,
        HIGHEST_PRIORITY <= prio <= LOWEST_PRIORITY,
    ensures
        ({
            let l = prio - HIGHEST_PRIORITY;
            let new = old.update(l, old[l].push(task));
            &&& top_priority(new) <= prio
            &&& top_priority(old) >= prio ==> top_priority(new) == prio
            &&& top_priority(old) < prio ==> top_priority(new) == top_priority(old)
        }),
{
    let l = prio - HIGHEST_PRIORITY;
    let new = old.update(l, old[l].push(task));
    lemma_first_ready_from(old, 0);
    lemma_first_ready_from(new, 0);
    let t = top_level(old);
    if t >= l {
        assert forall|k: int| 0 <= k < l implies new[k].len() == 0 by {
            assert(new[k] == old[k]);
        }
        lemma_top_level_unique(new, l);
    } else {
        assert forall|k: int| 0 <= k < t implies new[k].len() == 0 by {
            assert(new[k] == old[k]);
        }
        assert(new[t] == old[t]);
        lemma_top_level_unique(new, t);
    }
}

} // verus!
