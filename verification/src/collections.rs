//! Fixed-capacity collections of `heapless`, held behind trusted wrappers.
//!
//! `heapless::Deque` is a type alias over a storage type that `heapless`
//! keeps private, so Verus cannot be told about it directly: each
//! collection is held in a private field of a struct of this crate, and the
//! contents are given a name that the wrappers' contracts speak of.
use vstd::prelude::*;
use crate::interface::{PROCESS_NUM, READY_QUEUE_SIZE, STACK_POOL_SIZE, TRAP_WAIT_QUEUE_SIZE};
use crate::stack::StackWapper;

verus! {

/// A FIFO of task handles, backed by `heapless::Deque<usize, READY_QUEUE_SIZE>`.
#[verifier::external_body]
pub struct TaskFifo {
    inner: heapless::Deque<usize, READY_QUEUE_SIZE>,
}

/// The handles held by a [`TaskFifo`], front first.
pub uninterp spec fn task_fifo_items(q: TaskFifo) -> Seq<usize>;

impl View for TaskFifo {
    type V = Seq<usize>;

    open spec fn view(&self) -> Seq<usize> {
        task_fifo_items(*self)
    }
}

impl TaskFifo {
    /// `heapless::Deque::new`: an empty deque.
    #[verifier::external_body]
    pub(crate) fn new() -> (q: TaskFifo)
        ensures
            task_fifo_items(q) == Seq::<usize>::empty(),
    {
        TaskFifo { inner: heapless::Deque::new() }
    }

    /// `heapless::Deque::push_back`: appends at the back unless the deque
    /// already holds `READY_QUEUE_SIZE` items, in which case it hands the item
    /// back and leaves the deque unchanged.
    #[verifier::external_body]
    pub(crate) fn push_back(&mut self, item: usize) -> (r: Result<(), usize>)
        ensures
            r == (if task_fifo_items(*old(self)).len() < READY_QUEUE_SIZE {
                Ok::<(), usize>(())
            } else {
                Err::<(), usize>(item)
            }),
            task_fifo_items(*final(self)) == (if task_fifo_items(*old(self)).len()
                < READY_QUEUE_SIZE {
                task_fifo_items(*old(self)).push(item)
            } else {
                task_fifo_items(*old(self))
            }),
            task_fifo_items(*final(self)).len() <= READY_QUEUE_SIZE,
    {
        self.inner.push_back(item)
    }

    /// `heapless::Deque::pop_front`: removes and returns the front item, or
    /// `None` (deque unchanged) when it is empty.
    #[verifier::external_body]
    pub(crate) fn pop_front(&mut self) -> (r: Option<usize>)
        ensures
            r == (if task_fifo_items(*old(self)).len() == 0 {
                None::<usize>
            } else {
                Some(task_fifo_items(*old(self))[0])
            }),
            task_fifo_items(*final(self)) == (if task_fifo_items(*old(self)).len() == 0 {
                task_fifo_items(*old(self))
            } else {
                task_fifo_items(*old(self)).drop_first()
            }),
    {
        self.inner.pop_front()
    }

    /// `heapless::Deque::is_empty`.
    #[verifier::external_body]
    pub(crate) fn is_empty(&self) -> (r: bool)
        ensures
            r == (task_fifo_items(*self).len() == 0),
    {
        self.inner.is_empty()
    }

    /// `heapless::Deque::len`; never more than the capacity.
    #[verifier::external_body]
    pub(crate) fn len(&self) -> (r: usize)
        ensures
            r == task_fifo_items(*self).len(),
            r <= READY_QUEUE_SIZE,
    {
        self.inner.len()
    }
}

/// A FIFO of trap records `(trap_info, trapped_task)`, backed by
/// `heapless::Deque<(usize, Option<usize>), TRAP_WAIT_QUEUE_SIZE>`.
#[verifier::external_body]
pub struct TrapFifo {
    inner: heapless::Deque<(usize, Option<usize>), TRAP_WAIT_QUEUE_SIZE>,
}

/// The records held by a [`TrapFifo`], front first.
pub uninterp spec fn trap_fifo_items(q: TrapFifo) -> Seq<(usize, Option<usize>)>;

impl View for TrapFifo {
    type V = Seq<(usize, Option<usize>)>;

    open spec fn view(&self) -> Seq<(usize, Option<usize>)> {
        trap_fifo_items(*self)
    }
}

impl TrapFifo {
    /// `heapless::Deque::new`: an empty deque.
    #[verifier::external_body]
    pub(crate) fn new() -> (q: TrapFifo)
        ensures
            trap_fifo_items(q) == Seq::<(usize, Option<usize>)>::empty(),
    {
        TrapFifo { inner: heapless::Deque::new() }
    }

    /// `heapless::Deque::push_back`: appends at the back unless the deque
    /// already holds `TRAP_WAIT_QUEUE_SIZE` items, in which case it hands the
    /// item back and leaves the deque unchanged.
    #[verifier::external_body]
    pub(crate) fn push_back(&mut self, item: (usize, Option<usize>)) -> (r: Result<
        (),
        (usize, Option<usize>),
    >)
        ensures
            r == (if trap_fifo_items(*old(self)).len() < TRAP_WAIT_QUEUE_SIZE {
                Ok::<(), (usize, Option<usize>)>(())
            } else {
                Err::<(), (usize, Option<usize>)>(item)
            }),
            trap_fifo_items(*final(self)) == (if trap_fifo_items(*old(self)).len()
                < TRAP_WAIT_QUEUE_SIZE {
                trap_fifo_items(*old(self)).push(item)
            } else {
                trap_fifo_items(*old(self))
            }),
            trap_fifo_items(*final(self)).len() <= TRAP_WAIT_QUEUE_SIZE,
    {
        self.inner.push_back(item)
    }

    /// `heapless::Deque::pop_front`: removes and returns the front item, or
    /// `None` (deque unchanged) when it is empty.
    #[verifier::external_body]
    pub(crate) fn pop_front(&mut self) -> (r: Option<(usize, Option<usize>)>)
        ensures
            r == (if trap_fifo_items(*old(self)).len() == 0 {
                None::<(usize, Option<usize>)>
            } else {
                Some(trap_fifo_items(*old(self))[0])
            }),
            trap_fifo_items(*final(self)) == (if trap_fifo_items(*old(self)).len() == 0 {
                trap_fifo_items(*old(self))
            } else {
                trap_fifo_items(*old(self)).drop_first()
            }),
    {
        self.inner.pop_front()
    }

    /// `heapless::Deque::front`, copied out.
    #[verifier::external_body]
    pub(crate) fn front(&self) -> (r: Option<(usize, Option<usize>)>)
        ensures
            r == (if trap_fifo_items(*self).len() == 0 {
                None::<(usize, Option<usize>)>
            } else {
                Some(trap_fifo_items(*self)[0])
            }),
    {
        self.inner.front().copied()
    }

    /// `heapless::Deque::is_empty`.
    #[verifier::external_body]
    pub(crate) fn is_empty(&self) -> (r: bool)
        ensures
            r == (trap_fifo_items(*self).len() == 0),
    {
        self.inner.is_empty()
    }
}

/// A list of process indices, backed by `heapless::Vec<usize, PROCESS_NUM>`.
#[verifier::external_body]
pub struct IndexList {
    inner: heapless::Vec<usize, PROCESS_NUM>,
}

/// The indices held by an [`IndexList`], in order.
pub uninterp spec fn index_list_items(v: IndexList) -> Seq<usize>;

impl View for IndexList {
    type V = Seq<usize>;

    open spec fn view(&self) -> Seq<usize> {
        index_list_items(*self)
    }
}

impl IndexList {
    /// `heapless::Vec::new`: an empty vector.
    #[verifier::external_body]
    pub(crate) fn new() -> (v: IndexList)
        ensures
            index_list_items(v) == Seq::<usize>::empty(),
    {
        IndexList { inner: heapless::Vec::new() }
    }

    /// `heapless::Vec::from([item])`: a vector holding `item` alone.
    #[verifier::external_body]
    pub(crate) fn from_one(item: usize) -> (v: IndexList)
        ensures
            index_list_items(v) == seq![item],
    {
        IndexList { inner: heapless::Vec::from([item]) }
    }

    /// `heapless::Vec::push`: appends unless the vector already holds
    /// `PROCESS_NUM` items, in which case it hands the item back and leaves the
    /// vector unchanged.
    #[verifier::external_body]
    pub(crate) fn push(&mut self, item: usize) -> (r: Result<(), usize>)
        ensures
            r == (if index_list_items(*old(self)).len() < PROCESS_NUM {
                Ok::<(), usize>(())
            } else {
                Err::<(), usize>(item)
            }),
            index_list_items(*final(self)) == (if index_list_items(*old(self)).len()
                < PROCESS_NUM {
                index_list_items(*old(self)).push(item)
            } else {
                index_list_items(*old(self))
            }),
            index_list_items(*final(self)).len() <= PROCESS_NUM,
    {
        self.inner.push(item)
    }

    /// Slice `contains` through `heapless::Vec`'s `Deref`.
    #[verifier::external_body]
    pub(crate) fn contains(&self, item: usize) -> (r: bool)
        ensures
            r == index_list_items(*self).contains(item),
    {
        self.inner.contains(&item)
    }

    /// Indexing through `heapless::Vec`'s `Deref`; `index` must be in bounds.
    #[verifier::external_body]
    pub(crate) fn get(&self, index: usize) -> (r: usize)
        requires
            index < index_list_items(*self).len(),
        ensures
            r == index_list_items(*self)[index as int],
    {
        self.inner[index]
    }
}

/// A pool of stacks, backed by `heapless::Vec<StackWapper, STACK_POOL_SIZE>`.
#[verifier::external_body]
pub struct StackList {
    inner: heapless::Vec<StackWapper, STACK_POOL_SIZE>,
}

/// The base addresses of the stacks held by a [`StackList`], in order.
pub uninterp spec fn stack_list_items(v: StackList) -> Seq<usize>;

impl View for StackList {
    type V = Seq<usize>;

    open spec fn view(&self) -> Seq<usize> {
        stack_list_items(*self)
    }
}

impl StackList {
    /// `heapless::Vec::new`: an empty vector.
    #[verifier::external_body]
    pub(crate) fn new() -> (v: StackList)
        ensures
            stack_list_items(v) == Seq::<usize>::empty(),
    {
        StackList { inner: heapless::Vec::new() }
    }

    /// `heapless::Vec::push`: appends unless the vector already holds
    /// `STACK_POOL_SIZE` stacks, in which case it hands the stack back and
    /// leaves the vector unchanged.
    #[verifier::external_body]
    pub(crate) fn push(&mut self, item: StackWapper) -> (r: Result<(), StackWapper>)
        ensures
            r == (if stack_list_items(*old(self)).len() < STACK_POOL_SIZE {
                Ok::<(), StackWapper>(())
            } else {
                Err::<(), StackWapper>(item)
            }),
            stack_list_items(*final(self)) == (if stack_list_items(*old(self)).len()
                < STACK_POOL_SIZE {
                stack_list_items(*old(self)).push(item.base)
            } else {
                stack_list_items(*old(self))
            }),
            stack_list_items(*final(self)).len() <= STACK_POOL_SIZE,
    {
        self.inner.push(item)
    }

    /// `heapless::Vec::pop`: removes and returns the last stack, or `None`
    /// (vector unchanged) when it is empty.
    #[verifier::external_body]
    pub(crate) fn pop(&mut self) -> (r: Option<StackWapper>)
        ensures
            r == (if stack_list_items(*old(self)).len() == 0 {
                None::<StackWapper>
            } else {
                Some(StackWapper { base: stack_list_items(*old(self)).last() })
            }),
            stack_list_items(*final(self)) == (if stack_list_items(*old(self)).len() == 0 {
                stack_list_items(*old(self))
            } else {
                stack_list_items(*old(self)).drop_last()
            }),
    {
        self.inner.pop()
    }
}

/// A set of stacks keyed by their address, backed by
/// `heapless::index_map::FnvIndexMap<usize, usize, STACK_POOL_SIZE>`.
#[verifier::external_body]
pub struct StackMap {
    inner: heapless::index_map::FnvIndexMap<usize, usize, STACK_POOL_SIZE>,
}

/// The entries held by a [`StackMap`].
pub uninterp spec fn stack_map_items(m: StackMap) -> Map<usize, usize>;

impl View for StackMap {
    type V = Map<usize, usize>;

    open spec fn view(&self) -> Map<usize, usize> {
        stack_map_items(*self)
    }
}

impl StackMap {
    /// `FnvIndexMap::new`: an empty map.
    #[verifier::external_body]
    pub(crate) fn new() -> (r: StackMap)
        ensures
            stack_map_items(r).dom() == Set::<usize>::empty(),
    {
        StackMap { inner: heapless::index_map::FnvIndexMap::new() }
    }

    /// The key of the first entry in iteration order (`iter().next()`), or
    /// `None` when the map is empty; which key comes first is not stated.
    #[verifier::external_body]
    pub(crate) fn first_key(&self) -> (r: Option<usize>)
        ensures
            (r == None::<usize>) == (stack_map_items(*self).dom().len() == 0),
            match r {
                Some(k) => stack_map_items(*self).dom().contains(k),
                None => true,
            },
    {
        match self.inner.iter().next() {
            Some((k, _)) => Some(*k),
            None => None,
        }
    }

    /// `FnvIndexMap::remove`: removes `key`, returning its value if it was
    /// there.
    #[verifier::external_body]
    pub(crate) fn remove(&mut self, key: usize) -> (r: Option<usize>)
        ensures
            r == (if stack_map_items(*old(self)).dom().contains(key) {
                Some(stack_map_items(*old(self))[key])
            } else {
                None::<usize>
            }),
            stack_map_items(*final(self)) == stack_map_items(*old(self)).remove(key),
            stack_map_items(*final(self)).dom().len() <= STACK_POOL_SIZE,
    {
        self.inner.remove(&key)
    }

    /// `FnvIndexMap::insert` of a key that is not in the map: adds the entry
    /// unless the map already holds `STACK_POOL_SIZE` entries, in which case
    /// it hands the entry back and leaves the map unchanged.
    #[verifier::external_body]
    pub(crate) fn insert_new(&mut self, key: usize, value: usize) -> (r: Result<(), (usize, usize)>)
        requires
            !stack_map_items(*old(self)).dom().contains(key),
        ensures
            r == (if stack_map_items(*old(self)).dom().len() < STACK_POOL_SIZE {
                Ok::<(), (usize, usize)>(())
            } else {
                Err::<(), (usize, usize)>((key, value))
            }),
            stack_map_items(*final(self)) == (if stack_map_items(*old(self)).dom().len()
                < STACK_POOL_SIZE {
                stack_map_items(*old(self)).insert(key, value)
            } else {
                stack_map_items(*old(self))
            }),
            stack_map_items(*final(self)).dom().len() <= STACK_POOL_SIZE,
    {
        match self.inner.insert(key, value) {
            Ok(_) => Ok(()),
            Err(e) => Err(e),
        }
    }
}

} // verus!
