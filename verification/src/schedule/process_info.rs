//! The global process table: one entry per process number.
use vstd::prelude::*;
use crate::collections::IndexList;
use crate::interface::PROCESS_NUM;

verus! {

/// What the table records of one process. The process number is the index.
#[derive(Clone, Copy)]
pub struct ProcessInfo {
    /// Whether this process number is taken.
    pub valid: bool,
    /// The highest priority among the process's ready tasks.
    pub highest_prio: isize,
    /// The process's address space (the address of its page table root; 0
    /// when any address space will do).
    pub vspace: usize,
    /// The address of the process's scheduler, 0 when it has none yet.
    pub scheduler: usize,
}

/// The process table: an entry per process number and the next number to
/// hand out.
pub struct ProcessInfoTable {
    table: Vec<ProcessInfo>,
    /// Numbers are handed out starting from this counter, taken modulo
    /// `PROCESS_NUM`; every probe moves it on by one (wrapping).
    next_index: usize,
}

impl Default for ProcessInfoTable {
    /// A table where only number 0 (the kernel) is taken, every priority is
    /// `isize::MAX` and numbers are handed out from 1.
    fn default() -> (r: Self)
        ensures
            r.wf(),
            r.next() == 1,
            scan_covers(r.entries(), r.next()),
            forall|i: int|
                0 <= i < PROCESS_NUM ==> #[trigger] r.entries()[i] == (ProcessInfo {
                    valid: i == 0,
                    highest_prio: isize::MAX,
                    vspace: 0,
                    scheduler: 0,
                }),
    {
        let mut table: Vec<ProcessInfo> = Vec::new();
        let mut i: usize = 0;
        while i < PROCESS_NUM
            invariant
                i <= PROCESS_NUM,
                table@.len() == i,
                forall|j: int|
                    0 <= j < i ==> #[trigger] table@[j] == (ProcessInfo {
                        valid: j == 0,
                        highest_prio: isize::MAX,
                        vspace: 0,
                        scheduler: 0,
                    }),
            decreases PROCESS_NUM - i,
        {
            table.push(ProcessInfo { valid: i == 0, highest_prio: isize::MAX, vspace: 0, scheduler: 0 });
            i += 1;
        }
        ProcessInfoTable { table, next_index: 1 }
    }
}

/// `x + 1`, wrapping at `usize::MAX`.
pub open spec fn bump(x: usize) -> usize {
    if x == usize::MAX {
        0
    } else {
        (x + 1) as usize
    }
}

/// `d` wrapping increments of `x`.
pub open spec fn advance(x: usize, d: nat) -> usize
    decreases d,
{
    if d == 0 {
        x
    } else {
        bump(advance(x, (d - 1) as nat))
    }
}

/// Wrapping increments commute with taking the remainder by `PROCESS_NUM`.
pub proof fn lemma_advance_mod(x: usize, d: nat)
    ensures
        (advance(x, d) as int) % (PROCESS_NUM as int) == (x + d) % (PROCESS_NUM as int),
    decreases d,
{
    if d > 0 {
        lemma_advance_mod(x, (d - 1) as nat);
        let y = advance(x, (d - 1) as nat);
        if y == usize::MAX {
            assert(usize::MAX % 256 == 255) by {
                assert(usize::MAX == 0xffff_ffff || usize::MAX == 0xffff_ffff_ffff_ffff);
            }
            vstd::arithmetic::div_mod::lemma_add_mod_noop(y as int, 1, 256);
        } else {
            vstd::arithmetic::div_mod::lemma_add_mod_noop(y as int, 1, 256);
        }
        vstd::arithmetic::div_mod::lemma_add_mod_noop(x + d - 1, 1, 256);
    }
}

/// The first offset `k' >= k` such that entry `(start + k') % PROCESS_NUM`
/// is free, or `PROCESS_NUM` when there is none below `PROCESS_NUM`.
pub open spec fn free_offset(t: Seq<ProcessInfo>, start: int, k: int) -> int
    decreases PROCESS_NUM - k,
{
    if k >= PROCESS_NUM || k < 0 {
        PROCESS_NUM as int
    } else if !t[(start + k) % (PROCESS_NUM as int)].valid {
        k
    } else {
        free_offset(t, start, k + 1)
    }
}

/// `free_offset` is the least free offset at or after `k`.
pub proof fn lemma_free_offset(t: Seq<ProcessInfo>, start: int, k: int)
    requires
        0 <= k <= PROCESS_NUM,
    ensures
        k <= free_offset(t, start, k) <= PROCESS_NUM,
        free_offset(t, start, k) < PROCESS_NUM ==> !t[(start + free_offset(t, start, k)) % (
        PROCESS_NUM as int)].valid,
        forall|j: int|
            k <= j < free_offset(t, start, k) ==> #[trigger] t[(start + j) % (
            PROCESS_NUM as int)].valid,
    decreases PROCESS_NUM - k,
{
    if k < PROCESS_NUM && t[(start + k) % (PROCESS_NUM as int)].valid {
        lemma_free_offset(t, start, k + 1);
    }
}

/// With some number free, probing from any start finds a free number
/// within one round of the table.
pub proof fn lemma_free_found(t: Seq<ProcessInfo>, start: int, p: int)
    requires
        t.len() == PROCESS_NUM,
        0 <= start < PROCESS_NUM,
        0 <= p < PROCESS_NUM,
        !t[p].valid,
    ensures
        free_offset(t, start, 0) < PROCESS_NUM,
{
    let n = PROCESS_NUM as int;
    lemma_free_offset(t, start, 0);
    let j = if p >= start {
        p - start
    } else {
        p + n - start
    };
    if p >= start {
        vstd::arithmetic::div_mod::lemma_small_mod(p as nat, n as nat);
    } else {
        vstd::arithmetic::div_mod::lemma_mod_add_multiples_vanish(p, n);
        vstd::arithmetic::div_mod::lemma_small_mod(p as nat, n as nat);
    }
    assert((start + j) % n == p);
    if free_offset(t, start, 0) >= PROCESS_NUM {
        assert(t[(start + j) % n].valid);
    }
}

/// The entry `e` with its number taken.
pub open spec fn taken(e: ProcessInfo) -> ProcessInfo {
    ProcessInfo { valid: true, ..e }
}

/// The entry `e` with its number given back.
pub open spec fn released(e: ProcessInfo) -> ProcessInfo {
    ProcessInfo { valid: false, ..e }
}

/// The lowest priority among the valid entries at scan positions
/// `start..p` (position `q` reads entry `q % PROCESS_NUM`), or `isize::MAX`
/// when there is none.
pub open spec fn scan_min(t: Seq<ProcessInfo>, start: int, p: int) -> isize
    decreases p - start,
{
    if p <= start {
        isize::MAX
    } else {
        let prev = scan_min(t, start, p - 1);
        let e = t[(p - 1) % (PROCESS_NUM as int)];
        if e.valid && e.highest_prio < prev {
            e.highest_prio
        } else {
            prev
        }
    }
}

/// The indices of the valid entries at scan positions `start..p` whose
/// priority is `m`, in scan order.
pub open spec fn scan_ties(t: Seq<ProcessInfo>, start: int, p: int, m: isize) -> Seq<usize>
    decreases p - start,
{
    if p <= start {
        Seq::empty()
    } else {
        let prev = scan_ties(t, start, p - 1, m);
        let i = (p - 1) % (PROCESS_NUM as int);
        if t[i].valid && t[i].highest_prio == m {
            prev.push(i as usize)
        } else {
            prev
        }
    }
}

/// Below the minimum there are no ties.
proof fn lemma_scan_ties_below_min(t: Seq<ProcessInfo>, start: int, p: int, m: isize)
    requires
        m < scan_min(t, start, p),
    ensures
        scan_ties(t, start, p, m) == Seq::<usize>::empty(),
    decreases p - start,
{
    if p > start {
        lemma_scan_ties_below_min(t, start, p - 1, m);
    }
}

/// Some valid entry lies at a scan position in `start..p`.
pub open spec fn scan_has_valid(t: Seq<ProcessInfo>, start: int, p: int) -> bool {
    exists|q: int| start <= q < p && #[trigger] t[q % (PROCESS_NUM as int)].valid
}

/// A minimum below `isize::MAX` comes from a valid entry.
proof fn lemma_scan_min_valid(t: Seq<ProcessInfo>, start: int, p: int)
    requires
        scan_min(t, start, p) < isize::MAX,
    ensures
        scan_has_valid(t, start, p),
    decreases p - start,
{
    if p > start {
        let e = t[(p - 1) % (PROCESS_NUM as int)];
        if e.valid && e.highest_prio < scan_min(t, start, p - 1) {
            assert(t[(p - 1) % (PROCESS_NUM as int)].valid);
        } else {
            lemma_scan_min_valid(t, start, p - 1);
            let q = choose|q: int| start <= q < p - 1 && #[trigger] t[q % (PROCESS_NUM as int)].valid;
            assert(t[q % (PROCESS_NUM as int)].valid);
        }
    }
}

/// When some valid entry is scanned, the ties at the minimum are not empty.
proof fn lemma_scan_ties_nonempty(t: Seq<ProcessInfo>, start: int, p: int)
    requires
        scan_has_valid(t, start, p),
    ensures
        scan_ties(t, start, p, scan_min(t, start, p)).len() > 0,
    decreases p - start,
{
    let e = t[(p - 1) % (PROCESS_NUM as int)];
    if e.valid && e.highest_prio <= scan_min(t, start, p - 1) {
        // the last entry is among the ties
    } else {
        let q = choose|q: int| start <= q < p && #[trigger] t[q % (PROCESS_NUM as int)].valid;
        if q == p - 1 {
            lemma_scan_min_valid(t, start, p - 1);
        } else {
            assert(t[q % (PROCESS_NUM as int)].valid);
        }
        assert(scan_has_valid(t, start, p - 1));
        lemma_scan_ties_nonempty(t, start, p - 1);
    }
}

/// The first scan position of `highest_prio_process`.
pub open spec fn scan_start(next_index: usize) -> int {
    if next_index >= PROCESS_NUM {
        next_index - PROCESS_NUM
    } else {
        0
    }
}

/// The process `highest_prio_process` picks: `current` when it is among the
/// valid processes of the highest priority, else the first of them in scan
/// order.
pub open spec fn pick_process(t: Seq<ProcessInfo>, next_index: usize, current: usize) -> usize {
    let start = scan_start(next_index);
    let ties = scan_ties(t, start, next_index as int, scan_min(t, start, next_index as int));
    if ties.contains(current) {
        current
    } else {
        ties[0]
    }
}

impl ProcessInfoTable {
    /// One entry per process number.
    pub open spec fn wf(&self) -> bool {
        self.entries().len() == PROCESS_NUM
    }

    /// The entries, indexed by process number.
    pub closed spec fn entries(&self) -> Seq<ProcessInfo> {
        self.table@
    }

    /// The counter from which numbers are handed out.
    pub closed spec fn next(&self) -> usize {
        self.next_index
    }

    /// What [`ProcessInfoTable::register_process`] does: the first free
    /// number probed from `next % PROCESS_NUM` on is taken and returned, the
    /// counter moving on by one per probe; with none free, `None`.
    pub open spec fn register_post(old: Self, new: Self, r: Option<usize>) -> bool {
        let s = old.next() % PROCESS_NUM;
        let k = free_offset(old.entries(), s as int, 0);
        let i = (s + k) % (PROCESS_NUM as int);
        if k < PROCESS_NUM {
            &&& r == Some(i as usize)
            &&& new.entries() == old.entries().update(i, taken(old.entries()[i]))
            &&& new.next() == advance(old.next(), (k + 1) as nat)
        } else {
            &&& r == None::<usize>
            &&& new.entries() == old.entries()
            &&& new.next() == advance(old.next(), (PROCESS_NUM + 1) as nat)
        }
    }

    /// Takes a free process number and returns it, or `None` when every
    /// number is taken.
    ///
    /// Numbers are probed from `next_index % PROCESS_NUM` on, wrapping round
    /// the table; each probe moves the counter on by one.
    pub fn register_process(&mut self) -> (r: Option<usize>)
        requires
            old(self).wf(),
        ensures
            final(self).wf(),
            Self::register_post(*old(self), *final(self), r),
    {
        let ghost t = self.table@;
        let ghost n0 = self.next_index;
        let start: usize = self.next_index % PROCESS_NUM;
        self.next_index = self.next_index.wrapping_add(1);
        assert(self.next_index == advance(n0, 1)) by {
            assert(advance(n0, 0) == n0);
        }
        let mut index: usize = start;
        let ghost mut k: int = 0;
        proof {
            lemma_free_offset(t, start as int, 0);
            vstd::arithmetic::div_mod::lemma_small_mod(start as nat, PROCESS_NUM as nat);
        }
        loop
            invariant
                self.table@ == t,
                t == old(self).table@,
                n0 == old(self).next_index,
                t.len() == PROCESS_NUM,
                start < PROCESS_NUM,
                0 <= k < PROCESS_NUM,
                index == (start + k) % (PROCESS_NUM as int),
                self.next_index == advance(n0, (k + 1) as nat),
                k <= free_offset(t, start as int, 0),
                free_offset(t, start as int, 0) <= PROCESS_NUM,
                free_offset(t, start as int, 0) < PROCESS_NUM ==> !t[(start + free_offset(
                    t,
                    start as int,
                    0,
                )) % (PROCESS_NUM as int)].valid,
                forall|j: int|
                    0 <= j < free_offset(t, start as int, 0) ==> #[trigger] t[(start + j) % (
                    PROCESS_NUM as int)].valid,
                start == n0 % PROCESS_NUM,
            decreases PROCESS_NUM - k,
        {
            if !self.table[index].valid {
                let mut e = self.table[index];
                e.valid = true;
                self.table.set(index, e);
                proof {
                    assert(k == free_offset(t, start as int, 0));
                    assert(e == taken(t[index as int]));
                    assert(self.table@ == t.update(index as int, taken(t[index as int])));
                    assert(start == old(self).next() % PROCESS_NUM);
                }
                return Some(index);
            }
            proof {
                assert(k < free_offset(t, start as int, 0));
            }
            let ghost prev_next = self.next_index;
            index = self.next_index % PROCESS_NUM;
            self.next_index = self.next_index.wrapping_add(1);
            proof {
                lemma_advance_mod(n0, (k + 1) as nat);
                vstd::arithmetic::div_mod::lemma_add_mod_noop(n0 as int, k + 1, 256);
                vstd::arithmetic::div_mod::lemma_add_mod_noop(start as int, k + 1, 256);
                assert(self.next_index == advance(n0, (k + 2) as nat));
                k = k + 1;
            }
            if index == start {
                proof {
                    assert(k == PROCESS_NUM) by {
                        if k < PROCESS_NUM {
                            vstd::arithmetic::div_mod::lemma_small_mod((start + k) as nat, 256);
                            if start + k >= 256 {
                                vstd::arithmetic::div_mod::lemma_mod_add_multiples_vanish(start + k - 256, 256);
                                vstd::arithmetic::div_mod::lemma_small_mod((start + k - 256) as nat, 256);
                            }
                        }
                    }
                    assert(free_offset(t, start as int, 0) == PROCESS_NUM);
                    assert(self.table@ == old(self).entries());
                    assert(self.next_index == advance(n0, (PROCESS_NUM + 1) as nat));
                }
                return None;
            }
            proof {
                if k == PROCESS_NUM {
                    vstd::arithmetic::div_mod::lemma_mod_add_multiples_vanish(start as int, 256);
                    vstd::arithmetic::div_mod::lemma_small_mod(start as nat, 256);
                }
            }
        }
    }

    /// Gives process number `index` back; returns whether it was taken.
    pub fn unregister_process(&mut self, index: usize) -> (r: bool)
        requires
            old(self).wf(),
            index < PROCESS_NUM,
        ensures
            final(self).wf(),
            r == old(self).entries()[index as int].valid,
            final(self).entries() == old(self).entries().update(
                index as int,
                released(old(self).entries()[index as int]),
            ),
            final(self).next() == old(self).next(),
    {
        let mut e = self.table[index];
        let was = e.valid;
        e.valid = false;
        self.table.set(index, e);
        was
    }

    /// Records `prio` as the highest priority of process `pid`.
    pub fn set_highest_prio(&mut self, pid: usize, prio: isize)
        requires
            old(self).wf(),
            pid < PROCESS_NUM,
        ensures
            final(self).wf(),
            final(self).entries() == old(self).entries().update(
                pid as int,
                ProcessInfo { highest_prio: prio, ..old(self).entries()[pid as int] },
            ),
            final(self).next() == old(self).next(),
    {
        let mut e = self.table[pid];
        e.highest_prio = prio;
        self.table.set(pid, e);
    }

    /// Records the address space and scheduler of process `pid`.
    pub fn set_process(&mut self, pid: usize, vspace: usize, scheduler: usize)
        requires
            old(self).wf(),
            pid < PROCESS_NUM,
        ensures
            final(self).wf(),
            final(self).entries() == old(self).entries().update(
                pid as int,
                ProcessInfo { vspace, scheduler, ..old(self).entries()[pid as int] },
            ),
            final(self).next() == old(self).next(),
    {
        let mut e = self.table[pid];
        e.vspace = vspace;
        e.scheduler = scheduler;
        self.table.set(pid, e);
    }

    /// The entry of process `pid`.
    pub fn get(&self, pid: usize) -> (r: ProcessInfo)
        requires
            self.wf(),
            pid < PROCESS_NUM,
        ensures
            r == self.entries()[pid as int],
    {
        self.table[pid]
    }

    /// The lowest-numbered registered process whose address space is
    /// `vspace`, if any.
    pub fn process_of_vspace(&self, vspace: usize) -> (r: Option<usize>)
        requires
            self.wf(),
        ensures
            match r {
                Some(p) => {
                    &&& p < PROCESS_NUM
                    &&& self.entries()[p as int].valid
                    &&& self.entries()[p as int].vspace == vspace
                    &&& forall|q: int|
                        0 <= q < p ==> !(#[trigger] self.entries()[q].valid && self.entries()[q].vspace
                            == vspace)
                },
                None => forall|q: int|
                    0 <= q < PROCESS_NUM ==> !(#[trigger] self.entries()[q].valid
                        && self.entries()[q].vspace == vspace),
            },
    {
        let mut p: usize = 0;
        while p < PROCESS_NUM
            invariant
                self.wf(),
                p <= PROCESS_NUM,
                forall|q: int|
                    0 <= q < p ==> !(#[trigger] self.entries()[q].valid && self.entries()[q].vspace
                        == vspace),
            decreases PROCESS_NUM - p,
        {
            let e = self.table[p];
            if e.valid && e.vspace == vspace {
                return Some(p);
            }
            p += 1;
        }
        None
    }

    /// Whether some process number is free.
    pub fn has_free_number(&self) -> (r: bool)
        requires
            self.wf(),
        ensures
            r == exists|p: int| 0 <= p < PROCESS_NUM && !#[trigger] self.entries()[p].valid,
    {
        let mut i: usize = 0;
        while i < PROCESS_NUM
            invariant
                self.wf(),
                i <= PROCESS_NUM,
                forall|p: int| 0 <= p < i ==> #[trigger] self.entries()[p].valid,
            decreases PROCESS_NUM - i,
        {
            if !self.table[i].valid {
                assert(!self.entries()[i as int].valid);
                return true;
            }
            i += 1;
        }
        false
    }

    /// Whether [`ProcessInfoTable::highest_prio_process`] finds a valid
    /// process to pick.
    pub fn has_process_to_pick(&self) -> (r: bool)
        requires
            self.wf(),
        ensures
            r == scan_has_valid(self.entries(), scan_start(self.next()), self.next() as int),
    {
        let next_index = self.next_index;
        let start: usize = if next_index >= PROCESS_NUM {
            next_index - PROCESS_NUM
        } else {
            0
        };
        let mut i: usize = start;
        while i < next_index
            invariant
                self.wf(),
                start <= i <= next_index,
                start == scan_start(next_index),
                next_index == self.next(),
                !scan_has_valid(self.entries(), start as int, i as int),
            decreases next_index - i,
        {
            if self.table[i % PROCESS_NUM].valid {
                assert(self.entries()[(i as int) % (PROCESS_NUM as int)].valid);
                return true;
            }
            proof {
                assert forall|q: int| start <= q < i + 1 implies !#[trigger] self.entries()[q % (
                PROCESS_NUM as int)].valid by {
                    if q < i {
                        assert(!scan_has_valid(self.entries(), start as int, i as int));
                    }
                }
            }
            i += 1;
        }
        false
    }

    /// The valid process of the highest priority (smallest number).
    ///
    /// The table is scanned from position `next_index - PROCESS_NUM` (or 0)
    /// up to `next_index`, position `p` reading entry `p % PROCESS_NUM`. When
    /// `current_process` is one of the processes of the highest priority it is
    /// returned; otherwise the first of them in scan order.
    pub fn highest_prio_process(&self, current_process: usize) -> (r: usize)
        requires
            self.wf(),
            scan_has_valid(self.entries(), scan_start(self.next()), self.next() as int),
        ensures
            r == pick_process(self.entries(), self.next(), current_process),
    {
        let next_index = self.next_index;
        let start: usize = if next_index >= PROCESS_NUM {
            next_index - PROCESS_NUM
        } else {
            0
        };
        let end = next_index;
        let ghost t = self.table@;
        let mut highest_prio: isize = isize::MAX;
        let mut processes = IndexList::new();
        let mut i: usize = start;
        while i < end
            invariant
                self.wf(),
                t == self.table@,
                start <= i <= end,
                start == scan_start(next_index),
                end == next_index,
                next_index == self.next(),
                highest_prio == scan_min(t, start as int, i as int),
                processes@ == scan_ties(t, start as int, i as int, highest_prio),
                processes@.len() <= i - start,
                end - start <= PROCESS_NUM,
            decreases end - i,
        {
            let idx = i % PROCESS_NUM;
            let e = self.table[idx];
            if e.valid {
                let prio = e.highest_prio;
                if prio < highest_prio {
                    proof {
                        lemma_scan_ties_below_min(t, start as int, i as int, prio);
                    }
                    highest_prio = prio;
                    processes = IndexList::from_one(idx);
                } else if prio == highest_prio {
                    let _ = processes.push(idx);
                }
            }
            i += 1;
        }
        proof {
            lemma_scan_ties_nonempty(t, start as int, end as int);
        }
        if processes.contains(current_process) {
            current_process
        } else {
            processes.get(0)
        }
    }
}

/// `register_process` hands out only free numbers, and fails only when
/// every number is taken.
pub proof fn law_register_takes_free(t: Seq<ProcessInfo>, next: usize)
    requires
        t.len() == PROCESS_NUM,
    ensures
        ({
            let s = next % PROCESS_NUM;
            let k = free_offset(t, s as int, 0);
            &&& k < PROCESS_NUM ==> !t[(s + k) % (PROCESS_NUM as int)].valid
            &&& k == PROCESS_NUM <==> forall|i: int| 0 <= i < PROCESS_NUM ==> #[trigger] t[i].valid
        }),
{
    let s = next % PROCESS_NUM;
    lemma_free_offset(t, s as int, 0);
    let k = free_offset(t, s as int, 0);
    if k == PROCESS_NUM {
        assert forall|i: int| 0 <= i < PROCESS_NUM implies #[trigger] t[i].valid by {
            let j = if i >= s { i - s } else { i + PROCESS_NUM - s };
            assert((s + j) % (PROCESS_NUM as int) == i) by {
                if i < s {
                    vstd::arithmetic::div_mod::lemma_mod_add_multiples_vanish(i, 256);
                }
                vstd::arithmetic::div_mod::lemma_small_mod(i as nat, 256);
            }
            assert(t[(s + j) % (PROCESS_NUM as int)].valid);
        }
    } else {
        let i = (s + k) % (PROCESS_NUM as int);
        assert(!t[i].valid);
    }
}

/// Giving back a number that `register_process` just handed out restores the
/// entries as they were.
pub proof fn law_register_unregister(t: Seq<ProcessInfo>, i: int)
    requires
        0 <= i < t.len(),
        !t[i].valid,
    ensures
        t.update(i, taken(t[i])).update(i, released(t.update(i, taken(t[i]))[i])) == t,
{
    assert(t.update(i, taken(t[i])).update(i, released(t.update(i, taken(t[i]))[i])) =~= t);
}

/// `highest_prio_process` picks a valid process of the highest priority
/// (smallest number) among those scanned, and keeps the current process when
/// it is one of them.
pub proof fn law_pick_highest(t: Seq<ProcessInfo>, next_index: usize, current: usize)
    requires
        t.len() == PROCESS_NUM,
        scan_has_valid(t, scan_start(next_index), next_index as int),
    ensures
        ({
            let start = scan_start(next_index);
            let r = pick_process(t, next_index, current);
            &&& 0 <= r < PROCESS_NUM
            &&& t[r as int].valid
            &&& t[r as int].highest_prio == scan_min(t, start, next_index as int)
            &&& forall|q: int|
                start <= q < next_index && #[trigger] t[q % (PROCESS_NUM as int)].valid ==> t[q
                    % (PROCESS_NUM as int)].highest_prio >= t[r as int].highest_prio
        }),
{
    let start = scan_start(next_index);
    let m = scan_min(t, start, next_index as int);
    lemma_scan_ties_nonempty(t, start, next_index as int);
    lemma_scan_ties_members(t, start, next_index as int, m);
    lemma_scan_min_bound(t, start, next_index as int);
}

/// Every tie is a valid entry of that priority.
proof fn lemma_scan_ties_members(t: Seq<ProcessInfo>, start: int, p: int, m: isize)
    requires
        t.len() == PROCESS_NUM,
    ensures
        forall|j: int|
            0 <= j < scan_ties(t, start, p, m).len() ==> {
                let i = #[trigger] scan_ties(t, start, p, m)[j];
                &&& i < PROCESS_NUM
                &&& t[i as int].valid
                &&& t[i as int].highest_prio == m
            },
    decreases p - start,
{
    if p > start {
        lemma_scan_ties_members(t, start, p - 1, m);
        let prev = scan_ties(t, start, p - 1, m);
        assert forall|j: int| 0 <= j < scan_ties(t, start, p, m).len() implies {
            let i = #[trigger] scan_ties(t, start, p, m)[j];
            &&& i < PROCESS_NUM
            &&& t[i as int].valid
            &&& t[i as int].highest_prio == m
        } by {
            if j < prev.len() {
                assert(scan_ties(t, start, p, m)[j] == prev[j]);
            }
        }
    }
}

/// `scan_min` bounds every valid scanned priority.
proof fn lemma_scan_min_bound(t: Seq<ProcessInfo>, start: int, p: int)
    ensures
        forall|q: int|
            start <= q < p && #[trigger] t[q % (PROCESS_NUM as int)].valid ==> t[q % (
            PROCESS_NUM as int)].highest_prio >= scan_min(t, start, p),
    decreases p - start,
{
    if p > start {
        lemma_scan_min_bound(t, start, p - 1);
    }
}


/// Every valid entry of `t` lies in the scan window of
/// `highest_prio_process` for counter `next`: once the counter reaches
/// `PROCESS_NUM` the window covers the whole table; before, no number at or
/// above the counter has been handed out.
pub open spec fn scan_covers(t: Seq<ProcessInfo>, next: usize) -> bool {
    next >= PROCESS_NUM || forall|i: int| next <= i < PROCESS_NUM ==> !#[trigger] t[i].valid
}

/// `d` increments of `x` that do not wrap add up.
proof fn lemma_advance_no_wrap(x: usize, d: nat)
    requires
        x + d <= usize::MAX,
    ensures
        advance(x, d) == x + d,
    decreases d,
{
    if d > 0 {
        lemma_advance_no_wrap(x, (d - 1) as nat);
    }
}

/// In a covered table, each valid entry is read at some scan position.
proof fn lemma_scanned(t: Seq<ProcessInfo>, next: usize, i: int)
    requires
        t.len() == PROCESS_NUM,
        scan_covers(t, next),
        0 <= i < PROCESS_NUM,
        t[i].valid,
    ensures
        exists|q: int| scan_start(next) <= q < next && #[trigger] (q % (PROCESS_NUM as int)) == i,
{
    let n = PROCESS_NUM as int;
    if next < PROCESS_NUM {
        vstd::arithmetic::div_mod::lemma_small_mod(i as nat, n as nat);
        assert(scan_start(next) <= i < next && i % n == i);
    } else {
        let start = next - n;
        let d = (i - start) % n;
        vstd::arithmetic::div_mod::lemma_mod_bound(i - start, n);
        vstd::arithmetic::div_mod::lemma_add_mod_noop_right(start, i - start, n);
        vstd::arithmetic::div_mod::lemma_small_mod(i as nat, n as nat);
        assert((start + d) % n == i);
        assert(scan_start(next) <= start + d < next);
    }
}

/// Registering a process keeps every valid entry in the scan window, as
/// long as the counter does not wrap round `usize::MAX`.
pub proof fn law_register_keeps_cover(old: ProcessInfoTable, new: ProcessInfoTable, r: Option<usize>)
    requires
        old.wf(),
        ProcessInfoTable::register_post(old, new, r),
        scan_covers(old.entries(), old.next()),
        old.next() + PROCESS_NUM + 1 <= usize::MAX,
    ensures
        scan_covers(new.entries(), new.next()),
{
    let n = PROCESS_NUM as int;
    let s = old.next() % PROCESS_NUM;
    let k = free_offset(old.entries(), s as int, 0);
    lemma_free_offset(old.entries(), s as int, 0);
    if k < PROCESS_NUM {
        lemma_advance_no_wrap(old.next(), (k + 1) as nat);
        if new.next() < PROCESS_NUM {
            vstd::arithmetic::div_mod::lemma_small_mod(old.next() as nat, n as nat);
            vstd::arithmetic::div_mod::lemma_small_mod((s + k) as nat, n as nat);
            assert forall|i: int| new.next() <= i < PROCESS_NUM implies !#[trigger] new.entries()[i].valid by {
                assert(new.entries()[i] == old.entries()[i]);
            }
        }
    } else {
        lemma_advance_no_wrap(old.next(), (PROCESS_NUM + 1) as nat);
    }
}

/// Giving a number back keeps every valid entry in the scan window.
pub proof fn law_unregister_keeps_cover(t: Seq<ProcessInfo>, next: usize, index: int)
    requires
        t.len() == PROCESS_NUM,
        0 <= index < PROCESS_NUM,
        scan_covers(t, next),
    ensures
        scan_covers(t.update(index, released(t[index])), next),
{
}

/// In a table whose valid entries all lie in the scan window (as in one
/// built by registrations from the start-up table, see
/// [`law_register_keeps_cover`]), `highest_prio_process` picks a valid
/// process whose priority is the best among all valid processes.
pub proof fn law_pick_best_of_all(t: Seq<ProcessInfo>, next: usize, current: usize, some: int)
    requires
        t.len() == PROCESS_NUM,
        scan_covers(t, next),
        0 <= some < PROCESS_NUM,
        t[some].valid,
    ensures
        scan_has_valid(t, scan_start(next), next as int),
        ({
            let r = pick_process(t, next, current);
            &&& r < PROCESS_NUM
            &&& t[r as int].valid
            &&& forall|i: int|
                0 <= i < PROCESS_NUM && #[trigger] t[i].valid ==> t[i].highest_prio >= t[r as int].highest_prio
        }),
{
    lemma_scanned(t, next, some);
    let q0 = choose|q: int| scan_start(next) <= q < next && #[trigger] (q % (PROCESS_NUM as int)) == some;
    assert(t[q0 % (PROCESS_NUM as int)].valid);
    law_pick_highest(t, next, current);
    let r = pick_process(t, next, current);
    assert forall|i: int|
        0 <= i < PROCESS_NUM && #[trigger] t[i].valid implies t[i].highest_prio >= t[r as int].highest_prio by {
        lemma_scanned(t, next, i);
        let q = choose|q: int| scan_start(next) <= q < next && #[trigger] (q % (PROCESS_NUM as int)) == i;
        assert(t[q % (PROCESS_NUM as int)].valid);
    }
}

} // verus!
