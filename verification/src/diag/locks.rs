//! How often locks are taken, and how long they are waited for and held. Locks
//! that are taken very often are only timed now and then.
use vstd::prelude::*;

use crate::diag::groups::Tally;
use crate::diag::notes::{greater, greater_of, CPU_SLOTS};

verus! {

/// How many classes of locks there are.
pub const LOCK_SLOTS: usize = 11;

/// How many of them are taken very often.
pub const HOT_LOCK_SLOTS: usize = 6;

/// Locks that are taken very often are timed once in so many times.
pub const SAMPLE_PERIOD: usize = 1024;

/// The number of bits by which samples are fewer.
pub const SAMPLE_SHIFT: usize = 10;

/// How many reasons there are to take the lock of an address space.
pub const SITE_SLOTS: usize = 16;

/// How many owners of such a lock are told apart: the reasons, and unknown.
pub const OWNER_SLOTS: usize = 17;

/// How many classes of sizes of heap blocks there are.
pub const HEAP_BUCKETS: usize = 11;

/// How many kinds of work are timed.
pub const WORK_SLOTS: usize = 21;

/// What a lock protects.
#[derive(Clone, Copy, PartialEq, Eq, Structural, Debug)]
pub enum LockClass {
    Vfs,
    Ext4,
    BlockCache,
    Virtio,
    TaskManager,
    WaitQueue,
    FrameAllocator,
    Heap,
    MemorySet,
    MemorySetActivation,
    FdTable,
}

/// Why the lock of an address space is taken.
#[derive(Clone, Copy, PartialEq, Eq, Structural, Debug)]
pub enum MemorySetLockSite {
    Other,
    UserEntryActivation,
    HardwarePageFault,
    UserCopyRead,
    UserCopyWrite,
    Brk,
    MmapSelect,
    MmapCommit,
    Mprotect,
    Munmap,
    FileInvalidate,
    FileWriteback,
    SharedMemory,
    ForkCow,
    ExecReplace,
    Futex,
}

impl LockClass {
    /// The place of a class.
    pub open spec fn place(self) -> usize {
        match self {
            LockClass::Vfs => 0,
            LockClass::Ext4 => 1,
            LockClass::BlockCache => 2,
            LockClass::Virtio => 3,
            LockClass::TaskManager => 4,
            LockClass::WaitQueue => 5,
            LockClass::FrameAllocator => 6,
            LockClass::Heap => 7,
            LockClass::MemorySet => 8,
            LockClass::MemorySetActivation => 9,
            LockClass::FdTable => 10,
        }
    }

    /// The place of a class.
    pub fn slot(self) -> (r: usize)
        ensures
            r == self.place(),
            r < LOCK_SLOTS,
    {
        match self {
            LockClass::Vfs => 0,
            LockClass::Ext4 => 1,
            LockClass::BlockCache => 2,
            LockClass::Virtio => 3,
            LockClass::TaskManager => 4,
            LockClass::WaitQueue => 5,
            LockClass::FrameAllocator => 6,
            LockClass::Heap => 7,
            LockClass::MemorySet => 8,
            LockClass::MemorySetActivation => 9,
            LockClass::FdTable => 10,
        }
    }
}

/// The place of a class among those that are taken very often.
pub open spec fn hot_place(slot: usize) -> Option<usize> {
    if slot == LockClass::Heap.place() {
        Some(0)
    } else if slot == LockClass::MemorySet.place() {
        Some(1)
    } else if slot == LockClass::MemorySetActivation.place() {
        Some(2)
    } else if slot == LockClass::TaskManager.place() {
        Some(3)
    } else if slot == LockClass::FrameAllocator.place() {
        Some(4)
    } else if slot == LockClass::BlockCache.place() {
        Some(5)
    } else {
        None
    }
}

/// The place of a class among those that are taken very often.
pub fn hot_lock_slot(slot: usize) -> (r: Option<usize>)
    ensures
        r == hot_place(slot),
        r is Some ==> r->0 < HOT_LOCK_SLOTS,
{
    if slot == 7 {
        Some(0)
    } else if slot == 8 {
        Some(1)
    } else if slot == 9 {
        Some(2)
    } else if slot == 4 {
        Some(3)
    } else if slot == 6 {
        Some(4)
    } else if slot == 2 {
        Some(5)
    } else {
        None
    }
}

impl MemorySetLockSite {
    /// The place of a reason.
    pub open spec fn place(self) -> usize {
        match self {
            MemorySetLockSite::Other => 0,
            MemorySetLockSite::UserEntryActivation => 1,
            MemorySetLockSite::HardwarePageFault => 2,
            MemorySetLockSite::UserCopyRead => 3,
            MemorySetLockSite::UserCopyWrite => 4,
            MemorySetLockSite::Brk => 5,
            MemorySetLockSite::MmapSelect => 6,
            MemorySetLockSite::MmapCommit => 7,
            MemorySetLockSite::Mprotect => 8,
            MemorySetLockSite::Munmap => 9,
            MemorySetLockSite::FileInvalidate => 10,
            MemorySetLockSite::FileWriteback => 11,
            MemorySetLockSite::SharedMemory => 12,
            MemorySetLockSite::ForkCow => 13,
            MemorySetLockSite::ExecReplace => 14,
            MemorySetLockSite::Futex => 15,
        }
    }

    /// The place of a reason.
    pub fn slot(self) -> (r: usize)
        ensures
            r == self.place(),
            r < SITE_SLOTS,
    {
        match self {
            MemorySetLockSite::Other => 0,
            MemorySetLockSite::UserEntryActivation => 1,
            MemorySetLockSite::HardwarePageFault => 2,
            MemorySetLockSite::UserCopyRead => 3,
            MemorySetLockSite::UserCopyWrite => 4,
            MemorySetLockSite::Brk => 5,
            MemorySetLockSite::MmapSelect => 6,
            MemorySetLockSite::MmapCommit => 7,
            MemorySetLockSite::Mprotect => 8,
            MemorySetLockSite::Munmap => 9,
            MemorySetLockSite::FileInvalidate => 10,
            MemorySetLockSite::FileWriteback => 11,
            MemorySetLockSite::SharedMemory => 12,
            MemorySetLockSite::ForkCow => 13,
            MemorySetLockSite::ExecReplace => 14,
            MemorySetLockSite::Futex => 15,
        }
    }
}

/// The class of the size of a heap block.
pub open spec fn heap_class(size: usize) -> usize {
    if size <= 16 {
        0
    } else if size <= 32 {
        1
    } else if size <= 64 {
        2
    } else if size <= 128 {
        3
    } else if size <= 256 {
        4
    } else if size <= 512 {
        5
    } else if size <= 1024 {
        6
    } else if size <= 2048 {
        7
    } else if size <= 4096 {
        8
    } else if size <= 65536 {
        9
    } else {
        10
    }
}

/// The class of the size of a heap block, by the next power of two.
pub fn heap_size_bucket(size: usize) -> (r: usize)
    ensures
        r == heap_class(size),
        r < HEAP_BUCKETS,
{
    if size <= 16 {
        0
    } else if size <= 32 {
        1
    } else if size <= 64 {
        2
    } else if size <= 128 {
        3
    } else if size <= 256 {
        4
    } else if size <= 512 {
        5
    } else if size <= 1024 {
        6
    } else if size <= 2048 {
        7
    } else if size <= 4096 {
        8
    } else if size <= 65536 {
        9
    } else {
        10
    }
}

/// What is counted of a lock.
#[derive(Clone, Copy, PartialEq, Eq, Structural, Debug)]
pub struct LockCounts {
    pub acquires: usize,
    pub contended: usize,
    pub wait_total_us: usize,
    pub wait_max_us: usize,
    pub hold_total_us: usize,
    pub hold_max_us: usize,
}

impl LockCounts {
    /// Nothing has been counted.
    pub open spec fn nothing() -> LockCounts {
        LockCounts {
            acquires: 0,
            contended: 0,
            wait_total_us: 0,
            wait_max_us: 0,
            hold_total_us: 0,
            hold_max_us: 0,
        }
    }

    /// The counts once the lock was waited for.
    pub open spec fn waited(self, us: usize) -> LockCounts {
        LockCounts {
            contended: self.contended.wrapping_add(1),
            wait_total_us: self.wait_total_us.wrapping_add(us),
            wait_max_us: greater(self.wait_max_us, us),
            ..self
        }
    }

    /// The counts once the lock was held.
    pub open spec fn held(self, us: usize) -> LockCounts {
        LockCounts {
            hold_total_us: self.hold_total_us.wrapping_add(us),
            hold_max_us: greater(self.hold_max_us, us),
            ..self
        }
    }

    fn add_wait(self, us: usize) -> (r: Self)
        ensures
            r == self.waited(us),
    {
        LockCounts {
            contended: self.contended.wrapping_add(1),
            wait_total_us: self.wait_total_us.wrapping_add(us),
            wait_max_us: greater_of(self.wait_max_us, us),
            ..self
        }
    }

    fn add_hold(self, us: usize) -> (r: Self)
        ensures
            r == self.held(us),
    {
        LockCounts {
            hold_total_us: self.hold_total_us.wrapping_add(us),
            hold_max_us: greater_of(self.hold_max_us, us),
            ..self
        }
    }
}

/// Whether a table has so many rows, each with so many cells.
pub open spec fn is_grid(g: Seq<Vec<usize>>, rows: int, cells: int) -> bool {
    g.len() == rows && forall|i: int| 0 <= i < g.len() ==> (#[trigger] g[i])@.len() == cells
}

/// Whether all that has changed in a table is that a cell is greater.
pub open spec fn raised(
    now: Seq<Vec<usize>>,
    was: Seq<Vec<usize>>,
    row: int,
    cell: int,
    by: usize,
) -> bool {
    &&& now.len() == was.len()
    &&& forall|i: int| 0 <= i < was.len() && i != row ==> #[trigger] now[i] == was[i]
    &&& now[row]@ == was[row]@.update(cell, was[row]@[cell].wrapping_add(by))
}

/// The same, or nothing has changed.
pub open spec fn raised_if(
    now: Seq<Vec<usize>>,
    was: Seq<Vec<usize>>,
    b: bool,
    row: int,
    cell: int,
    by: usize,
) -> bool {
    if b {
        raised(now, was, row, cell, by)
    } else {
        now == was
    }
}

fn raise(g: &mut Vec<Vec<usize>>, row: usize, cell: usize, by: usize, Ghost(rows): Ghost<int>, Ghost(
    cells,
): Ghost<int>) -> (was: usize)
    requires
        is_grid(old(g)@, rows, cells),
        row < rows,
        cell < cells,
    ensures
        is_grid(final(g)@, rows, cells),
        raised(final(g)@, old(g)@, row as int, cell as int, by),
        was == old(g)@[row as int]@[cell as int],
{
    let ghost start = g@;
    let mut line = g.remove(row);
    assert(line@.len() == cells);
    let was: usize = line[cell];
    line.set(cell, was.wrapping_add(by));
    let ghost changed = line;
    g.insert(row, line);
    assert(g@ =~= start.update(row as int, changed));
    was
}

fn grid(rows: usize, cells: usize) -> (g: Vec<Vec<usize>>)
    ensures
        is_grid(g@, rows as int, cells as int),
        forall|i: int, j: int|
            0 <= i < rows && 0 <= j < cells ==> #[trigger] g@[i]@[j] == 0,
{
    let mut g: Vec<Vec<usize>> = Vec::new();
    while g.len() < rows
        invariant
            g@.len() <= rows,
            is_grid(g@, g@.len() as int, cells as int),
            forall|i: int, j: int|
                0 <= i < g@.len() && 0 <= j < cells ==> #[trigger] g@[i]@[j] == 0,
        decreases rows - g@.len(),
    {
        let mut line: Vec<usize> = Vec::new();
        while line.len() < cells
            invariant
                line@.len() <= cells,
                forall|j: int| 0 <= j < line@.len() ==> #[trigger] line@[j] == 0,
            decreases cells - line@.len(),
        {
            line.push(0);
        }
        g.push(line);
    }
    g
}

/// The sum of the first `n` cells of a row, as far as it can be counted.
pub open spec fn row_sum(row: Seq<usize>, n: nat) -> usize
    decreases n,
{
    if n == 0 {
        0
    } else {
        row_sum(row, (n - 1) as nat).wrapping_add(row[n - 1])
    }
}

/// The sum of a row.
pub fn sum_of(row: &Vec<usize>) -> (r: usize)
    ensures
        r == row_sum(row@, row@.len()),
{
    let mut sum: usize = 0;
    let mut i: usize = 0;
    while i < row.len()
        invariant
            0 <= i <= row@.len(),
            sum == row_sum(row@, i as nat),
        decreases row@.len() - i,
    {
        sum = sum.wrapping_add(row[i]);
        i = i + 1;
    }
    sum
}

/// Every cell of a grid is zero.
pub open spec fn is_blank(g: Seq<Vec<usize>>, cells: int) -> bool {
    forall|i: int, j: int| 0 <= i < g.len() && 0 <= j < cells ==> #[trigger] g[i]@[j] == 0
}

/// What is counted of all locks.
pub struct LockTable {
    pub counts: Vec<LockCounts>,
    pub hot: Vec<Vec<usize>>,
    pub hot_samples: Vec<usize>,
    pub sites: Vec<LockCounts>,
    pub site_acquires: Vec<Vec<usize>>,
    pub owner_mutex: Vec<usize>,
    pub owner_site: Vec<Option<usize>>,
    pub pairs: Vec<Vec<usize>>,
    pub heap_allocs: Vec<Vec<usize>>,
    pub heap_alloc_bytes: Vec<Vec<usize>>,
    pub heap_frees: Vec<Vec<usize>>,
    pub heap_free_bytes: Vec<Vec<usize>>,
}

impl LockTable {
    /// There is a place for everything.
    pub open spec fn wf(&self) -> bool {
        &&& self.counts@.len() == LOCK_SLOTS
        &&& is_grid(self.hot@, HOT_LOCK_SLOTS as int, CPU_SLOTS as int)
        &&& self.hot_samples@.len() == HOT_LOCK_SLOTS
        &&& self.sites@.len() == SITE_SLOTS
        &&& is_grid(self.site_acquires@, SITE_SLOTS as int, CPU_SLOTS as int)
        &&& self.owner_mutex@.len() == CPU_SLOTS
        &&& self.owner_site@.len() == CPU_SLOTS
        &&& is_grid(self.pairs@, SITE_SLOTS as int, OWNER_SLOTS as int)
        &&& is_grid(self.heap_allocs@, HEAP_BUCKETS as int, CPU_SLOTS as int)
        &&& is_grid(self.heap_alloc_bytes@, HEAP_BUCKETS as int, CPU_SLOTS as int)
        &&& is_grid(self.heap_frees@, HEAP_BUCKETS as int, CPU_SLOTS as int)
        &&& is_grid(self.heap_free_bytes@, HEAP_BUCKETS as int, CPU_SLOTS as int)
    }

    /// Nothing has been counted.
    pub fn new() -> (r: Self)
        ensures
            r.wf(),
            forall|i: int| 0 <= i < LOCK_SLOTS ==> #[trigger] r.counts@[i] == LockCounts::nothing(),
            forall|i: int| 0 <= i < SITE_SLOTS ==> #[trigger] r.sites@[i] == LockCounts::nothing(),
            forall|i: int| 0 <= i < HOT_LOCK_SLOTS ==> #[trigger] r.hot_samples@[i] == 0,
            forall|i: int| 0 <= i < CPU_SLOTS ==> #[trigger] r.owner_mutex@[i] == 0,
            forall|i: int| 0 <= i < CPU_SLOTS ==> #[trigger] r.owner_site@[i] is None,
            is_blank(r.hot@, CPU_SLOTS as int),
            is_blank(r.site_acquires@, CPU_SLOTS as int),
            is_blank(r.pairs@, OWNER_SLOTS as int),
            is_blank(r.heap_allocs@, CPU_SLOTS as int),
            is_blank(r.heap_alloc_bytes@, CPU_SLOTS as int),
            is_blank(r.heap_frees@, CPU_SLOTS as int),
            is_blank(r.heap_free_bytes@, CPU_SLOTS as int),
    {
        let none = LockCounts {
            acquires: 0,
            contended: 0,
            wait_total_us: 0,
            wait_max_us: 0,
            hold_total_us: 0,
            hold_max_us: 0,
        };
        let mut counts: Vec<LockCounts> = Vec::new();
        while counts.len() < LOCK_SLOTS
            invariant
                counts@.len() <= LOCK_SLOTS,
                none == LockCounts::nothing(),
                forall|i: int|
                    0 <= i < counts@.len() ==> #[trigger] counts@[i] == LockCounts::nothing(),
            decreases LOCK_SLOTS - counts@.len(),
        {
            counts.push(none);
        }
        let mut sites: Vec<LockCounts> = Vec::new();
        while sites.len() < SITE_SLOTS
            invariant
                sites@.len() <= SITE_SLOTS,
                none == LockCounts::nothing(),
                forall|i: int|
                    0 <= i < sites@.len() ==> #[trigger] sites@[i] == LockCounts::nothing(),
            decreases SITE_SLOTS - sites@.len(),
        {
            sites.push(none);
        }
        let mut hot_samples: Vec<usize> = Vec::new();
        while hot_samples.len() < HOT_LOCK_SLOTS
            invariant
                hot_samples@.len() <= HOT_LOCK_SLOTS,
                forall|i: int| 0 <= i < hot_samples@.len() ==> #[trigger] hot_samples@[i] == 0,
            decreases HOT_LOCK_SLOTS - hot_samples@.len(),
        {
            hot_samples.push(0);
        }
        let mut owner_mutex: Vec<usize> = Vec::new();
        let mut owner_site: Vec<Option<usize>> = Vec::new();
        while owner_mutex.len() < CPU_SLOTS
            invariant
                owner_mutex@.len() <= CPU_SLOTS,
                owner_mutex@.len() == owner_site@.len(),
                forall|i: int| 0 <= i < owner_mutex@.len() ==> #[trigger] owner_mutex@[i] == 0,
                forall|i: int| 0 <= i < owner_site@.len() ==> #[trigger] owner_site@[i] is None,
            decreases CPU_SLOTS - owner_mutex@.len(),
        {
            owner_mutex.push(0);
            owner_site.push(None);
        }
        LockTable {
            counts,
            hot: grid(HOT_LOCK_SLOTS, CPU_SLOTS),
            hot_samples,
            sites,
            site_acquires: grid(SITE_SLOTS, CPU_SLOTS),
            owner_mutex,
            owner_site,
            pairs: grid(SITE_SLOTS, OWNER_SLOTS),
            heap_allocs: grid(HEAP_BUCKETS, CPU_SLOTS),
            heap_alloc_bytes: grid(HEAP_BUCKETS, CPU_SLOTS),
            heap_frees: grid(HEAP_BUCKETS, CPU_SLOTS),
            heap_free_bytes: grid(HEAP_BUCKETS, CPU_SLOTS),
        }
    }

    /// Whether a lock that is taken now is timed: each one that is taken seldom,
    /// and of the others one in so many.
    pub open spec fn is_timed(&self, class: LockClass, cpu: usize) -> bool {
        match hot_place(class.place()) {
            Some(h) => self.hot@[h as int]@[cpu as int] % SAMPLE_PERIOD == 0,
            None => true,
        }
    }

    /// Counts that a lock is about to be taken, and says whether it is timed.
    /// Of the lock of the heap it is told how large a block is wanted or given
    /// back.
    pub fn begin_lock(
        &mut self,
        class: LockClass,
        site: Option<MemorySetLockSite>,
        heap: Option<(usize, bool)>,
        cpu: usize,
    ) -> (sampled: bool)
        requires
            old(self).wf(),
            cpu < CPU_SLOTS,
        ensures
            final(self).wf(),
            sampled == old(self).is_timed(class, cpu),
            *final(self) == (LockTable {
                counts: final(self).counts,
                hot: final(self).hot,
                site_acquires: final(self).site_acquires,
                heap_allocs: final(self).heap_allocs,
                heap_alloc_bytes: final(self).heap_alloc_bytes,
                heap_frees: final(self).heap_frees,
                heap_free_bytes: final(self).heap_free_bytes,
                ..*old(self)
            }),
            match hot_place(class.place()) {
                Some(h) => final(self).counts == old(self).counts && raised(
                    final(self).hot@,
                    old(self).hot@,
                    h as int,
                    cpu as int,
                    1,
                ),
                None => final(self).hot == old(self).hot && ({
                    let c = old(self).counts@[class.place() as int];
                    final(self).counts@ == old(self).counts@.update(
                        class.place() as int,
                        LockCounts { acquires: c.acquires.wrapping_add(1), ..c },
                    )
                }),
            },
            raised_if(
                final(self).site_acquires@,
                old(self).site_acquires@,
                site is Some,
                site->0.place() as int,
                cpu as int,
                1,
            ),
            ({
                let alloc = sampled && heap is Some && heap->Some_0.1;
                let free = sampled && heap is Some && !heap->Some_0.1;
                let size = heap->Some_0.0;
                let bucket = heap_class(size) as int;
                &&& raised_if(
                    final(self).heap_allocs@,
                    old(self).heap_allocs@,
                    alloc,
                    bucket,
                    cpu as int,
                    1,
                )
                &&& raised_if(
                    final(self).heap_alloc_bytes@,
                    old(self).heap_alloc_bytes@,
                    alloc,
                    bucket,
                    cpu as int,
                    size,
                )
                &&& raised_if(
                    final(self).heap_frees@,
                    old(self).heap_frees@,
                    free,
                    bucket,
                    cpu as int,
                    1,
                )
                &&& raised_if(
                    final(self).heap_free_bytes@,
                    old(self).heap_free_bytes@,
                    free,
                    bucket,
                    cpu as int,
                    size,
                )
            }),
    {
        let slot: usize = class.slot();
        let sampled = match hot_lock_slot(slot) {
            Some(h) => {
                let count: usize = raise(
                    &mut self.hot,
                    h,
                    cpu,
                    1,
                    Ghost(HOT_LOCK_SLOTS as int),
                    Ghost(CPU_SLOTS as int),
                );
                count % SAMPLE_PERIOD == 0
            },
            None => {
                let mut c = self.counts[slot];
                c.acquires = c.acquires.wrapping_add(1);
                self.counts.set(slot, c);
                true
            },
        };
        match site {
            Some(site) => {
                let _ = raise(
                    &mut self.site_acquires,
                    site.slot(),
                    cpu,
                    1,
                    Ghost(SITE_SLOTS as int),
                    Ghost(CPU_SLOTS as int),
                );
            },
            None => {},
        }
        if sampled {
            match heap {
                None => {},
                Some((size, allocation)) => {
                    let bucket: usize = heap_size_bucket(size);
                    if allocation {
                        let _ = raise(
                            &mut self.heap_allocs,
                            bucket,
                            cpu,
                            1,
                            Ghost(HEAP_BUCKETS as int),
                            Ghost(CPU_SLOTS as int),
                        );
                        let _ = raise(
                            &mut self.heap_alloc_bytes,
                            bucket,
                            cpu,
                            size,
                            Ghost(HEAP_BUCKETS as int),
                            Ghost(CPU_SLOTS as int),
                        );
                    } else {
                        let _ = raise(
                            &mut self.heap_frees,
                            bucket,
                            cpu,
                            1,
                            Ghost(HEAP_BUCKETS as int),
                            Ghost(CPU_SLOTS as int),
                        );
                        let _ = raise(
                            &mut self.heap_free_bytes,
                            bucket,
                            cpu,
                            size,
                            Ghost(HEAP_BUCKETS as int),
                            Ghost(CPU_SLOTS as int),
                        );
                    }
                },
            }
        }
        sampled
    }

    /// Counts that a lock has been taken, and for how long it was waited for if
    /// another had it. Who takes the lock of an address space is noted.
    pub fn lock_acquired(
        &mut self,
        class: LockClass,
        site: Option<MemorySetLockSite>,
        cpu: usize,
        mutex_addr: usize,
        sampled: bool,
        waited: Option<usize>,
    )
        requires
            old(self).wf(),
            cpu < CPU_SLOTS,
        ensures
            final(self).wf(),
            *final(self) == (LockTable {
                counts: final(self).counts,
                hot_samples: final(self).hot_samples,
                sites: final(self).sites,
                owner_mutex: final(self).owner_mutex,
                owner_site: final(self).owner_site,
                ..*old(self)
            }),
            final(self).hot_samples@ == (match hot_place(class.place()) {
                Some(h) => if sampled {
                    old(self).hot_samples@.update(
                        h as int,
                        old(self).hot_samples@[h as int].wrapping_add(1),
                    )
                } else {
                    old(self).hot_samples@
                },
                None => old(self).hot_samples@,
            }),
            final(self).counts@ == (match waited {
                Some(us) => old(self).counts@.update(
                    class.place() as int,
                    old(self).counts@[class.place() as int].waited(us),
                ),
                None => old(self).counts@,
            }),
            final(self).sites@ == (if waited is Some && site is Some {
                old(self).sites@.update(
                    site->0.place() as int,
                    old(self).sites@[site->0.place() as int].waited(waited->0),
                )
            } else {
                old(self).sites@
            }),
            final(self).owner_mutex@ == (if site is Some {
                old(self).owner_mutex@.update(cpu as int, mutex_addr)
            } else {
                old(self).owner_mutex@
            }),
            final(self).owner_site@ == (if site is Some {
                old(self).owner_site@.update(cpu as int, Some(site->0.place()))
            } else {
                old(self).owner_site@
            }),
    {
        let slot: usize = class.slot();
        if sampled {
            match hot_lock_slot(slot) {
                Some(h) => {
                    let n: usize = self.hot_samples[h];
                    self.hot_samples.set(h, n.wrapping_add(1));
                },
                None => {},
            }
        }
        match waited {
            Some(us) => {
                let c = self.counts[slot];
                self.counts.set(slot, c.add_wait(us));
                match site {
                    Some(site) => {
                        let s: usize = site.slot();
                        let c = self.sites[s];
                        self.sites.set(s, c.add_wait(us));
                    },
                    None => {},
                }
            },
            None => {},
        }
        match site {
            Some(site) => {
                self.owner_site.set(cpu, Some(site.slot()));
                self.owner_mutex.set(cpu, mutex_addr);
            },
            None => {},
        }
    }

    /// Counts that a lock has been given back, and how long it was held if it
    /// was timed.
    pub fn lock_released(
        &mut self,
        class: LockClass,
        site: Option<MemorySetLockSite>,
        held: Option<usize>,
        owner_cpu: Option<usize>,
    )
        requires
            old(self).wf(),
            owner_cpu is Some ==> owner_cpu->0 < CPU_SLOTS,
        ensures
            final(self).wf(),
            *final(self) == (LockTable {
                counts: final(self).counts,
                sites: final(self).sites,
                owner_mutex: final(self).owner_mutex,
                owner_site: final(self).owner_site,
                ..*old(self)
            }),
            final(self).counts@ == (match held {
                Some(us) => old(self).counts@.update(
                    class.place() as int,
                    old(self).counts@[class.place() as int].held(us),
                ),
                None => old(self).counts@,
            }),
            final(self).sites@ == (if held is Some && site is Some {
                old(self).sites@.update(
                    site->0.place() as int,
                    old(self).sites@[site->0.place() as int].held(held->0),
                )
            } else {
                old(self).sites@
            }),
            final(self).owner_mutex@ == (if owner_cpu is Some {
                old(self).owner_mutex@.update(owner_cpu->0 as int, 0)
            } else {
                old(self).owner_mutex@
            }),
            final(self).owner_site@ == (if owner_cpu is Some {
                old(self).owner_site@.update(owner_cpu->0 as int, None)
            } else {
                old(self).owner_site@
            }),
    {
        let slot: usize = class.slot();
        match held {
            Some(us) => {
                let c = self.counts[slot];
                self.counts.set(slot, c.add_hold(us));
                match site {
                    Some(site) => {
                        let s: usize = site.slot();
                        let c = self.sites[s];
                        self.sites.set(s, c.add_hold(us));
                    },
                    None => {},
                }
            },
            None => {},
        }
        match owner_cpu {
            Some(cpu) => {
                self.owner_mutex.set(cpu, 0);
                self.owner_site.set(cpu, None);
            },
            None => {},
        }
    }

    /// Who has a lock, as far as the first `n` processors say: why it was taken,
    /// or that this is unknown.
    pub open spec fn owner_of(&self, mutex_addr: usize, from: int) -> usize
        decreases CPU_SLOTS - from,
    {
        if from >= CPU_SLOTS || from < 0 {
            SITE_SLOTS
        } else if self.owner_mutex@[from] == mutex_addr {
            match self.owner_site@[from] {
                Some(site) => if site < SITE_SLOTS {
                    site
                } else {
                    SITE_SLOTS
                },
                None => SITE_SLOTS,
            }
        } else {
            self.owner_of(mutex_addr, from + 1)
        }
    }

    /// Counts that the lock of an address space was waited for, and who had it.
    pub fn note_memory_set_owner_waiter_sample(
        &mut self,
        mutex_addr: usize,
        waiter_site: MemorySetLockSite,
    )
        requires
            old(self).wf(),
        ensures
            final(self).wf(),
            *final(self) == (LockTable { pairs: final(self).pairs, ..*old(self) }),
            raised(
                final(self).pairs@,
                old(self).pairs@,
                waiter_site.place() as int,
                old(self).owner_of(mutex_addr, 0) as int,
                1,
            ),
    {
        let mut owner: usize = SITE_SLOTS;
        let mut cpu: usize = 0;
        let mut found = false;
        while cpu < CPU_SLOTS && !found
            invariant
                self.wf(),
                *self == *old(self),
                0 <= cpu <= CPU_SLOTS,
                owner <= SITE_SLOTS,
                found ==> owner == self.owner_of(mutex_addr, 0),
                !found ==> owner == SITE_SLOTS && self.owner_of(mutex_addr, 0) == self.owner_of(
                    mutex_addr,
                    cpu as int,
                ),
            decreases CPU_SLOTS - cpu + (if found { 0int } else { 1 }),
        {
            if self.owner_mutex[cpu] == mutex_addr {
                match self.owner_site[cpu] {
                    Some(site) => {
                        if site < SITE_SLOTS {
                            owner = site;
                        }
                    },
                    None => {},
                }
                found = true;
            } else {
                cpu = cpu + 1;
            }
        }
        let _ = raise(
            &mut self.pairs,
            waiter_site.slot(),
            owner,
            1,
            Ghost(SITE_SLOTS as int),
            Ghost(OWNER_SLOTS as int),
        );
    }

    /// Counts that a lock was taken that is timed by others.
    pub fn note_lock_acquire(&mut self, class: LockClass, contended: bool, wait_us: usize)
        requires
            old(self).wf(),
        ensures
            final(self).wf(),
            *final(self) == (LockTable { counts: final(self).counts, ..*old(self) }),
            ({
                let c = old(self).counts@[class.place() as int];
                let taken = LockCounts { acquires: c.acquires.wrapping_add(1), ..c };
                final(self).counts@ == old(self).counts@.update(
                    class.place() as int,
                    if contended {
                        taken.waited(wait_us)
                    } else {
                        taken
                    },
                )
            }),
    {
        let slot: usize = class.slot();
        let mut c = self.counts[slot];
        c.acquires = c.acquires.wrapping_add(1);
        if contended {
            c = c.add_wait(wait_us);
        }
        self.counts.set(slot, c);
    }

    /// Counts for how long a lock was held that is timed by others.
    pub fn note_lock_hold(&mut self, class: LockClass, hold_us: usize)
        requires
            old(self).wf(),
        ensures
            final(self).wf(),
            *final(self) == (LockTable { counts: final(self).counts, ..*old(self) }),
            final(self).counts@ == old(self).counts@.update(
                class.place() as int,
                old(self).counts@[class.place() as int].held(hold_us),
            ),
    {
        let slot: usize = class.slot();
        let c = self.counts[slot];
        self.counts.set(slot, c.add_hold(hold_us));
    }

    /// How often locks of a class were taken.
    pub open spec fn taken(&self, slot: int) -> usize {
        match hot_place(slot as usize) {
            Some(h) => row_sum(self.hot@[h as int]@, CPU_SLOTS as nat),
            None => self.counts@[slot].acquires,
        }
    }

    /// How often locks of a class were taken.
    pub fn lock_acquire_count(&self, slot: usize) -> (r: usize)
        requires
            self.wf(),
            slot < LOCK_SLOTS,
        ensures
            r == self.taken(slot as int),
    {
        match hot_lock_slot(slot) {
            Some(h) => {
                assert(self.hot@[h as int]@.len() == CPU_SLOTS);
                sum_of(&self.hot[h])
            },
            None => self.counts[slot].acquires,
        }
    }

    /// How often the lock of an address space was taken for a reason.
    pub fn memory_set_site_acquire_count(&self, site: usize) -> (r: usize)
        requires
            self.wf(),
            site < SITE_SLOTS,
        ensures
            r == row_sum(self.site_acquires@[site as int]@, CPU_SLOTS as nat),
    {
        assert(self.site_acquires@[site as int]@.len() == CPU_SLOTS);
        sum_of(&self.site_acquires[site])
    }
}

/// What is counted of work that is timed now and then.
pub struct WorkTable {
    pub counts: Vec<Vec<usize>>,
    pub samples: Vec<Tally>,
}

impl WorkTable {
    /// There is a place for everything.
    pub open spec fn wf(&self) -> bool {
        is_grid(self.counts@, WORK_SLOTS as int, CPU_SLOTS as int) && self.samples@.len()
            == WORK_SLOTS
    }

    /// Nothing has been counted.
    pub fn new() -> (r: Self)
        ensures
            r.wf(),
            forall|i: int| 0 <= i < WORK_SLOTS ==> #[trigger] r.samples@[i] == Tally::nothing(),
            is_blank(r.counts@, CPU_SLOTS as int),
    {
        let mut samples: Vec<Tally> = Vec::new();
        while samples.len() < WORK_SLOTS
            invariant
                samples@.len() <= WORK_SLOTS,
                forall|i: int|
                    0 <= i < samples@.len() ==> #[trigger] samples@[i] == Tally::nothing(),
            decreases WORK_SLOTS - samples@.len(),
        {
            samples.push(Tally::new());
        }
        WorkTable { counts: grid(WORK_SLOTS, CPU_SLOTS), samples }
    }

    /// Counts that work begins, and says whether it is timed.
    pub fn begin_work(&mut self, slot: usize, cpu: usize) -> (sampled: bool)
        requires
            old(self).wf(),
            slot < WORK_SLOTS,
            cpu < CPU_SLOTS,
        ensures
            final(self).wf(),
            final(self).samples == old(self).samples,
            raised(final(self).counts@, old(self).counts@, slot as int, cpu as int, 1),
            sampled == (old(self).counts@[slot as int]@[cpu as int] % SAMPLE_PERIOD == 0),
    {
        let count: usize = raise(
            &mut self.counts,
            slot,
            cpu,
            1,
            Ghost(WORK_SLOTS as int),
            Ghost(CPU_SLOTS as int),
        );
        count % SAMPLE_PERIOD == 0
    }

    /// Counts how long work took that was timed.
    pub fn end_work(&mut self, slot: usize, elapsed_us: usize)
        requires
            old(self).wf(),
            slot < WORK_SLOTS,
        ensures
            final(self).wf(),
            final(self).counts == old(self).counts,
            final(self).samples@ == old(self).samples@.update(
                slot as int,
                old(self).samples@[slot as int].with(elapsed_us),
            ),
    {
        let mut tally = self.samples[slot];
        tally.note(elapsed_us);
        self.samples.set(slot, tally);
    }
}

/// Of any number of locks that are taken one after the other on a processor,
/// the first is timed and then one in so many.
pub proof fn samples_come_in_turn(count: usize)
    ensures
        count % SAMPLE_PERIOD == 0 && count <= usize::MAX - SAMPLE_PERIOD ==> (count
            + SAMPLE_PERIOD) % SAMPLE_PERIOD as int == 0 && forall|k: int|
            0 < k < SAMPLE_PERIOD ==> #[trigger] (count + k) % SAMPLE_PERIOD as int != 0,
        0usize % SAMPLE_PERIOD == 0,
{
    if count % SAMPLE_PERIOD == 0 && count <= usize::MAX - SAMPLE_PERIOD {
        assert forall|k: int| 0 < k < SAMPLE_PERIOD implies #[trigger] (count + k)
            % SAMPLE_PERIOD as int != 0 by {}
    }
}

} // verus!
