//! The caches beside an ext4 volume: files waiting for writing back, runs of
//! physical blocks, clean pages, executable images and resolved paths.
use std::collections::VecDeque;

use vstd::prelude::*;

use crate::aged::{Aged, AgedCache, AgedModel};
use crate::bytes::copy_of;
use crate::fs::ext4::types::Ext4NodeKind;
use crate::fs::path::{normalize_path, normalized};
use crate::intmap::IntMap;
use crate::textmap::{in_tree, TextMap};

verus! {

/// The length of a page.
pub const PAGE_SIZE: usize = 4096;

/// How many runs of physical blocks are remembered.
pub const PBLOCK_RUN_CACHE_LIMIT: usize = 2048;

/// How many bytes of executable images are kept.
pub const EXECUTABLE_IMAGE_CACHE_LIMIT: usize = 268435456;

/// How many clean pages are kept at least.
pub const CLEAN_PAGE_CACHE_MIN_PAGES: usize = 2048;

/// How many clean pages are kept at most.
pub const CLEAN_PAGE_CACHE_MAX_PAGES: usize = 65536;

/// Which part of the memory clean pages may take.
pub const CLEAN_PAGE_CACHE_MEMORY_DIVISOR: usize = 32;

/// How many paths that lead nowhere are remembered.
pub const NEGATIVE_PATH_CACHE_LIMIT: usize = 65536;

/// The inodes that wait for writing back. One that is taken off the queue
/// leaves its place in it, which is passed over later.
pub struct WritebackQueue {
    pending: VecDeque<u32>,
    queued: IntMap<()>,
}

/// A queue as a mathematical value.
pub struct QueueModel {
    pub pending: Seq<u32>,
    pub queued: Set<u32>,
}

impl QueueModel {
    /// Whether the inode at a place is the first that still waits.
    pub open spec fn is_next(self, i: int) -> bool {
        &&& 0 <= i < self.pending.len()
        &&& self.queued.contains(self.pending[i])
        &&& forall|j: int| 0 <= j < i ==> !self.queued.contains(#[trigger] self.pending[j])
    }
}

impl View for WritebackQueue {
    type V = QueueModel;

    closed spec fn view(&self) -> QueueModel {
        QueueModel {
            pending: self.pending@,
            queued: Set::new(|ino: u32| self.queued@.contains_key(ino as u128)),
        }
    }
}

impl WritebackQueue {
    /// All that waits has a place in the queue.
    pub closed spec fn wf(&self) -> bool {
        &&& self.queued.wf()
        &&& forall|k: u128| #[trigger] self.queued@.contains_key(k) ==> k <= u32::MAX
        &&& forall|ino: u32| #[trigger] self@.queued.contains(ino) ==> self@.pending.contains(ino)
    }

    /// All that waits has a place in the queue.
    pub proof fn waiting_have_places(&self)
        requires
            self.wf(),
        ensures
            forall|ino: u32| #[trigger] self@.queued.contains(ino) ==> self@.pending.contains(ino),
    {
    }

    /// An empty queue.
    pub fn new() -> (r: Self)
        ensures
            r.wf(),
            r@.pending == Seq::<u32>::empty(),
            r@.queued == Set::<u32>::empty(),
    {
        let r = WritebackQueue { pending: VecDeque::new(), queued: IntMap::new() };
        assert(r@.queued =~= Set::empty());
        r
    }

    /// Lets an inode wait, unless it does already.
    pub fn push(&mut self, ino: u32)
        requires
            old(self).wf(),
        ensures
            final(self).wf(),
            final(self)@.queued == old(self)@.queued.insert(ino),
            final(self)@.pending == (if old(self)@.queued.contains(ino) {
                old(self)@.pending
            } else {
                old(self)@.pending.push(ino)
            }),
    {
        let ghost before = self@;
        if !self.queued.contains_key(ino as u128) {
            self.queued.insert(ino as u128, ());
            self.pending.push_back(ino);
            proof {
                assert(self@.queued =~= before.queued.insert(ino));
                assert forall|q: u32| #[trigger] self@.queued.contains(q) implies
                    self@.pending.contains(q) by {
                    if q == ino {
                        assert(self@.pending[before.pending.len() as int] == ino);
                    } else {
                        assert(before.pending.contains(q));
                        let i = choose|i: int| 0 <= i < before.pending.len() && before.pending[i] == q;
                        assert(self@.pending[i] == q);
                    }
                }
            }
        } else {
            assert(self@.queued =~= before.queued.insert(ino));
        }
    }

    /// Takes the first inode that still waits, in the order of the places.
    pub fn pop(&mut self) -> (r: Option<u32>)
        requires
            old(self).wf(),
        ensures
            final(self).wf(),
            match r {
                Some(ino) => exists|i: int|
                    {
                        &&& #[trigger] old(self)@.is_next(i)
                        &&& ino == old(self)@.pending[i]
                        &&& final(self)@.pending == old(self)@.pending.skip(i + 1)
                        &&& final(self)@.queued == old(self)@.queued.remove(ino)
                    },
                None => {
                    &&& old(self)@.queued == Set::<u32>::empty()
                    &&& final(self)@.pending == Seq::<u32>::empty()
                    &&& final(self)@.queued == Set::<u32>::empty()
                },
            },
    {
        let ghost before = self@;
        let ghost mut seen: int = 0;
        loop
            invariant
                self.queued.wf(),
                forall|k: u128| #[trigger] self.queued@.contains_key(k) ==> k <= u32::MAX,
                0 <= seen <= before.pending.len(),
                self@.pending == before.pending.skip(seen),
                self@.queued == before.queued,
                before == old(self)@,
                forall|ino: u32| #[trigger]
                    before.queued.contains(ino) ==> before.pending.contains(ino),
                forall|j: int| 0 <= j < seen ==> !before.queued.contains(#[trigger] before.pending[j]),
            decreases before.pending.len() - seen,
        {
            match self.pending.pop_front() {
                Some(ino) => {
                    proof {
                        assert(before.pending.skip(seen)[0] == before.pending[seen]);
                        assert(before.pending.skip(seen).drop_first() =~= before.pending.skip(
                            seen + 1,
                        ));
                        assert(self@.pending =~= before.pending.skip(seen + 1));
                        assert(self@.queued =~= before.queued);
                    }
                    if self.queued.contains_key(ino as u128) {
                        let _ = self.queued.remove(ino as u128);
                        proof {
                            assert(self@.queued =~= before.queued.remove(ino));
                            assert(before.is_next(seen));
                            assert(self@.pending == before.pending.skip(seen + 1));
                            assert forall|q: u32| #[trigger] self@.queued.contains(q) implies
                                self@.pending.contains(q) by {
                                assert(before.pending.contains(q));
                                let i = choose|i: int|
                                    0 <= i < before.pending.len() && before.pending[i] == q;
                                assert(i > seen);
                                assert(self@.pending[i - seen - 1] == q);
                            }
                        }
                        return Some(ino);
                    }
                    proof {
                        seen = seen + 1;
                    }
                },
                None => {
                    proof {
                        assert(before.pending.skip(seen).len() == 0);
                        assert(before.queued =~= Set::empty()) by {
                            assert forall|q: u32| !before.queued.contains(q) by {
                                if before.queued.contains(q) {
                                    let i = choose|i: int|
                                        0 <= i < before.pending.len() && before.pending[i] == q;
                                    assert(!before.queued.contains(before.pending[i]));
                                }
                            }
                        }
                        assert(self@.pending =~= Seq::empty());
                        assert(self@.queued =~= Set::empty());
                    }
                    return None;
                },
            }
        }
    }

    /// Takes an inode off the queue.
    pub fn remove(&mut self, ino: u32)
        requires
            old(self).wf(),
        ensures
            final(self).wf(),
            final(self)@.queued == old(self)@.queued.remove(ino),
            final(self)@.pending == old(self)@.pending,
    {
        let ghost before = self@;
        let _ = self.queued.remove(ino as u128);
        assert(self@.queued =~= before.queued.remove(ino));
    }

    /// Whether anything waits.
    pub fn has_work(&self) -> (r: bool)
        requires
            self.wf(),
        ensures
            r == (self@.queued != Set::<u32>::empty()),
    {
        let n: usize = self.queued.len();
        proof {
            self.queued.keys_list_domain();
            if n > 0 {
                let k = self.queued.keys()[0];
                assert(self.queued.keys().contains(k));
                assert(self@.queued.contains(k as u32));
            } else {
                assert(self@.queued =~= Set::empty()) by {
                    assert forall|q: u32| !self@.queued.contains(q) by {
                        assert(!self.queued.keys().contains(q as u128));
                    }
                }
            }
        }
        n > 0
    }

    /// Empties the queue.
    pub fn clear(&mut self)
        ensures
            final(self).wf(),
            final(self)@.pending == Seq::<u32>::empty(),
            final(self)@.queued == Set::<u32>::empty(),
    {
        *self = WritebackQueue::new();
    }
}

/// A run of physical blocks that hold consecutive blocks of a file.
#[derive(Clone, Copy, PartialEq, Eq, Structural, Debug)]
pub struct PblockRun {
    pub len: u32,
    pub start_pblock: u64,
}

/// The runs of physical blocks that are remembered.
pub struct PblockRunCache {
    runs: AgedCache<PblockRun>,
}

/// The key of a block of a file.
pub open spec fn block_key(ino: u32, lblock: u32) -> u128 {
    (ino * 4294967296 + lblock) as u128
}

fn make_block_key(ino: u32, lblock: u32) -> (k: u128)
    ensures
        k == block_key(ino, lblock),
{
    ino as u128 * 4294967296 + lblock as u128
}

/// Whether a key is the last one up to another.
pub open spec fn is_pred<V>(m: AgedModel<V>, target: u128, k: u128) -> bool {
    &&& m.entries.contains_key(k)
    &&& k <= target
    &&& forall|q: u128| #[trigger] m.entries.contains_key(q) && q <= target ==> q <= k
}

/// Whether the run under a key holds a block of a file.
pub open spec fn run_holds(m: AgedModel<PblockRun>, k: u128, ino: u32, lblock: u32) -> bool {
    &&& is_pred(m, block_key(ino, lblock), k)
    &&& k >= block_key(ino, 0)
    &&& block_key(ino, lblock) - k < m.entries[k].value.len
}

impl View for PblockRunCache {
    type V = AgedModel<PblockRun>;

    closed spec fn view(&self) -> AgedModel<PblockRun> {
        self.runs@
    }
}

impl PblockRunCache {
    /// The runs end at numbers that exist.
    pub closed spec fn wf(&self) -> bool {
        &&& self.runs.wf()
        &&& forall|k: u128| #[trigger]
            self@.entries.contains_key(k) ==> self@.entries[k].value.start_pblock
                + self@.entries[k].value.len <= u64::MAX
    }

    /// No runs.
    pub fn new() -> (r: Self)
        ensures
            r.wf(),
            r@.entries == Map::<u128, Aged<PblockRun>>::empty(),
            r@.next_age == 1,
    {
        PblockRunCache { runs: AgedCache::new() }
    }

    /// The physical block that holds a block of a file, if a run is remembered
    /// that holds it; that counts as use of the run.
    pub fn get(&mut self, ino: u32, lblock: u32) -> (r: Option<u64>)
        requires
            old(self).wf(),
        ensures
            final(self).wf(),
            match r {
                Some(p) => exists|k: u128|
                    #![trigger run_holds(old(self)@, k, ino, lblock)]
                    run_holds(old(self)@, k, ino, lblock) && p
                        == old(self)@.entries[k].value.start_pblock + (block_key(ino, lblock) - k)
                        && final(self)@ == old(self)@.touched(k),
                None => final(self)@ == old(self)@ && !(exists|k: u128|
                    run_holds(old(self)@, k, ino, lblock)),
            },
    {
        let ghost before = self@;
        let target: u128 = make_block_key(ino, lblock);
        let first: u128 = make_block_key(ino, 0);
        proof {
            self.runs.keys_list_domain();
        }
        let i: usize = self.runs.lower_bound(target + 1);
        if i == 0 {
            proof {
                assert forall|k: u128| !run_holds(before, k, ino, lblock) by {
                    if run_holds(before, k, ino, lblock) {
                        assert(self.runs.keys().contains(k));
                        let j = choose|j: int|
                            0 <= j < self.runs.keys().len() && self.runs.keys()[j] == k;
                        assert(self.runs.keys()[j] >= target + 1);
                    }
                }
            }
            return None;
        }
        let key: u128 = self.runs.key_at(i - 1);
        proof {
            assert(self.runs.keys().contains(self.runs.keys()[i - 1]));
            assert(is_pred(before, target, key)) by {
                assert forall|q: u128| #[trigger] before.entries.contains_key(q) && q
                    <= target implies q <= key by {
                    assert(self.runs.keys().contains(q));
                    let j = choose|j: int|
                        0 <= j < self.runs.keys().len() && self.runs.keys()[j] == q;
                    if j >= i {
                        assert(self.runs.keys()[j] >= target + 1);
                    } else if j < i - 1 {
                        assert(self.runs.keys()[j] < self.runs.keys()[i - 1]);
                    }
                }
            }
            assert forall|k: u128| run_holds(before, k, ino, lblock) implies k == key by {
                assert(before.entries.contains_key(k));
                assert(before.entries.contains_key(key));
            }
        }
        if key < first {
            return None;
        }
        let run: PblockRun = match self.runs.peek(key) {
            Some(run) => *run,
            None => {
                return None;
            },
        };
        let offset: u64 = (target - key) as u64;
        if offset >= run.len as u64 {
            return None;
        }
        assert(run_holds(before, key, ino, lblock));
        let _ = self.runs.touch(key);
        Some(run.start_pblock + offset)
    }

    /// Remembers a run that is not empty; if there is no room, the one that was
    /// not used for the longest time gives way.
    pub fn insert(&mut self, ino: u32, start_lblock: u32, len: u32, start_pblock: u64)
        requires
            old(self).wf(),
            start_pblock + len <= u64::MAX,
        ensures
            final(self).wf(),
            final(self)@ == (if len == 0 {
                old(self)@
            } else {
                old(self)@.inserted(
                    block_key(ino, start_lblock),
                    PblockRun { len, start_pblock },
                    PBLOCK_RUN_CACHE_LIMIT as nat,
                )
            }),
    {
        if len == 0 {
            return;
        }
        let ghost before = self@;
        self.runs.insert(
            make_block_key(ino, start_lblock),
            PblockRun { len, start_pblock },
            PBLOCK_RUN_CACHE_LIMIT,
        );
        assert forall|k: u128| #[trigger] self@.entries.contains_key(k) implies
            self@.entries[k].value.start_pblock + self@.entries[k].value.len <= u64::MAX by {
            if k != block_key(ino, start_lblock) {
                assert(before.entries.contains_key(k));
            }
        }
    }

    /// Forgets all runs of a file.
    pub fn invalidate_ino(&mut self, ino: u32)
        requires
            old(self).wf(),
        ensures
            final(self).wf(),
            final(self)@ == (AgedModel {
                entries: old(self)@.entries.remove_keys(
                    Set::new(|k: u128| block_key(ino, 0) <= k <= block_key(ino, u32::MAX)),
                ),
                ..old(self)@
            }),
    {
        let lo: u128 = make_block_key(ino, 0);
        let hi: u128 = make_block_key(ino, u32::MAX);
        let ghost before = self@;
        self.runs.remove_range(lo, hi);
        assert forall|k: u128| #[trigger] self@.entries.contains_key(k) implies
            self@.entries[k].value.start_pblock + self@.entries[k].value.len <= u64::MAX by {
            assert(before.entries.contains_key(k));
        }
        assert(Set::new(|k: u128| lo <= k <= hi) =~= Set::new(
            |k: u128| block_key(ino, 0) <= k <= block_key(ino, u32::MAX),
        ));
    }

    /// Forgets all runs.
    pub fn clear(&mut self)
        ensures
            final(self).wf(),
            final(self)@.entries == Map::<u128, Aged<PblockRun>>::empty(),
            final(self)@.next_age == old(self)@.next_age,
    {
        self.runs.clear();
    }
}

/// After a file's runs have been forgotten, none of its blocks is found.
pub proof fn forgotten_runs_hold_nothing(m: AgedModel<PblockRun>, ino: u32, lblock: u32, k: u128)
    ensures
        !run_holds(
            AgedModel {
                entries: m.entries.remove_keys(
                    Set::new(|k: u128| block_key(ino, 0) <= k <= block_key(ino, u32::MAX)),
                ),
                ..m
            },
            k,
            ino,
            lblock,
        ),
{
}

/// Where a page of a file stands among the clean pages.
#[derive(Clone, Copy, PartialEq, Eq, Structural, Debug)]
pub struct CleanPageKey {
    pub ino: u32,
    pub page_idx: usize,
}

/// The number that stands for a page of a file.
pub open spec fn page_key(ino: u32, page_idx: int) -> u128 {
    (ino * 0x1_0000_0000_0000_0000 + page_idx) as u128
}

fn make_page_key(ino: u32, page_idx: usize) -> (k: u128)
    ensures
        k == page_key(ino, page_idx as int),
{
    ino as u128 * 0x1_0000_0000_0000_0000 + page_idx as u128
}

/// Different pages have different numbers.
pub proof fn page_keys_differ(a: u32, i: usize, b: u32, j: usize)
    ensures
        page_key(a, i as int) == page_key(b, j as int) <==> a == b && i == j,
{
}

/// How many clean pages are kept on a machine with `total_frames` of memory.
pub open spec fn page_limit(total_frames: nat) -> nat {
    let share = total_frames / 32;
    if share < 2048 {
        2048
    } else if share > 65536 {
        65536
    } else {
        share
    }
}

/// How many clean pages are kept: a part of the memory, within bounds.
pub fn clean_page_cache_limit(total_frames: usize) -> (n: usize)
    ensures
        n == page_limit(total_frames as nat),
{
    let share: usize = total_frames / CLEAN_PAGE_CACHE_MEMORY_DIVISOR;
    if share < CLEAN_PAGE_CACHE_MIN_PAGES {
        CLEAN_PAGE_CACHE_MIN_PAGES
    } else if share > CLEAN_PAGE_CACHE_MAX_PAGES {
        CLEAN_PAGE_CACHE_MAX_PAGES
    } else {
        share
    }
}

/// Pages of files as they are on disk.
pub struct CleanPageCache {
    pages: AgedCache<Vec<u8>>,
}

impl View for CleanPageCache {
    type V = AgedModel<Vec<u8>>;

    closed spec fn view(&self) -> AgedModel<Vec<u8>> {
        self.pages@
    }
}

/// Whether a page of a file is cached.
pub open spec fn page_cached(m: AgedModel<Vec<u8>>, ino: u32, page_idx: int) -> bool {
    page_idx <= usize::MAX && m.entries.contains_key(page_key(ino, page_idx))
}

/// Whether a page of a file is cached with the given bytes.
pub open spec fn page_is(m: AgedModel<Vec<u8>>, ino: u32, page_idx: int, data: Vec<u8>) -> bool {
    page_cached(m, ino, page_idx) && data@ == m.entries[page_key(ino, page_idx)].value@
}

/// A cache after a look for `n` pages in a row.
pub open spec fn touched_run(m: AgedModel<Vec<u8>>, ino: u32, start: int, n: nat) -> AgedModel<
    Vec<u8>,
>
    decreases n,
{
    if n == 0 {
        m
    } else {
        touched_run(m, ino, start, (n - 1) as nat).touched(page_key(ino, start + n - 1))
    }
}

impl CleanPageCache {
    /// The keys are in order.
    pub closed spec fn wf(&self) -> bool {
        self.pages.wf()
    }

    /// No pages.
    pub fn new() -> (r: Self)
        ensures
            r.wf(),
            r@.entries == Map::<u128, Aged<Vec<u8>>>::empty(),
            r@.next_age == 1,
    {
        CleanPageCache { pages: AgedCache::new() }
    }

    /// A copy of a page; that counts as use.
    pub fn get(&mut self, key: CleanPageKey) -> (r: Option<Vec<u8>>)
        requires
            old(self).wf(),
        ensures
            final(self).wf(),
            final(self)@ == old(self)@.touched(page_key(key.ino, key.page_idx as int)),
            match r {
                Some(data) => page_cached(old(self)@, key.ino, key.page_idx as int) && data@
                    == old(self)@.entries[page_key(key.ino, key.page_idx as int)].value@,
                None => !page_cached(old(self)@, key.ino, key.page_idx as int),
            },
    {
        let k: u128 = make_page_key(key.ino, key.page_idx);
        let r = match self.pages.peek(k) {
            Some(data) => Some(copy_of(data.as_slice())),
            None => None,
        };
        let _ = self.pages.touch(k);
        r
    }

    /// How many pages in a row are not cached.
    pub fn uncached_prefix_len(&self, ino: u32, start_page_idx: usize, max_pages: usize) -> (n:
        usize)
        requires
            self.wf(),
        ensures
            n <= max_pages,
            start_page_idx + n <= usize::MAX + 1,
            forall|p: int|
                start_page_idx <= p < start_page_idx + n ==> !#[trigger] page_cached(self@, ino, p),
            n < max_pages ==> start_page_idx + n > usize::MAX || page_cached(
                self@,
                ino,
                start_page_idx + n,
            ),
    {
        let mut pages: usize = 0;
        while pages < max_pages
            invariant
                self.wf(),
                pages <= max_pages,
                start_page_idx + pages <= usize::MAX + 1,
                forall|p: int|
                    start_page_idx <= p < start_page_idx + pages ==> !#[trigger] page_cached(
                        self@,
                        ino,
                        p,
                    ),
            decreases max_pages - pages,
        {
            if start_page_idx > usize::MAX - pages {
                return pages;
            }
            if self.pages.contains_key(make_page_key(ino, start_page_idx + pages)) {
                return pages;
            }
            pages = pages + 1;
        }
        pages
    }

    /// Copies of the cached pages in a row; each look counts as use, that for
    /// the first missing page too.
    pub fn get_run(&mut self, ino: u32, start_page_idx: usize, max_pages: usize) -> (frames: Vec<
        Vec<u8>,
    >)
        requires
            old(self).wf(),
        ensures
            final(self).wf(),
            frames@.len() <= max_pages,
            forall|j: int|
                0 <= j < frames@.len() ==> page_is(
                    old(self)@,
                    ino,
                    start_page_idx + j,
                    #[trigger] frames@[j],
                ),
            frames@.len() < max_pages ==> !page_cached(
                old(self)@,
                ino,
                start_page_idx + frames@.len(),
            ),
            final(self)@ == touched_run(
                old(self)@,
                ino,
                start_page_idx as int,
                if frames@.len() < max_pages && start_page_idx + frames@.len() <= usize::MAX {
                    frames@.len() + 1
                } else {
                    frames@.len()
                },
            ),
    {
        let ghost before = self@;
        let mut frames: Vec<Vec<u8>> = Vec::new();
        while frames.len() < max_pages
            invariant
                self.wf(),
                frames@.len() <= max_pages,
                before == old(self)@,
                self@ == touched_run(before, ino, start_page_idx as int, frames@.len()),
                forall|k: u128| #[trigger]
                    self@.entries.contains_key(k) <==> before.entries.contains_key(k),
                forall|k: u128| #[trigger]
                    before.entries.contains_key(k) ==> self@.entries[k].value
                        == before.entries[k].value,
                forall|j: int|
                    0 <= j < frames@.len() ==> page_is(
                        before,
                        ino,
                        start_page_idx + j,
                        #[trigger] frames@[j],
                    ),
            decreases max_pages - frames@.len(),
        {
            let page: usize = frames.len();
            if start_page_idx > usize::MAX - page {
                return frames;
            }
            let key = CleanPageKey { ino, page_idx: start_page_idx + page };
            let ghost k = page_key(ino, start_page_idx + page);
            match self.get(key) {
                Some(data) => {
                    assert(before.entries.contains_key(k));
                    frames.push(data);
                },
                None => {
                    return frames;
                },
            }
        }
        frames
    }

    /// Caches a page; if there is no room, the one that was not used for the
    /// longest time gives way.
    pub fn insert(&mut self, key: CleanPageKey, data: Vec<u8>, total_frames: usize)
        requires
            old(self).wf(),
        ensures
            final(self).wf(),
            final(self)@ == old(self)@.inserted(
                page_key(key.ino, key.page_idx as int),
                data,
                page_limit(total_frames as nat),
            ),
    {
        let limit: usize = clean_page_cache_limit(total_frames);
        self.pages.insert(make_page_key(key.ino, key.page_idx), data, limit);
    }

    /// Forgets all pages of a file.
    pub fn invalidate_ino(&mut self, ino: u32)
        requires
            old(self).wf(),
        ensures
            final(self).wf(),
            final(self)@ == (AgedModel {
                entries: old(self)@.entries.remove_keys(
                    Set::new(
                        |k: u128| page_key(ino, 0) <= k <= page_key(ino, 0xffff_ffff_ffff_ffff),
                    ),
                ),
                ..old(self)@
            }),
    {
        let lo: u128 = make_page_key(ino, 0);
        let hi: u128 = lo + 0xffff_ffff_ffff_ffff;
        self.pages.remove_range(lo, hi);
        assert(Set::new(|k: u128| lo <= k <= hi) =~= Set::new(
            |k: u128| page_key(ino, 0) <= k <= page_key(ino, 0xffff_ffff_ffff_ffff),
        ));
    }

    /// Forgets the pages of a file that hold bytes from `start` up to `end`.
    pub fn invalidate_range(&mut self, ino: u32, start: usize, end: usize)
        requires
            old(self).wf(),
        ensures
            final(self).wf(),
            final(self)@ == (if start >= end {
                old(self)@
            } else {
                AgedModel {
                    entries: old(self)@.entries.remove_keys(
                        Set::new(
                            |k: u128|
                                page_key(ino, start as int / 4096) <= k <= page_key(
                                    ino,
                                    (end - 1) / 4096,
                                ),
                        ),
                    ),
                    ..old(self)@
                }
            }),
    {
        if start >= end {
            return;
        }
        let lo: u128 = make_page_key(ino, start / PAGE_SIZE);
        let hi: u128 = make_page_key(ino, (end - 1) / PAGE_SIZE);
        self.pages.remove_range(lo, hi);
        assert(Set::new(|k: u128| lo <= k <= hi) =~= Set::new(
            |k: u128|
                page_key(ino, start as int / 4096) <= k <= page_key(ino, (end - 1) / 4096),
        ));
    }

    /// Forgets all pages.
    pub fn clear(&mut self)
        ensures
            final(self).wf(),
            final(self)@.entries == Map::<u128, Aged<Vec<u8>>>::empty(),
            final(self)@.next_age == old(self)@.next_age,
    {
        self.pages.clear();
    }
}

/// Where the page with a byte of a file stands among the clean pages.
pub fn clean_page_key(ino: u32, file_offset: usize) -> (r: CleanPageKey)
    ensures
        r.ino == ino,
        r.page_idx == file_offset / PAGE_SIZE,
{
    CleanPageKey { ino, page_idx: file_offset / PAGE_SIZE }
}

/// Once the pages that a write touched are forgotten, none of them is cached,
/// and every other page is as it was.
pub proof fn forgotten_pages_are_gone(
    m: AgedModel<Vec<u8>>,
    ino: u32,
    start: usize,
    end: usize,
    other: u32,
    page: usize,
)
    requires
        start < end,
    ensures
        ({
            let after = AgedModel {
                entries: m.entries.remove_keys(
                    Set::new(
                        |k: u128|
                            page_key(ino, start as int / 4096) <= k <= page_key(
                                ino,
                                (end - 1) / 4096,
                            ),
                    ),
                ),
                ..m
            };
            &&& other == ino && start / 4096 <= page <= (end - 1) / 4096 ==> !page_cached(
                after,
                other,
                page as int,
            )
            &&& !(other == ino && start / 4096 <= page <= (end - 1) / 4096) ==> page_cached(
                after,
                other,
                page as int,
            ) == page_cached(m, other, page as int)
        }),
{
}

/// The images of executables that were read as a whole.
pub struct ImageCache {
    images: IntMap<Vec<u8>>,
    hits: usize,
    misses: usize,
}

/// The lengths of some images together.
pub open spec fn image_bytes(images: Seq<Vec<u8>>) -> nat
    decreases images.len(),
{
    if images.len() == 0 {
        0
    } else {
        image_bytes(images.drop_last()) + images.last()@.len()
    }
}

impl ImageCache {
    /// The image of each inode.
    pub closed spec fn view(&self) -> Map<u128, Vec<u8>> {
        self.images@
    }

    /// The images in the order of their inodes.
    pub closed spec fn images_in_order(&self) -> Seq<Vec<u8>> {
        self.images.values()
    }

    /// How often an image was found, and how often not.
    pub closed spec fn counts(&self) -> (usize, usize) {
        (self.hits, self.misses)
    }

    /// The keys are in order.
    pub closed spec fn wf(&self) -> bool {
        self.images.wf()
    }

    /// No images.
    pub fn new() -> (r: Self)
        ensures
            r.wf(),
            r@ == Map::<u128, Vec<u8>>::empty(),
            r.counts() == (0usize, 0usize),
    {
        ImageCache { images: IntMap::new(), hits: 0, misses: 0 }
    }

    /// Forgets the image of an inode.
    pub fn invalidate(&mut self, ino: u32)
        requires
            old(self).wf(),
        ensures
            final(self).wf(),
            final(self)@ == old(self)@.remove(ino as u128),
            final(self).counts() == old(self).counts(),
    {
        let _ = self.images.remove(ino as u128);
    }

    /// Forgets all images.
    pub fn clear(&mut self)
        ensures
            final(self).wf(),
            final(self)@ == Map::<u128, Vec<u8>>::empty(),
            final(self).counts() == old(self).counts(),
    {
        self.images.clear();
    }

    /// A copy of the image of an inode; the look is counted.
    pub fn get(&mut self, ino: u32) -> (r: Option<Vec<u8>>)
        requires
            old(self).wf(),
        ensures
            final(self).wf(),
            final(self)@ == old(self)@,
            match r {
                Some(data) => old(self)@.contains_key(ino as u128) && data@
                    == old(self)@[ino as u128]@ && final(self).counts() == (
                    if old(self).counts().0 == usize::MAX {
                        0usize
                    } else {
                        (old(self).counts().0 + 1) as usize
                    },
                    old(self).counts().1,
                ),
                None => !old(self)@.contains_key(ino as u128) && final(self).counts() == (
                    old(self).counts().0,
                    if old(self).counts().1 == usize::MAX {
                        0usize
                    } else {
                        (old(self).counts().1 + 1) as usize
                    },
                ),
            },
    {
        let found: Option<Vec<u8>> = match self.images.get(ino as u128) {
            Some(data) => Some(copy_of(data.as_slice())),
            None => None,
        };
        match found {
            Some(data) => {
                self.hits = if self.hits == usize::MAX {
                    0
                } else {
                    self.hits + 1
                };
                Some(data)
            },
            None => {
                self.misses = if self.misses == usize::MAX {
                    0
                } else {
                    self.misses + 1
                };
                None
            },
        }
    }

    fn total_bytes(&self) -> (n: usize)
        requires
            self.wf(),
        ensures
            n == (if image_bytes(self.images_in_order()) > usize::MAX {
                usize::MAX as nat
            } else {
                image_bytes(self.images_in_order())
            }),
    {
        let ghost all = self.images.values();
        let mut n: usize = 0;
        let mut i: usize = 0;
        proof {
            self.images.keys_list_domain();
            assert(all.take(0) =~= Seq::empty());
        }
        while i < self.images.len()
            invariant
                self.wf(),
                all == self.images.values(),
                all.len() == self.images.keys().len(),
                0 <= i <= all.len(),
                n == (if image_bytes(all.take(i as int)) > usize::MAX {
                    usize::MAX as nat
                } else {
                    image_bytes(all.take(i as int))
                }),
            decreases all.len() - i,
        {
            proof {
                assert(all.take(i + 1).drop_last() =~= all.take(i as int));
            }
            n = n.saturating_add(self.images.value_at(i).len());
            i = i + 1;
        }
        assert(all.take(i as int) =~= all);
        n
    }

    /// Keeps an image, unless it is too large. If all images together would be
    /// too large, the others are forgotten first.
    pub fn insert(&mut self, ino: u32, data: Vec<u8>)
        requires
            old(self).wf(),
        ensures
            final(self).wf(),
            final(self).counts() == old(self).counts(),
            final(self)@ == (if data@.len() > EXECUTABLE_IMAGE_CACHE_LIMIT {
                old(self)@
            } else if image_bytes(old(self).images_in_order()) + data@.len()
                > EXECUTABLE_IMAGE_CACHE_LIMIT {
                Map::<u128, Vec<u8>>::empty().insert(ino as u128, data)
            } else {
                old(self)@.insert(ino as u128, data)
            }),
    {
        if data.len() > EXECUTABLE_IMAGE_CACHE_LIMIT {
            return;
        }
        let current: usize = self.total_bytes();
        if current.saturating_add(data.len()) > EXECUTABLE_IMAGE_CACHE_LIMIT {
            self.images.clear();
        }
        self.images.insert(ino as u128, data);
    }

    /// How many images there are, their lengths together, and how often an
    /// image was found and not found.
    pub fn diagnostic_executable_cache_stats(&self) -> (r: (usize, usize, usize, usize))
        requires
            self.wf(),
        ensures
            r.0 == self@.dom().len(),
            r.1 == (if image_bytes(self.images_in_order()) > usize::MAX {
                usize::MAX as nat
            } else {
                image_bytes(self.images_in_order())
            }),
            (r.2, r.3) == self.counts(),
    {
        (self.images.len(), self.total_bytes(), self.hits, self.misses)
    }
}

/// Paths that were resolved, and paths that lead nowhere.
pub struct PathCache {
    pub found: TextMap<(u32, Ext4NodeKind)>,
    pub missing: TextMap<()>,
}

impl PathCache {
    /// The keys are in order.
    pub open spec fn wf(&self) -> bool {
        self.found.wf() && self.missing.wf()
    }

    /// Nothing is remembered.
    pub fn new() -> (r: Self)
        ensures
            r.wf(),
            r.found@ == Map::<Seq<char>, (u32, Ext4NodeKind)>::empty(),
            r.missing@ == Map::<Seq<char>, ()>::empty(),
    {
        PathCache { found: TextMap::new(), missing: TextMap::new() }
    }

    /// Forgets a path and all below it.
    pub fn invalidate_path_cache(&mut self, path: &str)
        requires
            old(self).wf(),
        ensures
            final(self).wf(),
            final(self).found@ == old(self).found@.remove_keys(
                Set::new(|k: Seq<char>| in_tree(normalized(path@), k)),
            ),
            final(self).missing@ == old(self).missing@.remove_keys(
                Set::new(|k: Seq<char>| in_tree(normalized(path@), k)),
            ),
    {
        let path = normalize_path(path);
        self.found.drop_tree(path.as_str());
        self.missing.drop_tree(path.as_str());
    }

    /// Remembers that a path leads nowhere; if there are too many, the others
    /// are forgotten first.
    pub fn cache_negative_path(&mut self, path: &str)
        requires
            old(self).wf(),
        ensures
            final(self).wf(),
            final(self).found == old(self).found,
            final(self).missing@ == (if old(self).missing@.dom().len()
                >= NEGATIVE_PATH_CACHE_LIMIT {
                Map::<Seq<char>, ()>::empty().insert(path@, ())
            } else {
                old(self).missing@.insert(path@, ())
            }),
    {
        if self.missing.len() >= NEGATIVE_PATH_CACHE_LIMIT {
            self.missing.clear();
        }
        self.missing.insert(path.to_owned(), ());
    }

    /// Forgets all paths.
    pub fn clear(&mut self)
        ensures
            final(self).wf(),
            final(self).found@ == Map::<Seq<char>, (u32, Ext4NodeKind)>::empty(),
            final(self).missing@ == Map::<Seq<char>, ()>::empty(),
    {
        self.found.clear();
        self.missing.clear();
    }
}

} // verus!
