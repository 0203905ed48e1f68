//! A regular file that is written through memory: short ones as a whole, long
//! ones by pages over what is on disk.
use vstd::prelude::*;

use crate::bytes::{
    copy_into, copy_range, fill_zero, resize_bytes, resized, spliced, zero_bytes, zeros,
};
use crate::errno::SysErrNo;
use crate::fs::content::MAX_FILE_OFFSET;
use crate::fs::ext4::caches::PAGE_SIZE;
use crate::fs::ext4::dirty::{covered, PageCacheDirtyModel, PageCacheWritebackState};
use crate::intmap::IntMap;

verus! {

/// Files up to this length are held as a whole.
pub const DENSE_REGULAR_CACHE_LIMIT: usize = 8388608;

/// Files from this length on are written back in the background.
pub const ASYNC_WRITEBACK_MIN_FILE: usize = 262144;

/// How much is written back at a time.
pub const WRITEBACK_CLUSTER_BYTES: usize = 262144;

/// A file whose changes are not all on disk yet.
pub struct CachedRegularFile {
    pub dense: Option<Vec<u8>>,
    pub pages: IntMap<Vec<u8>>,
    pub size: usize,
    pub persisted_size: usize,
    pub truncate_to: Option<usize>,
    pub dirty: PageCacheDirtyModel,
    pub mtime_sec: u32,
    pub mtime_extra: u32,
    pub ctime_sec: u32,
    pub ctime_extra: u32,
}

/// Length and times of a cached file.
#[derive(Clone, Copy, PartialEq, Eq, Structural, Debug)]
pub struct CachedRegularInfo {
    pub size: usize,
    pub mtime_sec: u32,
    pub mtime_extra: u32,
    pub ctime_sec: u32,
    pub ctime_extra: u32,
}

/// A file after a write at `offset`: longer if need be, otherwise changed in
/// place.
pub open spec fn overwritten(content: Seq<u8>, offset: int, buf: Seq<u8>) -> Seq<u8> {
    let len = if content.len() < offset + buf.len() {
        (offset + buf.len()) as nat
    } else {
        content.len()
    };
    spliced(resized(content, len), offset, buf)
}

/// Whether some bytes are what is on disk from a position on, as far as the
/// file reached there.
pub open spec fn shows_disk(disk: Seq<u8>, from: int, bytes: Seq<u8>, persisted: int) -> bool {
    forall|i: int|
        0 <= i < bytes.len() && from + i < persisted ==> #[trigger] bytes[i] == disk[from + i]
}

impl CachedRegularFile {
    /// The page that holds a position.
    pub open spec fn page_at(&self, p: int) -> u128 {
        (p / 4096) as u128
    }

    /// The byte at a position, given what is on disk.
    pub open spec fn byte_at(&self, disk: Seq<u8>, p: int) -> u8 {
        match self.dense {
            Some(d) => d@[p],
            None => if self.pages@.contains_key(self.page_at(p)) {
                self.pages@[self.page_at(p)]@[p % 4096]
            } else if p < self.persisted_size {
                disk[p]
            } else {
                0
            },
        }
    }

    /// The contents, given what is on disk.
    pub open spec fn content(&self, disk: Seq<u8>) -> Seq<u8> {
        Seq::new(self.size as nat, |p: int| self.byte_at(disk, p))
    }

    /// Whether a position can only be read from disk.
    pub open spec fn on_disk_only(&self, p: int) -> bool {
        self.dense is None && !self.pages@.contains_key(self.page_at(p)) && p < self.persisted_size
    }

    /// Whether a page is held in memory.
    pub open spec fn holds_page(&self, k: u128) -> bool {
        if self.dense is Some {
            k * 4096 < self.size
        } else {
            self.pages@.contains_key(k)
        }
    }

    /// The parts fit together: a file held as a whole has its length, pages
    /// have theirs and hold zeros behind the end, and nothing behind the end is
    /// to be written back.
    pub open spec fn wf(&self) -> bool {
        &&& self.size <= MAX_FILE_OFFSET
        &&& self.persisted_size <= self.size
        &&& self.pages.wf()
        &&& self.dense is Some ==> self.dense->0@.len() == self.size
        &&& self.dense is Some ==> self.pages@ == Map::<u128, Vec<u8>>::empty()
        &&& forall|k: u128| #[trigger]
            self.pages@.contains_key(k) ==> self.pages@[k]@.len() == 4096 && k * 4096 < self.size
        &&& self.dense is None ==> forall|k: u128, o: int|
            self.pages@.contains_key(k) && 0 <= o < 4096 && k * 4096 + o >= self.size
                ==> #[trigger] self.pages@[k]@[o] == 0
        &&& self.dirty.wf()
        &&& forall|p: int| #[trigger] covered(self.dirty.ranges@, p) ==> p < self.size
    }

    /// A cached file.
    pub fn new(
        size: usize,
        persisted_size: usize,
        dense: Option<Vec<u8>>,
        dirty: PageCacheDirtyModel,
        mtime_sec: u32,
        mtime_extra: u32,
        ctime_sec: u32,
        ctime_extra: u32,
    ) -> (r: Self)
        requires
            size <= MAX_FILE_OFFSET,
            persisted_size <= size,
            dense is Some ==> dense->0@.len() == size,
            dirty.wf(),
            dirty.ranges@.len() == 0,
        ensures
            r.wf(),
            r.size == size,
            r.persisted_size == persisted_size,
            r.dense == dense,
            r.pages@ == Map::<u128, Vec<u8>>::empty(),
            r.truncate_to is None,
            r.dirty == dirty,
            r.mtime_sec == mtime_sec && r.mtime_extra == mtime_extra,
            r.ctime_sec == ctime_sec && r.ctime_extra == ctime_extra,
    {
        CachedRegularFile {
            dense,
            pages: IntMap::new(),
            size,
            persisted_size,
            truncate_to: None,
            dirty,
            mtime_sec,
            mtime_extra,
            ctime_sec,
            ctime_extra,
        }
    }

    /// Whether anything has to be written back.
    pub fn is_dirty(&self) -> (r: bool)
        ensures
            r == self.dirty.pending(),
    {
        self.dirty.is_dirty()
    }

    /// Length and times.
    pub fn info(&self) -> (r: CachedRegularInfo)
        ensures
            r.size == self.size,
            r.mtime_sec == self.mtime_sec && r.mtime_extra == self.mtime_extra,
            r.ctime_sec == self.ctime_sec && r.ctime_extra == self.ctime_extra,
    {
        CachedRegularInfo {
            size: self.size,
            mtime_sec: self.mtime_sec,
            mtime_extra: self.mtime_extra,
            ctime_sec: self.ctime_sec,
            ctime_extra: self.ctime_extra,
        }
    }

    /// Whether the file is long enough to be written back in the background.
    pub fn async_writeback_ok(&self) -> (r: bool)
        ensures
            r == (self.size >= ASYNC_WRITEBACK_MIN_FILE),
    {
        self.size >= ASYNC_WRITEBACK_MIN_FILE
    }

    /// Whether all that can only be read from disk, in `n` bytes from `start`
    /// on, lies in the first `have` of them.
    pub open spec fn disk_suffices(&self, start: int, n: int, have: int) -> bool {
        forall|p: int| start + have <= p < start + n ==> !#[trigger] self.on_disk_only(p)
    }

    fn check_disk(&self, start: usize, n: usize, have: usize) -> (r: bool)
        requires
            self.wf(),
            self.dense is None,
            start + n <= self.size,
        ensures
            r == self.disk_suffices(start as int, n as int, have as int),
    {
        if have >= n {
            return true;
        }
        let mut p: usize = start + have;
        let end: usize = start + n;
        while p < end
            invariant
                self.wf(),
                self.dense is None,
                start + have <= p <= end == start + n,
                end <= self.size <= MAX_FILE_OFFSET,
                forall|q: int| start + have <= q < p ==> !#[trigger] self.on_disk_only(q),
            decreases end - p,
        {
            if p >= self.persisted_size {
                assert forall|q: int| start + have <= q < start + n implies
                    !#[trigger] self.on_disk_only(q) by {}
                return true;
            }
            let page: usize = p / PAGE_SIZE;
            if !self.pages.contains_key(page as u128) {
                assert(self.on_disk_only(p as int));
                return false;
            }
            let next: usize = if end - p < PAGE_SIZE - p % PAGE_SIZE {
                end
            } else {
                p + (PAGE_SIZE - p % PAGE_SIZE)
            };
            assert forall|q: int| p <= q < next implies !#[trigger] self.on_disk_only(q) by {
                assert(q / 4096 == page);
            }
            p = next;
        }
        true
    }

    /// The byte `i` behind `start`, given what the disk holds from there on.
    pub open spec fn seen_byte(&self, disk: Seq<u8>, start: int, i: int) -> u8 {
        if self.on_disk_only(start + i) {
            disk[i]
        } else {
            self.byte_at(disk, start + i)
        }
    }

    fn copy_step(
        &self,
        start: usize,
        n: usize,
        copied: usize,
        count: usize,
        out: &mut [u8],
        disk: &[u8],
    )
        requires
            self.wf(),
            self.dense is None,
            start + n <= self.size,
            old(out)@.len() == n,
            copied + count <= n,
            0 < count,
            (start + copied) % 4096 + count <= 4096,
            self.disk_suffices(start as int, n as int, disk@.len() as int),
        ensures
            final(out)@.len() == n,
            forall|i: int|
                0 <= i < n && !(copied <= i < copied + count) ==> #[trigger] final(out)@[i]
                    == old(out)@[i],
            forall|i: int|
                copied <= i < copied + count ==> #[trigger] final(out)@[i] == self.seen_byte(
                    disk@,
                    start as int,
                    i,
                ),
    {
        let current: usize = start + copied;
        let page: usize = current / PAGE_SIZE;
        let off: usize = current % PAGE_SIZE;
        match self.pages.get(page as u128) {
            Some(data) => {
                copy_into(out, copied, data.as_slice(), off, count);
                assert forall|i: int| copied <= i < copied + count implies #[trigger] out@[i]
                    == self.seen_byte(disk@, start as int, i) by {
                    assert((start + i) / 4096 == page);
                    assert((start + i) % 4096 == off + (i - copied));
                }
            },
            None => {
                if current < self.persisted_size {
                    let from_disk: usize = if count < self.persisted_size - current {
                        count
                    } else {
                        self.persisted_size - current
                    };
                    assert(copied + from_disk <= disk@.len()) by {
                        let p = start + copied + from_disk - 1;
                        assert(p / 4096 == page);
                        if copied + from_disk > disk@.len() {
                            assert(self.on_disk_only(p));
                        }
                    }
                    copy_into(out, copied, disk, copied, from_disk);
                    let ghost mid = out@;
                    fill_zero(out, copied + from_disk, count - from_disk);
                    assert forall|i: int| copied <= i < copied + count implies #[trigger] out@[i]
                        == self.seen_byte(disk@, start as int, i) by {
                        assert((start + i) / 4096 == page);
                        if i < copied + from_disk {
                            assert(out@[i] == mid[i]);
                            assert(mid[i] == disk@.subrange(
                                copied as int,
                                copied + from_disk,
                            )[i - copied]);
                        }
                    }
                } else {
                    fill_zero(out, copied, count);
                    assert forall|i: int| copied <= i < copied + count implies #[trigger] out@[i]
                        == self.seen_byte(disk@, start as int, i) by {
                        assert((start + i) / 4096 == page);
                    }
                }
            },
        }
    }

    /// Copies `out.len()` bytes from `start` on. `disk` is what the disk holds
    /// there; if it is too short for what is not cached, that is an error.
    pub fn copy_cached_range(&self, start: usize, out: &mut [u8], disk: &[u8]) -> (r: Result<
        (),
        SysErrNo,
    >)
        requires
            self.wf(),
        ensures
            start + old(out)@.len() > usize::MAX && self.dense is Some ==> r == Err::<(), SysErrNo>(
                SysErrNo::EFBIG,
            ),
            start + old(out)@.len() <= usize::MAX || self.dense is None ==> (r is Ok <==> start
                + old(out)@.len() <= self.size && (self.dense is Some || self.disk_suffices(
                start as int,
                old(out)@.len() as int,
                disk@.len() as int,
            ))) && (r is Err ==> r == Err::<(), SysErrNo>(SysErrNo::EIO)),
            r is Err ==> final(out)@ == old(out)@,
            r is Ok ==> final(out)@.len() == old(out)@.len(),
            r is Ok ==> forall|all: Seq<u8>|
                shows_disk(all, start as int, disk@, self.persisted_size as int)
                    ==> final(out)@ == #[trigger] self.content(all).subrange(
                    start as int,
                    start + old(out)@.len(),
                ),
    {
        let n: usize = out.len();
        match &self.dense {
            Some(dense) => {
                if n > usize::MAX - start {
                    return Err(SysErrNo::EFBIG);
                }
                if start + n > dense.len() {
                    return Err(SysErrNo::EIO);
                }
                copy_into(out, 0, dense.as_slice(), start, n);
                assert forall|all: Seq<u8>| out@ == #[trigger] self.content(all).subrange(
                    start as int,
                    start + n,
                ) by {
                    assert(out@ =~= self.content(all).subrange(start as int, start + n));
                }
                Ok(())
            },
            None => {
                if start > self.size || n > self.size - start {
                    return Err(SysErrNo::EIO);
                }
                if !self.check_disk(start, n, disk.len()) {
                    return Err(SysErrNo::EIO);
                }
                let mut copied: usize = 0;
                while copied < n
                    invariant
                        self.wf(),
                        self.dense is None,
                        start + n <= self.size <= MAX_FILE_OFFSET,
                        out@.len() == n,
                        0 <= copied <= n,
                        self.disk_suffices(start as int, n as int, disk@.len() as int),
                        forall|i: int|
                            0 <= i < copied ==> #[trigger] out@[i] == self.seen_byte(
                                disk@,
                                start as int,
                                i,
                            ),
                    decreases n - copied,
                {
                    let off: usize = (start + copied) % PAGE_SIZE;
                    let count: usize = if n - copied < PAGE_SIZE - off {
                        n - copied
                    } else {
                        PAGE_SIZE - off
                    };
                    let ghost before = out@;
                    self.copy_step(start, n, copied, count, out, disk);
                    assert forall|i: int| 0 <= i < copied + count implies #[trigger] out@[i]
                        == self.seen_byte(disk@, start as int, i) by {
                        if i < copied {
                            assert(out@[i] == before[i]);
                        }
                    }
                    copied = copied + count;
                }
                assert forall|all: Seq<u8>|
                    shows_disk(all, start as int, disk@, self.persisted_size as int) implies out@
                    == #[trigger] self.content(all).subrange(start as int, start + n) by {
                    let want = self.content(all).subrange(start as int, start + n);
                    assert forall|i: int| 0 <= i < n implies out@[i] == want[i] by {
                        assert(want[i] == self.byte_at(all, start + i));
                        if self.on_disk_only(start + i) {
                            assert(i < disk@.len());
                            assert(disk@[i] == all[start + i]);
                        }
                    }
                    assert(out@ =~= want);
                }
                Ok(())
            },
        }
    }

    /// Splits a file that is held as a whole into pages.
    pub fn promote_dense_regular_cache(&mut self)
        requires
            old(self).wf(),
        ensures
            final(self).wf(),
            final(self).dense is None,
            old(self).dense is Some ==> forall|k: u128| #[trigger]
                final(self).pages@.contains_key(k) <==> k * 4096 < old(self).size,
            forall|disk: Seq<u8>| #[trigger]
                final(self).content(disk) == old(self).content(disk),
            *final(self) == (CachedRegularFile {
                dense: None,
                pages: final(self).pages,
                ..*old(self)
            }),
    {
        let ghost before = *self;
        let taken: Option<Vec<u8>> = self.dense.take();
        match taken {
            Some(dense) => {
                let mut at: usize = 0;
                while at < dense.len()
                    invariant
                        before.wf(),
                        before.dense == Some(dense),
                        dense@.len() == self.size,
                        *self == (CachedRegularFile {
                            dense: None,
                            pages: self.pages,
                            ..before
                        }),
                        self.size <= MAX_FILE_OFFSET,
                        self.pages.wf(),
                        0 <= at <= dense@.len(),
                        at == dense@.len() || at % 4096 == 0,
                        forall|k: u128| #[trigger]
                            self.pages@.contains_key(k) <==> k * 4096 < at,
                        forall|k: u128| #[trigger]
                            self.pages@.contains_key(k) ==> self.pages@[k]@.len() == 4096,
                        forall|k: u128, o: int|
                            self.pages@.contains_key(k) && 0 <= o < 4096
                                ==> #[trigger] self.pages@[k]@[o] == (if k * 4096 + o
                                < dense@.len() {
                                dense@[k * 4096 + o]
                            } else {
                                0
                            }),
                    decreases dense@.len() - at,
                {
                    let count: usize = if dense.len() - at < PAGE_SIZE {
                        dense.len() - at
                    } else {
                        PAGE_SIZE
                    };
                    let mut page = copy_range(dense.as_slice(), at, at + count);
                    resize_bytes(&mut page, PAGE_SIZE);
                    let key: u128 = (at / PAGE_SIZE) as u128;
                    let ghost was = self.pages@;
                    let ghost data = page@;
                    self.pages.insert(key, page);
                    assert forall|k: u128, o: int|
                        self.pages@.contains_key(k) && 0 <= o < 4096 implies
                        #[trigger] self.pages@[k]@[o] == (if k * 4096 + o < dense@.len() {
                        dense@[k * 4096 + o]
                    } else {
                        0
                    }) by {
                        if k == key {
                            if o < count {
                                assert(data[o] == dense@.subrange(at as int, at + count)[o]);
                            }
                        } else {
                            assert(was.contains_key(k));
                            assert(was[k]@[o] == self.pages@[k]@[o]);
                        }
                    }
                    at = at + count;
                }
                assert forall|disk: Seq<u8>| #[trigger] self.content(disk) == before.content(
                    disk,
                ) by {
                    assert forall|p: int| 0 <= p < self.size implies self.byte_at(disk, p)
                        == before.byte_at(disk, p) by {
                        let k = self.page_at(p);
                        assert(self.pages@.contains_key(k));
                        assert(self.pages@[k]@[p % 4096] == dense@[k * 4096 + p % 4096]);
                    }
                    assert(self.content(disk) =~= before.content(disk));
                }
            },
            None => {
                assert forall|disk: Seq<u8>| #[trigger] self.content(disk) == before.content(
                    disk,
                ) by {
                    assert(self.content(disk) =~= before.content(disk));
                }
            },
        }
    }
}

/// Writing once more right behind a write is one longer write.
pub proof fn writes_join(content: Seq<u8>, offset: int, a: Seq<u8>, b: Seq<u8>)
    requires
        0 <= offset,
    ensures
        overwritten(overwritten(content, offset, a), offset + a.len(), b) == overwritten(
            content,
            offset,
            a + b,
        ),
{
    assert(overwritten(overwritten(content, offset, a), offset + a.len(), b) =~= overwritten(
        content,
        offset,
        a + b,
    ));
}

/// After a write the written bytes are there, and no byte before or behind them
/// has changed.
pub proof fn write_changes_its_range(content: Seq<u8>, offset: int, buf: Seq<u8>)
    requires
        0 <= offset,
    ensures
        overwritten(content, offset, buf).subrange(offset, offset + buf.len()) == buf,
        forall|p: int|
            0 <= p < content.len() && !(offset <= p < offset + buf.len()) ==> #[trigger]
                overwritten(content, offset, buf)[p] == content[p],
        forall|p: int| content.len() <= p < offset ==> #[trigger] overwritten(content, offset, buf)[p]
            == 0,
{
    assert(overwritten(content, offset, buf).subrange(offset, offset + buf.len()) =~= buf);
}

impl CachedRegularFile {
    /// The file with a new change recorded at a time.
    pub open spec fn change_noted(&self, was: &CachedRegularFile, now: u32) -> bool {
        &&& self.dirty.seq == (if was.dirty.seq == u64::MAX {
            0
        } else {
            (was.dirty.seq + 1) as u64
        })
        &&& self.dirty.writeback == (if was.dirty.active() {
            PageCacheWritebackState::DirtyDuringWriteback
        } else {
            PageCacheWritebackState::Dirty
        })
        &&& self.dirty.last_error == was.dirty.last_error
        &&& self.dirty.full_dirty == was.dirty.full_dirty
        &&& self.mtime_sec == now && self.mtime_extra == 0
        &&& self.ctime_sec == now && self.ctime_extra == 0
    }

    pub(crate) fn note_cached_data_write(&mut self, now: u32)
        requires
            old(self).wf(),
        ensures
            final(self).wf(),
            final(self).change_noted(old(self), now),
            *final(self) == (CachedRegularFile {
                dirty: final(self).dirty,
                mtime_sec: now,
                mtime_extra: 0,
                ctime_sec: now,
                ctime_extra: 0,
                ..*old(self)
            }),
            final(self).dirty.ranges == old(self).dirty.ranges,
            final(self).dirty.size_dirty == old(self).dirty.size_dirty,
    {
        self.dirty.note_write();
        self.mtime_sec = now;
        self.mtime_extra = 0;
        self.ctime_sec = now;
        self.ctime_extra = 0;
    }

    /// Reads at `offset`. `disk` is what the disk holds there.
    pub fn cached_regular_read(&self, offset: usize, buf: &mut [u8], disk: &[u8]) -> (r: Result<
        usize,
        SysErrNo,
    >)
        requires
            self.wf(),
        ensures
            ({
                let n = if offset >= self.size {
                    0
                } else if self.size - offset < old(buf)@.len() {
                    self.size - offset
                } else {
                    old(buf)@.len() as int
                };
                &&& r is Err <==> self.dense is None && !self.disk_suffices(
                    offset as int,
                    n,
                    disk@.len() as int,
                )
                &&& r is Err ==> r == Err::<usize, SysErrNo>(SysErrNo::EIO) && final(buf)@
                    == old(buf)@
                &&& final(buf)@.len() == old(buf)@.len()
                &&& r is Ok ==> r->Ok_0 == n
                &&& n == 0 ==> final(buf)@ == old(buf)@
                &&& r is Ok && n > 0 ==> forall|all: Seq<u8>|
                    shows_disk(all, offset as int, disk@, self.persisted_size as int)
                        ==> final(buf)@ == spliced(
                        old(buf)@,
                        0,
                        (#[trigger] self.content(all)).subrange(offset as int, offset + n),
                    )
            }),
    {
        let ghost start = buf@;
        if offset >= self.size {
            assert(self.disk_suffices(offset as int, 0, disk@.len() as int));
            return Ok(0);
        }
        let n: usize = if self.size - offset < buf.len() {
            self.size - offset
        } else {
            buf.len()
        };
        let mut part = zero_bytes(n);
        match self.copy_cached_range(offset, part.as_mut_slice(), disk) {
            Ok(_) => {
                copy_into(buf, 0, part.as_slice(), 0, n);
                proof {
                    assert(part@.subrange(0, n as int) =~= part@);
                    if n == 0 {
                        assert(buf@ =~= start);
                    }
                }
                Ok(n)
            },
            Err(e) => Err(e),
        }
    }

    /// What setting the length does.
    pub open spec fn resized_to(
        &self,
        was: &CachedRegularFile,
        new_len: usize,
        now: u32,
    ) -> bool {
        &&& self.size == new_len
        &&& (self.dense is Some <==> was.dense is Some && new_len <= DENSE_REGULAR_CACHE_LIMIT)
        &&& (forall|k: u128| #[trigger]
                self.holds_page(k) <==> (was.holds_page(k) && k * 4096 < new_len) || (self.dense is Some
                    && k * 4096 < new_len))
        &&& forall|disk: Seq<u8>| #[trigger]
                self.content(disk) == resized(was.content(disk), new_len as nat)
        &&& self.change_noted(was, now)
        &&& self.dirty.size_dirty
        &&& (forall|p: int| #[trigger]
                covered(self.dirty.ranges@, p) <==> (covered(was.dirty.ranges@, p) && p
                    < new_len) || was.size <= p < new_len)
        &&& self.persisted_size == (if new_len < was.persisted_size {
                new_len
            } else {
                was.persisted_size
            })
        &&& self.truncate_to == (if new_len >= was.size {
                was.truncate_to
            } else if was.truncate_to is Some && was.truncate_to->0 < new_len {
                was.truncate_to
            } else {
                Some(new_len)
            })
    }

    /// Sets the length, padding with zeros, and records the change.
    pub fn cached_regular_resize(&mut self, new_len: usize, now: u32)
        requires
            old(self).wf(),
            new_len <= MAX_FILE_OFFSET,
        ensures
            final(self).wf(),
            final(self).resized_to(old(self), new_len, now),
    {
        let ghost first = *self;
        let old_len: usize = self.size;
        if new_len > DENSE_REGULAR_CACHE_LIMIT && self.dense.is_some() {
            self.promote_dense_regular_cache();
        }
        let ghost before = *self;
        let ghost mut shape = *self;
        assert forall|disk: Seq<u8>| #[trigger] before.content(disk) == first.content(disk) by {}
        if new_len < old_len {
            self.shrink(new_len);
            proof {
                shape = *self;
            }
            self.dirty.clip_dirty_ranges(new_len);
        } else if new_len > old_len {
            match self.dense.take() {
                Some(dense) => {
                    let mut dense = dense;
                    resize_bytes(&mut dense, new_len);
                    self.dense = Some(dense);
                },
                None => {},
            }
            self.size = new_len;
            self.dirty.mark_dirty_range(new_len, old_len, new_len);
            proof {
                shape = *self;
                assert forall|disk: Seq<u8>| #[trigger] self.content(disk) == resized(
                    before.content(disk),
                    new_len as nat,
                ) by {
                    let want = resized(before.content(disk), new_len as nat);
                    assert forall|p: int| 0 <= p < new_len implies self.byte_at(disk, p)
                        == want[p] by {
                        if p < old_len {
                            assert(before.content(disk)[p] == before.byte_at(disk, p));
                        } else if before.dense is None && before.pages@.contains_key(
                            before.page_at(p),
                        ) {
                            let k = before.page_at(p);
                            assert(before.pages@[k]@[p % 4096] == 0);
                        }
                    }
                    assert(self.content(disk) =~= want);
                }
            }
        } else {
            assert forall|disk: Seq<u8>| #[trigger] self.content(disk) == resized(
                before.content(disk),
                new_len as nat,
            ) by {
                assert(self.content(disk) =~= resized(before.content(disk), new_len as nat));
            }
        }
        self.dirty.size_dirty = true;
        let ghost marked = *self;
        assert forall|disk: Seq<u8>| #[trigger] marked.content(disk) == resized(
            first.content(disk),
            new_len as nat,
        ) by {
            assert(before.content(disk) == first.content(disk));
            assert(marked.content(disk) =~= shape.content(disk));
        }
        self.note_cached_data_write(now);
        assert forall|disk: Seq<u8>| #[trigger] self.content(disk) == resized(
            first.content(disk),
            new_len as nat,
        ) by {
            assert(self.content(disk) =~= marked.content(disk));
        }
    }

    /// Cuts the contents, without recording what has to be written back.
    fn shrink(&mut self, new_len: usize)
        requires
            old(self).wf(),
            new_len < old(self).size,
        ensures
            final(self).size == new_len,
            final(self).pages.wf(),
            final(self).persisted_size == (if new_len < old(self).persisted_size {
                new_len
            } else {
                old(self).persisted_size
            }),
            final(self).truncate_to == (if old(self).truncate_to is Some && old(self).truncate_to->0
                < new_len {
                old(self).truncate_to
            } else {
                Some(new_len)
            }),
            final(self).dense is Some <==> old(self).dense is Some,
            final(self).dense is Some ==> final(self).dense->0@.len() == new_len
                && final(self).pages@ == Map::<u128, Vec<u8>>::empty(),
            forall|k: u128| #[trigger]
                final(self).pages@.contains_key(k) ==> final(self).pages@[k]@.len() == 4096,
            forall|k: u128| #[trigger]
                final(self).pages@.contains_key(k) <==> old(self).pages@.contains_key(k) && k * 4096
                    < new_len,
            final(self).dense is None ==> forall|k: u128, o: int|
                final(self).pages@.contains_key(k) && 0 <= o < 4096 && k * 4096 + o >= new_len
                    ==> #[trigger] final(self).pages@[k]@[o] == 0,
            forall|disk: Seq<u8>| #[trigger]
                final(self).content(disk) == resized(old(self).content(disk), new_len as nat),
            *final(self) == (CachedRegularFile {
                dense: final(self).dense,
                pages: final(self).pages,
                size: new_len,
                persisted_size: final(self).persisted_size,
                truncate_to: final(self).truncate_to,
                ..*old(self)
            }),
    {
        let ghost before = *self;
        if new_len < self.persisted_size {
            self.persisted_size = new_len;
        }
        self.truncate_to = match self.truncate_to {
            Some(pending) => if pending < new_len {
                Some(pending)
            } else {
                Some(new_len)
            },
            None => Some(new_len),
        };
        match self.dense.take() {
            Some(dense) => {
                let mut dense = dense;
                dense.truncate(new_len);
                self.dense = Some(dense);
            },
            None => {
                let first_removed: usize = if new_len % PAGE_SIZE == 0 {
                    new_len / PAGE_SIZE
                } else {
                    new_len / PAGE_SIZE + 1
                };
                self.pages.truncate_from(first_removed as u128);
                if new_len % PAGE_SIZE != 0 {
                    let key: u128 = (new_len / PAGE_SIZE) as u128;
                    let off: usize = new_len % PAGE_SIZE;
                    let ghost cut = self.pages@;
                    match self.pages.remove(key) {
                        Some(page) => {
                            let mut page = page;
                            let ghost was = page@;
                            assert(before.pages@.contains_key(key));
                            fill_zero(page.as_mut_slice(), off, PAGE_SIZE - off);
                            let ghost now = page@;
                            self.pages.insert(key, page);
                            assert(now.take(off as int) =~= was.take(off as int));
                        },
                        None => {
                            assert(self.pages@ =~= cut);
                        },
                    }
                }
                assert forall|k: u128| #[trigger] self.pages@.contains_key(k) implies
                    before.pages@.contains_key(k) && self.pages@[k]@.len() == 4096 && k * 4096
                    < new_len by {}
            },
        }
        self.size = new_len;
        proof {
            assert forall|k: u128, o: int|
                self.dense is None && self.pages@.contains_key(k) && 0 <= o < 4096 && k * 4096 + o
                    >= new_len implies #[trigger] self.pages@[k]@[o] == 0 by {
                assert(k * 4096 < new_len);
                assert(k == new_len as int / 4096);
            }
            assert forall|disk: Seq<u8>| #[trigger] self.content(disk) == resized(
                before.content(disk),
                new_len as nat,
            ) by {
                let want = resized(before.content(disk), new_len as nat);
                assert forall|p: int| 0 <= p < new_len implies self.byte_at(disk, p)
                    == want[p] by {
                    assert(want[p] == before.byte_at(disk, p));
                    if before.dense is None {
                        let k = before.page_at(p);
                        assert(k * 4096 <= p < new_len);
                        if before.pages@.contains_key(k) {
                            assert(self.pages@.contains_key(k));
                            assert(self.pages@[k]@[p % 4096] == before.pages@[k]@[p % 4096]);
                        }
                    }
                }
                assert(self.content(disk) =~= want);
            }
        }
    }
}

} // verus!
