//! Writing into a cached file, and bringing its changes to disk.
use vstd::prelude::*;

use crate::bytes::{copy_into, resize_bytes, spliced, zero_bytes};
use crate::errno::SysErrNo;
use crate::fs::content::MAX_FILE_OFFSET;
use crate::fs::ext4::caches::PAGE_SIZE;
use crate::fs::ext4::dirty::{covered, DirtyRange, PageCacheDirtyModel, PageCacheWritebackState};
use crate::fs::ext4::regular::{
    overwritten, shows_disk, writes_join, CachedRegularFile, DENSE_REGULAR_CACHE_LIMIT,
    WRITEBACK_CLUSTER_BYTES,
};

verus! {

/// What is to be written to disk at a time.
pub struct WritebackSnapshot {
    pub ino: u32,
    pub target_len: usize,
    pub truncate_to: Option<usize>,
    pub range: Option<DirtyRange>,
    pub data: Vec<u8>,
    pub commit_size: bool,
    pub dirty_seq: u64,
    pub mtime_sec: u32,
    pub mtime_extra: u32,
    pub ctime_sec: u32,
    pub ctime_extra: u32,
}

/// What there is to be written.
pub enum WritebackSnapshotResult {
    NoCache,
    Clean,
    Failed(SysErrNo),
    Busy,
    Snapshot(WritebackSnapshot),
}

/// How much of `n` bytes from a position on lies in the page of that position.
pub open spec fn page_part(offset: int, n: int) -> int {
    if n < 4096 - offset % 4096 {
        n
    } else {
        4096 - offset % 4096
    }
}

impl CachedRegularFile {
    /// Whether a page can take `count` bytes: it is cached, or replaced as a
    /// whole, or was never on disk, or `disk`, which holds what is on disk from
    /// `disk_from` on, shows it.
    pub open spec fn page_ready(
        &self,
        page: int,
        count: int,
        disk: Seq<u8>,
        disk_from: int,
    ) -> bool {
        let start = page * 4096;
        let need = if self.persisted_size - start < 4096 {
            self.persisted_size - start
        } else {
            4096
        };
        self.pages@.contains_key(page as u128) || count == 4096 || start >= self.persisted_size
            || start - disk_from + need <= disk.len()
    }

    /// Writes into one page, growing the file if need be.
    fn write_page(
        &mut self,
        current: usize,
        buf: &[u8],
        from: usize,
        count: usize,
        disk: &[u8],
        disk_from: usize,
    ) -> (r: bool)
        requires
            old(self).wf(),
            old(self).dense is None,
            0 < count <= 4096 - current % 4096,
            from + count <= buf@.len(),
            current + count <= MAX_FILE_OFFSET,
            disk_from <= current / 4096 * 4096,
        ensures
            r == old(self).page_ready(
                current as int / 4096,
                count as int,
                disk@,
                disk_from as int,
            ),
            !r ==> *final(self) == *old(self),
            r ==> {
                &&& final(self).wf()
                &&& *final(self) == (CachedRegularFile {
                    pages: final(self).pages,
                    size: if old(self).size < current + count {
                        (current + count) as usize
                    } else {
                        old(self).size
                    },
                    ..*old(self)
                })
                &&& forall|k: u128| #[trigger]
                    final(self).pages@.contains_key(k) <==> old(self).pages@.contains_key(k) || k
                        == current as int / 4096
                &&& forall|all: Seq<u8>|
                    shows_disk(all, disk_from as int, disk@, old(self).persisted_size as int)
                        ==> #[trigger] final(self).content(all) == overwritten(
                        old(self).content(all),
                        current as int,
                        buf@.subrange(from as int, from + count),
                    )
            },
    {
        let ghost before = *self;
        let page: usize = current / PAGE_SIZE;
        let off: usize = current % PAGE_SIZE;
        let key: u128 = page as u128;
        let start: usize = page * PAGE_SIZE;
        let need: usize = if start >= self.persisted_size {
            0
        } else if self.persisted_size - start < PAGE_SIZE {
            self.persisted_size - start
        } else {
            PAGE_SIZE
        };
        let skip: usize = start - disk_from;
        let preserve = count != PAGE_SIZE && need > 0;
        if !self.pages.contains_key(key) && preserve && (skip > disk.len() || need > disk.len()
            - skip) {
            return false;
        }
        let mut data: Vec<u8> = match self.pages.remove(key) {
            Some(data) => data,
            None => {
                assert(self.pages@ =~= before.pages@);
                let mut fresh = zero_bytes(PAGE_SIZE);
                if preserve {
                    copy_into(fresh.as_mut_slice(), 0, disk, skip, need);
                }
                fresh
            },
        };
        let ghost base = data@;
        copy_into(data.as_mut_slice(), off, buf, from, count);
        let ghost now = data@;
        self.pages.insert(key, data);
        if self.size < current + count {
            self.size = current + count;
        }
        proof {
            let piece = buf@.subrange(from as int, from + count);
            assert(now == spliced(base, off as int, piece));
            assert forall|k: u128, o: int|
                self.pages@.contains_key(k) && 0 <= o < 4096 && k * 4096 + o >= self.size implies
                #[trigger] self.pages@[k]@[o] == 0 by {
                if k == key {
                    assert(now[o] == base[o]);
                } else {
                    assert(before.pages@.contains_key(k));
                    assert(before.pages@[k]@[o] == 0);
                }
            }
            assert forall|k: u128| #[trigger] self.pages@.contains_key(k) implies
                self.pages@[k]@.len() == 4096 && k * 4096 < self.size by {
                if k != key {
                    assert(before.pages@.contains_key(k));
                }
            }
            assert forall|all: Seq<u8>|
                shows_disk(all, disk_from as int, disk@, before.persisted_size as int) implies
                #[trigger] self.content(all) == overwritten(
                before.content(all),
                current as int,
                piece,
            ) by {
                let want = overwritten(before.content(all), current as int, piece);
                assert forall|p: int| 0 <= p < self.size implies self.byte_at(all, p)
                    == want[p] by {
                    let k = self.page_at(p);
                    if k == key {
                        let o = p % 4096;
                        assert(p == page * 4096 + o);
                        assert(self.pages@[k]@[o] == now[o]);
                        if off <= o < off + count {
                            assert(now[o] == piece[o - off]);
                            assert(want[p] == piece[p - current]);
                        } else {
                            assert(now[o] == base[o]);
                            if before.pages@.contains_key(key) {
                                assert(base == before.pages@[key]@);
                                if p >= before.size {
                                    assert(before.pages@[key]@[o] == 0);
                                }
                            } else if p < before.persisted_size {
                                if count != 4096 {
                                    let i = start - disk_from + o;
                                    assert(base[o] == disk@.subrange(
                                        start - disk_from,
                                        start - disk_from + (if before.persisted_size - start
                                            < 4096 {
                                            before.persisted_size - start
                                        } else {
                                            4096
                                        }),
                                    )[o]);
                                    assert(disk@[i] == all[disk_from + i]);
                                }
                            }
                            if p < before.size {
                                assert(before.content(all)[p] == before.byte_at(all, p));
                            }
                        }
                    } else {
                        assert(!(current <= p < current + count)) by {
                            if current <= p < current + count {
                                assert(p / 4096 == page);
                            }
                        }
                        assert(self.pages@.contains_key(k) == before.pages@.contains_key(k));
                        if p < before.size {
                            assert(before.content(all)[p] == before.byte_at(all, p));
                        } else if before.pages@.contains_key(k) {
                            assert(before.pages@[k]@[p % 4096] == 0);
                        }
                    }
                }
                assert(self.content(all) =~= want);
            }
        }
        true
    }
}

impl CachedRegularFile {
    fn write_dense(&mut self, offset: usize, buf: &[u8])
        requires
            old(self).wf(),
            old(self).dense is Some,
            offset + buf@.len() <= MAX_FILE_OFFSET,
        ensures
            final(self).wf(),
            final(self).dense is Some,
            *final(self) == (CachedRegularFile {
                dense: final(self).dense,
                size: if old(self).size < offset + buf@.len() {
                    (offset + buf@.len()) as usize
                } else {
                    old(self).size
                },
                ..*old(self)
            }),
            forall|all: Seq<u8>| #[trigger]
                final(self).content(all) == overwritten(
                    old(self).content(all),
                    offset as int,
                    buf@,
                ),
    {
        let ghost before = *self;
        let end: usize = offset + buf.len();
        match self.dense.take() {
            Some(dense) => {
                let mut dense = dense;
                let ghost was = dense@;
                if end > dense.len() {
                    resize_bytes(&mut dense, end);
                }
                let n: usize = buf.len();
                copy_into(dense.as_mut_slice(), offset, buf, 0, n);
                self.dense = Some(dense);
                proof {
                    assert(buf@.subrange(0, n as int) =~= buf@);
                    assert(dense@ =~= overwritten(was, offset as int, buf@));
                }
            },
            None => {},
        }
        if self.size < end {
            self.size = end;
        }
        proof {
            assert forall|all: Seq<u8>| #[trigger] self.content(all) == overwritten(
                before.content(all),
                offset as int,
                buf@,
            ) by {
                assert(before.content(all) =~= before.dense->0@);
                assert(self.content(all) =~= self.dense->0@);
            }
        }
    }

    /// Writes page by page, up to the first page that is not ready, and says
    /// how much was written.
    #[verifier::rlimit(60)]
    #[verifier::spinoff_prover]
    fn write_pages(&mut self, offset: usize, buf: &[u8], disk: &[u8]) -> (copied: usize)
        requires
            old(self).wf(),
            old(self).dense is None,
            buf@.len() > 0,
            offset + buf@.len() <= MAX_FILE_OFFSET,
        ensures
            final(self).wf(),
            final(self).dense is None,
            copied <= buf@.len(),
            copied == 0 ==> *final(self) == *old(self),
            copied < buf@.len() ==> !old(self).page_ready(
                (offset + copied) / 4096,
                page_part(offset + copied, buf@.len() - copied),
                disk@,
                offset as int / 4096 * 4096,
            ),
            0 < copied < buf@.len() ==> (offset + copied) % 4096 == 0 && page_part(
                offset + copied,
                buf@.len() - copied,
            ) == buf@.len() - copied,
            copied > 0 ==> old(self).page_ready(
                offset as int / 4096,
                page_part(offset as int, buf@.len() as int),
                disk@,
                offset as int / 4096 * 4096,
            ),
            *final(self) == (CachedRegularFile {
                pages: final(self).pages,
                size: if copied > 0 && old(self).size < offset + copied {
                    (offset + copied) as usize
                } else {
                    old(self).size
                },
                ..*old(self)
            }),
            forall|all: Seq<u8>|
                copied > 0 && shows_disk(
                    all,
                    offset as int / 4096 * 4096,
                    disk@,
                    old(self).persisted_size as int,
                ) ==> #[trigger] final(self).content(all) == overwritten(
                    old(self).content(all),
                    offset as int,
                    buf@.take(copied as int),
                ),
            copied > 0 ==> forall|k: u128| #[trigger]
                final(self).pages@.contains_key(k) <==> old(self).pages@.contains_key(k) || offset
                    as int / 4096 <= k <= (offset + copied - 1) / 4096,
    {
        let ghost before = *self;
        let disk_from: usize = offset / PAGE_SIZE * PAGE_SIZE;
        let mut copied: usize = 0;
        let mut stopped = false;
        while copied < buf.len() && !stopped
            invariant
                self.wf(),
                before.wf(),
                self.dense is None,
                before.dense is None,
                disk_from == offset as int / 4096 * 4096,
                offset + buf@.len() <= MAX_FILE_OFFSET,
                0 <= copied <= buf@.len(),
                stopped ==> copied < buf@.len() && !before.page_ready(
                    (offset + copied) / 4096,
                    page_part(offset + copied, buf@.len() - copied),
                    disk@,
                    disk_from as int,
                ),
                0 < copied < buf@.len() ==> (offset + copied) % 4096 == 0,
                *self == (CachedRegularFile {
                    pages: self.pages,
                    size: if copied > 0 && before.size < offset + copied {
                        (offset + copied) as usize
                    } else {
                        before.size
                    },
                    ..before
                }),
                forall|k: u128| #[trigger]
                    self.pages@.contains_key(k) <==> before.pages@.contains_key(k) || (copied > 0
                        && offset as int / 4096 <= k <= (offset + copied - 1) / 4096),
                copied == 0 ==> *self == before,
                copied > 0 ==> before.page_ready(
                    offset as int / 4096,
                    page_part(offset as int, buf@.len() as int),
                    disk@,
                    disk_from as int,
                ),
                forall|all: Seq<u8>|
                    copied > 0 && shows_disk(
                        all,
                        disk_from as int,
                        disk@,
                        before.persisted_size as int,
                    ) ==> #[trigger] self.content(all) == overwritten(
                        before.content(all),
                        offset as int,
                        buf@.take(copied as int),
                    ),
            decreases
                buf@.len() - copied + (if stopped {
                    0int
                } else {
                    1int
                }),
        {
            let current: usize = offset + copied;
            let off: usize = current % PAGE_SIZE;
            let count: usize = if buf.len() - copied < PAGE_SIZE - off {
                buf.len() - copied
            } else {
                PAGE_SIZE - off
            };
            let ghost prior = *self;
            assert(disk_from <= current as int / 4096 * 4096);
            if self.write_page(current, buf, copied, count, disk, disk_from) {
                proof {
                    let piece = buf@.subrange(copied as int, copied + count);
                    assert(buf@.take(copied as int) + piece =~= buf@.take(copied + count));
                    assert forall|all: Seq<u8>|
                        shows_disk(
                            all,
                            disk_from as int,
                            disk@,
                            before.persisted_size as int,
                        ) implies #[trigger] self.content(all) == overwritten(
                        before.content(all),
                        offset as int,
                        buf@.take(copied + count),
                    ) by {
                        if copied > 0 {
                            assert(prior.content(all) == overwritten(
                                before.content(all),
                                offset as int,
                                buf@.take(copied as int),
                            ));
                            writes_join(
                                before.content(all),
                                offset as int,
                                buf@.take(copied as int),
                                piece,
                            );
                        } else {
                            assert(piece =~= buf@.take(count as int));
                        }
                    }
                }
                copied = copied + count;
            } else {
                proof {
                    let page = current as int / 4096;
                    assert(!prior.pages@.contains_key(page as u128));
                    assert(!before.pages@.contains_key(page as u128));
                }
                stopped = true;
            }
        }
        copied
    }
}

impl CachedRegularFile {
    /// What a write does, and when it fails.
    pub open spec fn wrote(
        &self,
        was: &CachedRegularFile,
        offset: usize,
        buf: Seq<u8>,
        disk: Seq<u8>,
        now: u32,
        r: Result<usize, SysErrNo>,
    ) -> bool {
        &&& self.persisted_size == was.persisted_size
        &&& self.truncate_to == was.truncate_to
        &&& (r is Err <==> was.dense is None && !was.page_ready(
                offset as int / 4096,
                page_part(offset as int, buf.len() as int),
                disk,
                offset as int / 4096 * 4096,
            ))
        &&& (r is Err ==> r == Err::<usize, SysErrNo>(SysErrNo::EIO) && *self == *was)
        &&& (r is Ok ==> {
                let n = r->Ok_0;
                &&& 0 < n <= buf.len()
                &&& n < buf.len() ==> (offset + n) % 4096 == 0 && was.dense is None
                    && !was.page_ready(
                    (offset + n) / 4096,
                    buf.len() - n,
                    disk,
                    offset as int / 4096 * 4096,
                )
                &&& self.size == (if was.size < offset + n {
                    (offset + n) as usize
                } else {
                    was.size
                })
                &&& self.dense is Some <==> was.dense is Some && offset + buf.len()
                    <= DENSE_REGULAR_CACHE_LIMIT
                &&& self.dense is None ==> forall|k: u128| #[trigger]
                    self.holds_page(k) <==> was.holds_page(k) || offset as int / 4096 <= k <= (offset
                        + n - 1) / 4096
                &&& forall|all: Seq<u8>|
                    shows_disk(
                        all,
                        offset as int / 4096 * 4096,
                        disk,
                        was.persisted_size as int,
                    ) ==> #[trigger] self.content(all) == overwritten(
                        was.content(all),
                        offset as int,
                        buf.take(n as int),
                    )
                &&& self.change_noted(was, now)
                &&& self.dirty.size_dirty == (was.dirty.size_dirty || offset + n
                    > was.size)
                &&& forall|p: int| #[trigger]
                    covered(self.dirty.ranges@, p) <==> covered(was.dirty.ranges@, p)
                        || offset <= p < offset + n
            })
        &&& (was.disk_covers_pages(offset as int, buf.len() as int, disk.len() as int)
                ==> r == Ok::<usize, SysErrNo>(buf.len() as usize))
    }

    /// Writes at `offset` and records the change. `disk` is what the disk holds
    /// from the start of the first page on; if it is too short for the first
    /// page, that is an error, and if it is too short for the last page, the
    /// write ends in front of that page. The result is how much was written.
    #[verifier::rlimit(80)]
    #[verifier::spinoff_prover]
    pub fn cached_regular_write(&mut self, offset: usize, buf: &[u8], disk: &[u8], now: u32) -> (r:
        Result<usize, SysErrNo>)
        requires
            old(self).wf(),
            buf@.len() > 0,
            offset + buf@.len() <= MAX_FILE_OFFSET,
        ensures
            final(self).wf(),
            final(self).wrote(old(self), offset, buf@, disk@, now, r),
    {
        let ghost first = *self;
        let end: usize = offset + buf.len();
        let old_len: usize = self.size;
        if end > DENSE_REGULAR_CACHE_LIMIT && self.dense.is_some() {
            self.promote_dense_regular_cache();
        }
        let ghost before = *self;
        assert(forall|all: Seq<u8>| #[trigger] before.content(all) == first.content(all));
        let copied: usize = if self.dense.is_some() {
            self.write_dense(offset, buf);
            assert(buf@.take(buf@.len() as int) =~= buf@);
            buf.len()
        } else {
            self.write_pages(offset, buf, disk)
        };
        proof {
            if first.dense is Some && before.dense is None && copied < buf@.len() {
                let page = (offset + copied) / 4096;
                assert(!before.pages@.contains_key(page as u128));
            }
            if before.dense is None && copied < buf@.len() && first.disk_covers_pages(
                offset as int,
                buf@.len() as int,
                disk@.len() as int,
            ) {
                first.lemma_covering_is_ready(
                    &before,
                    offset as int,
                    buf@.len() as int,
                    disk@,
                    (offset + copied) / 4096,
                    page_part(offset + copied, buf@.len() - copied),
                );
            }
        }
        if copied == 0 {
            return Err(SysErrNo::EIO);
        }
        let written_end: usize = offset + copied;
        let ghost shape = *self;
        self.dirty.mark_dirty_range(self.size, offset, written_end);
        if written_end > old_len {
            self.dirty.size_dirty = true;
        }
        let ghost marked = *self;
        self.note_cached_data_write(now);
        proof {
            if self.dense is None {
                assert forall|k: u128| #[trigger] self.holds_page(k) <==> first.holds_page(k)
                    || offset as int / 4096 <= k <= (offset + copied - 1) / 4096 by {
                    assert(before.pages@.contains_key(k) <==> first.holds_page(k));
                    assert(shape.pages@.contains_key(k) <==> before.pages@.contains_key(k) || offset
                        as int / 4096 <= k <= (offset + copied - 1) / 4096);
                }
            }
            assert forall|all: Seq<u8>|
                shows_disk(
                    all,
                    offset as int / 4096 * 4096,
                    disk@,
                    first.persisted_size as int,
                ) implies #[trigger] self.content(all) == overwritten(
                first.content(all),
                offset as int,
                buf@.take(copied as int),
            ) by {
                assert(before.content(all) == first.content(all));
                assert(self.content(all) =~= shape.content(all));
                assert(shape.content(all) == overwritten(
                    before.content(all),
                    offset as int,
                    buf@.take(copied as int),
                ));
            }
        }
        Ok(copied)
    }

    /// Whether `have` bytes of disk from the start of the first page on reach
    /// as far as the pages of a write were on disk.
    pub open spec fn disk_covers_pages(&self, offset: int, n: int, have: int) -> bool {
        let first = offset / 4096 * 4096;
        let last_end = ((offset + n - 1) / 4096 + 1) * 4096;
        first + have >= self.persisted_size || first + have >= last_end
    }

    proof fn lemma_covering_is_ready(
        &self,
        before: &CachedRegularFile,
        offset: int,
        n: int,
        disk: Seq<u8>,
        page: int,
        count: int,
    )
        requires
            0 <= offset,
            0 < n,
            self.persisted_size == before.persisted_size,
            offset / 4096 <= page <= (offset + n - 1) / 4096,
            self.disk_covers_pages(offset, n, disk.len() as int),
        ensures
            before.page_ready(page, count, disk, offset / 4096 * 4096),
    {
    }
}

/// The first range to write back, cut to what is written at a time.
pub open spec fn next_cluster(ranges: Seq<DirtyRange>) -> Option<DirtyRange> {
    if ranges.len() == 0 {
        None
    } else if ranges[0].end - ranges[0].start > WRITEBACK_CLUSTER_BYTES {
        Some(
            DirtyRange {
                start: ranges[0].start,
                end: (ranges[0].start + WRITEBACK_CLUSTER_BYTES) as usize,
            },
        )
    } else {
        Some(ranges[0])
    }
}

/// Whether all that has to be written back is in the next cluster.
pub open spec fn cluster_is_all(ranges: Seq<DirtyRange>) -> bool {
    ranges.len() == 0 || (ranges.len() == 1 && next_cluster(ranges) == Some(ranges[0]))
}

/// What has to be written back, with a file that is to be written as a whole
/// spelled out as one range.
pub open spec fn ranges_spelled_out(f: &CachedRegularFile) -> Seq<DirtyRange> {
    if f.dirty.full_dirty {
        if f.size == 0 {
            Seq::empty()
        } else {
            seq![DirtyRange { start: 0, end: f.size }]
        }
    } else {
        f.dirty.ranges@
    }
}

impl CachedRegularFile {
    /// The bytes that are written back next, if any: what of them is not cached
    /// has to be read from disk first.
    pub fn next_writeback_range(&self) -> (r: Option<DirtyRange>)
        requires
            self.wf(),
        ensures
            r == next_cluster(ranges_spelled_out(self)),
    {
        if self.dirty.full_dirty {
            if self.size == 0 {
                None
            } else if self.size > WRITEBACK_CLUSTER_BYTES {
                Some(DirtyRange { start: 0, end: WRITEBACK_CLUSTER_BYTES })
            } else {
                Some(DirtyRange { start: 0, end: self.size })
            }
        } else if self.dirty.ranges.len() == 0 {
            None
        } else {
            let range = self.dirty.ranges[0];
            if range.end - range.start > WRITEBACK_CLUSTER_BYTES {
                Some(
                    DirtyRange {
                        start: range.start,
                        end: range.start + WRITEBACK_CLUSTER_BYTES,
                    },
                )
            } else {
                Some(range)
            }
        }
    }

    /// Only what has to be written back is spelled out, and the state and the
    /// error may be others.
    pub open spec fn spelled_out(
        &self,
        was: &CachedRegularFile,
        writeback: PageCacheWritebackState,
        last_error: Option<SysErrNo>,
    ) -> bool {
        &&& self.dirty.ranges@ == ranges_spelled_out(was)
        &&& *self == (CachedRegularFile {
            dirty: PageCacheDirtyModel {
                ranges: self.dirty.ranges,
                full_dirty: false,
                writeback,
                last_error,
                ..was.dirty
            },
            ..*was
        })
    }

    /// What starting to write back does, and when nothing is to be written.
    pub open spec fn snapshot_taken(
        &self,
        was: &CachedRegularFile,
        ino: u32,
        disk: Seq<u8>,
        r: WritebackSnapshotResult,
    ) -> bool {
        &&& !(r is NoCache)
        &&& *self == (CachedRegularFile { dirty: self.dirty, ..*was })
        &&& forall|all: Seq<u8>| #[trigger] self.content(all) == was.content(all)
        &&& self.dirty.seq == was.dirty.seq
        &&& self.dirty.pending() == was.dirty.pending() || was.size == 0
        &&& (r is Clean <==> !was.dirty.pending())
        &&& (r is Clean ==> *self == *was)
        &&& (r is Busy <==> was.dirty.pending() && was.dirty.last_error is None && (
            was.dirty.active() || (ranges_spelled_out(was).len() == 0
                && !was.dirty.size_dirty)))
        &&& ((r is Failed) <==> was.dirty.pending() && (was.dirty.last_error is Some || (
            !was.dirty.active() && (ranges_spelled_out(was).len() > 0
                || was.dirty.size_dirty) && !was.snapshot_readable(
                disk.len() as int,
            ))))
        &&& (r is Failed && was.dirty.last_error is Some ==> r
                == WritebackSnapshotResult::Failed(was.dirty.last_error->0) && *self
                == *was)
        &&& (r is Failed && was.dirty.last_error is None ==> r
                == WritebackSnapshotResult::Failed(SysErrNo::EIO) && self.spelled_out(
                was,
                PageCacheWritebackState::Dirty,
                Some(SysErrNo::EIO),
            ))
        &&& (r is Busy ==> self.spelled_out(was, was.dirty.writeback, None))
        &&& (match r {
                WritebackSnapshotResult::Snapshot(s) => {
                    &&& s.ino == ino
                    &&& s.target_len == was.size
                    &&& s.truncate_to == was.truncate_to
                    &&& s.range == next_cluster(ranges_spelled_out(was))
                    &&& s.commit_size == cluster_is_all(ranges_spelled_out(was))
                    &&& s.dirty_seq == was.dirty.seq
                    &&& s.mtime_sec == was.mtime_sec && s.mtime_extra
                        == was.mtime_extra
                    &&& s.ctime_sec == was.ctime_sec && s.ctime_extra
                        == was.ctime_extra
                    &&& s.range is None ==> s.data@ == Seq::<u8>::empty()
                    &&& s.range is Some ==> s.range->0.start < s.range->0.end <= was.size
                    &&& s.range is Some ==> forall|all: Seq<u8>|
                        shows_disk(
                            all,
                            s.range->0.start as int,
                            disk,
                            was.persisted_size as int,
                        ) ==> s.data@ == (#[trigger] was.content(all)).subrange(
                            s.range->0.start as int,
                            s.range->0.end as int,
                        )
                    &&& self.spelled_out(was, PageCacheWritebackState::Writeback, None)
                },
                _ => true,
            })
    }

    /// Starts writing back: gives the next bytes to write, unless nothing is
    /// pending, an earlier failure has not been acknowledged, or writing is
    /// under way. `disk` is what the disk holds from the start of those bytes.
    pub fn take_writeback_snapshot(&mut self, ino: u32, disk: &[u8]) -> (r: WritebackSnapshotResult)
        requires
            old(self).wf(),
        ensures
            final(self).wf(),
            final(self).snapshot_taken(old(self), ino, disk@, r),
    {
        let ghost first = *self;
        if !self.is_dirty() {
            return WritebackSnapshotResult::Clean;
        }
        match self.dirty.last_error {
            Some(err) => {
                return WritebackSnapshotResult::Failed(err);
            },
            None => {},
        }
        let range = self.next_writeback_range();
        let ghost spelled = ranges_spelled_out(self);
        if self.dirty.full_dirty {
            let mut ranges: Vec<DirtyRange> = Vec::new();
            if self.size != 0 {
                ranges.push(DirtyRange { start: 0, end: self.size });
            }
            assert(ranges@ =~= spelled);
            self.dirty.ranges = ranges;
            self.dirty.full_dirty = false;
        }
        proof {
            assert forall|p: int| #[trigger] covered(self.dirty.ranges@, p) implies p
                < self.size by {}
            assert forall|all: Seq<u8>| #[trigger] self.content(all) == first.content(all) by {
                assert(self.content(all) =~= first.content(all));
            }
            if spelled.len() > 0 {
                assert(spelled[0].start <= spelled[0].end - 1 < spelled[0].end);
                assert(covered(spelled, spelled[0].end - 1));
            }
        }
        let dirty_seq: u64 = match self.dirty.begin_writeback() {
            Some(seq) => seq,
            None => {
                assert forall|all: Seq<u8>| #[trigger] self.content(all) == first.content(all) by {
                    assert(self.content(all) =~= first.content(all));
                }
                return WritebackSnapshotResult::Busy;
            },
        };
        assert forall|all: Seq<u8>| #[trigger] self.content(all) == first.content(all) by {
            assert(self.content(all) =~= first.content(all));
        }
        let commit_size = match range {
            None => true,
            Some(completed) => self.dirty.ranges.len() == 1 && completed.start
                == self.dirty.ranges[0].start && completed.end == self.dirty.ranges[0].end,
        };
        let mut data: Vec<u8> = Vec::new();
        match range {
            Some(range) => {
                data = zero_bytes(range.end - range.start);
                let ghost begun = *self;
                match self.copy_cached_range(range.start, data.as_mut_slice(), disk) {
                    Ok(_) => {
                        assert forall|all: Seq<u8>|
                            shows_disk(
                                all,
                                range.start as int,
                                disk@,
                                first.persisted_size as int,
                            ) implies data@ == (#[trigger] first.content(all)).subrange(
                            range.start as int,
                            range.end as int,
                        ) by {
                            assert(self.content(all) == first.content(all));
                            assert(range.start + (range.end - range.start) == range.end);
                        }
                    },
                    Err(err) => {
                        self.dirty.fail_writeback(err);
                        assert forall|all: Seq<u8>| #[trigger] self.content(all)
                            == first.content(all) by {
                            assert(self.content(all) =~= begun.content(all));
                        }
                        proof {
                            lemma_same_disk_need(&first, &begun);
                        }
                        return WritebackSnapshotResult::Failed(err);
                    },
                }
                proof {
                    lemma_same_disk_need(&first, self);
                }
            },
            None => {},
        }
        WritebackSnapshotResult::Snapshot(
            WritebackSnapshot {
                ino,
                target_len: self.size,
                truncate_to: self.truncate_to,
                range,
                data,
                commit_size,
                dirty_seq,
                mtime_sec: self.mtime_sec,
                mtime_extra: self.mtime_extra,
                ctime_sec: self.ctime_sec,
                ctime_extra: self.ctime_extra,
            },
        )
    }

    /// Whether the next bytes to write back can be had with `have` bytes of
    /// disk from their start on.
    pub open spec fn snapshot_readable(&self, have: int) -> bool {
        match next_cluster(ranges_spelled_out(self)) {
            Some(r) => self.dense is Some || self.disk_suffices(
                r.start as int,
                r.end - r.start,
                have,
            ),
            None => true,
        }
    }

    /// What the end of writing a snapshot does.
    pub open spec fn snapshot_finished(
        &self,
        was: &CachedRegularFile,
        snapshot: &WritebackSnapshot,
        result: Result<(), SysErrNo>,
        requeue: bool,
    ) -> bool {
        &&& (match result {
            Err(e) => !requeue && *self == (CachedRegularFile {
                dirty: PageCacheDirtyModel {
                    writeback: if was.dirty.pending() {
                        PageCacheWritebackState::Dirty
                    } else {
                        PageCacheWritebackState::Clean
                    },
                    last_error: Some(e),
                    ..was.dirty
                },
                ..*was
            }),
            Ok(_) => {
                let same = was.dirty.seq == snapshot.dirty_seq;
                &&& requeue == self.dirty.pending()
                &&& *self == (CachedRegularFile {
                    truncate_to: if same && was.truncate_to == snapshot.truncate_to {
                        None
                    } else {
                        was.truncate_to
                    },
                    persisted_size: if !requeue {
                        snapshot.target_len
                    } else if was.persisted_size < snapshot.target_len {
                        was.persisted_size
                    } else {
                        snapshot.target_len
                    },
                    dirty: PageCacheDirtyModel {
                        ranges: self.dirty.ranges,
                        full_dirty: was.dirty.full_dirty && !same,
                        size_dirty: was.dirty.size_dirty && !(same && snapshot.commit_size),
                        writeback: if requeue {
                            PageCacheWritebackState::Dirty
                        } else {
                            PageCacheWritebackState::Clean
                        },
                        last_error: if same {
                            None
                        } else {
                            was.dirty.last_error
                        },
                        ..was.dirty
                    },
                    ..*was
                })
                &&& !same ==> requeue && self.dirty.ranges == was.dirty.ranges
                &&& same && snapshot.range is None ==> self.dirty.ranges@ == was.dirty.ranges@
                &&& same && snapshot.range is Some ==> forall|p: int| #[trigger]
                    covered(self.dirty.ranges@, p) <==> covered(was.dirty.ranges@, p) && !(
                    snapshot.range->0.start <= p < snapshot.range->0.end)
            },
        })
    }

    /// Records how writing a snapshot went. The result says whether anything is
    /// still pending and should wait for writing back again.
    pub fn finish_writeback_snapshot(
        &mut self,
        snapshot: &WritebackSnapshot,
        result: Result<(), SysErrNo>,
    ) -> (requeue: bool)
        requires
            old(self).wf(),
            old(self).dirty.seq == snapshot.dirty_seq ==> snapshot.target_len == old(self).size,
            old(self).dirty.seq != snapshot.dirty_seq ==> old(self).dirty.pending(),
        ensures
            final(self).wf(),
            final(self).snapshot_finished(old(self), snapshot, result, requeue),
    {
        match result {
            Ok(_) => {
                let same_truncate = match (self.truncate_to, snapshot.truncate_to) {
                    (None, None) => true,
                    (Some(a), Some(b)) => a == b,
                    _ => false,
                };
                if self.dirty.seq == snapshot.dirty_seq && same_truncate {
                    self.truncate_to = None;
                }
                let ghost before = *self;
                let requeue = self.dirty.finish_writeback(
                    snapshot.dirty_seq,
                    snapshot.range,
                    snapshot.commit_size,
                );
                proof {
                    assert forall|p: int| #[trigger] covered(self.dirty.ranges@, p) implies p
                        < self.size by {
                        assert(covered(before.dirty.ranges@, p));
                    }
                }
                if !requeue {
                    self.persisted_size = snapshot.target_len;
                } else if snapshot.target_len < self.persisted_size {
                    self.persisted_size = snapshot.target_len;
                }
                requeue
            },
            Err(err) => {
                self.dirty.fail_writeback(err);
                false
            },
        }
    }

    /// Takes note of a failure that was told; whether anything is pending.
    pub fn acknowledge_writeback_error(&mut self, err: SysErrNo) -> (r: bool)
        requires
            old(self).wf(),
        ensures
            final(self).wf(),
            r == old(self).dirty.pending(),
            *final(self) == (CachedRegularFile {
                dirty: PageCacheDirtyModel {
                    last_error: if old(self).dirty.last_error == Some(err) {
                        None
                    } else {
                        old(self).dirty.last_error
                    },
                    ..old(self).dirty
                },
                ..*old(self)
            }),
    {
        match self.dirty.last_error {
            Some(last) => if last == err {
                self.dirty.last_error = None;
            },
            None => {},
        }
        self.dirty.is_dirty()
    }
}

proof fn lemma_same_disk_need(a: &CachedRegularFile, b: &CachedRegularFile)
    requires
        a.dense == b.dense,
        a.pages == b.pages,
        a.persisted_size == b.persisted_size,
    ensures
        forall|start: int, n: int, have: int| #[trigger]
            a.disk_suffices(start, n, have) == b.disk_suffices(start, n, have),
{
    assert forall|start: int, n: int, have: int| #[trigger]
        a.disk_suffices(start, n, have) == b.disk_suffices(start, n, have) by {
        assert forall|p: int| a.on_disk_only(p) == b.on_disk_only(p) by {}
        if a.disk_suffices(start, n, have) {
            assert forall|p: int| start + have <= p < start + n implies
                !#[trigger] b.on_disk_only(p) by {
                assert(!a.on_disk_only(p));
            }
        }
        if b.disk_suffices(start, n, have) {
            assert forall|p: int| start + have <= p < start + n implies
                !#[trigger] a.on_disk_only(p) by {
                assert(!b.on_disk_only(p));
            }
        }
    }
}

/// Once the writing of a snapshot has ended, well or not, the file is not under
/// writeback, and no error but that of this writing is left of it.
pub proof fn finished_snapshot_ends_writeback(
    was: &CachedRegularFile,
    after: &CachedRegularFile,
    s: &WritebackSnapshot,
    result: Result<(), SysErrNo>,
    requeue: bool,
)
    requires
        after.snapshot_finished(was, s, result, requeue),
    ensures
        !after.dirty.active(),
        result is Err ==> after.dirty.last_error == Some(result->Err_0),
        result is Ok && was.dirty.seq == s.dirty_seq ==> after.dirty.last_error is None,
{
}

/// After a snapshot was taken and written well, the next one is taken, or all is
/// written, or the disk does not show what is needed: nobody has to wait. After
/// one that was not written the next attempt tells why.
pub proof fn next_snapshot_need_not_wait(
    was: &CachedRegularFile,
    mid: &CachedRegularFile,
    after: &CachedRegularFile,
    later: &CachedRegularFile,
    ino: u32,
    disk: Seq<u8>,
    s: &WritebackSnapshot,
    result: Result<(), SysErrNo>,
    requeue: bool,
    later_disk: Seq<u8>,
    r: WritebackSnapshotResult,
)
    requires
        mid.snapshot_taken(was, ino, disk, WritebackSnapshotResult::Snapshot(*s)),
        after.snapshot_finished(mid, s, result, requeue),
        later.snapshot_taken(after, ino, later_disk, r),
    ensures
        !(r is Busy),
        result is Ok && !requeue ==> r is Clean,
        result is Ok && requeue && after.snapshot_readable(later_disk.len() as int) ==> r is Snapshot,
        result is Err && mid.dirty.pending() ==> r == WritebackSnapshotResult::Failed(
            result->Err_0,
        ),
{
}

/// Where a file has to be cut on disk before a snapshot is written, given its
/// length on disk.
pub fn snapshot_truncation(snapshot: &WritebackSnapshot, disk_size: u64) -> (r: Option<u64>)
    ensures
        ({
            let to = if snapshot.truncate_to is Some && snapshot.truncate_to->0
                < snapshot.target_len {
                snapshot.truncate_to->0
            } else {
                snapshot.target_len
            };
            r == (if to < disk_size {
                Some(to as u64)
            } else {
                None
            })
        }),
{
    let to: usize = match snapshot.truncate_to {
        Some(t) => if t < snapshot.target_len {
            t
        } else {
            snapshot.target_len
        },
        None => snapshot.target_len,
    };
    if (to as u64) < disk_size {
        Some(to as u64)
    } else {
        None
    }
}

/// What length a file gets on disk once a snapshot is written, given the length
/// it then has there.
pub fn snapshot_final_size(snapshot: &WritebackSnapshot, disk_size: u64) -> (r: Option<u64>)
    ensures
        r == (if snapshot.commit_size && snapshot.target_len > disk_size {
            Some(snapshot.target_len as u64)
        } else {
            None
        }),
{
    if snapshot.commit_size && snapshot.target_len as u64 > disk_size {
        Some(snapshot.target_len as u64)
    } else {
        None
    }
}

/// Whether a file that should be empty on disk is, given its lengths there
/// before and after.
pub fn snapshot_emptied(snapshot: &WritebackSnapshot, size_before: u64, size_after: u64) -> (r:
    Result<(), SysErrNo>)
    ensures
        r == (if snapshot.target_len == 0 && size_before != 0 && size_after != 0 {
            Err::<(), SysErrNo>(SysErrNo::EIO)
        } else {
            Ok(())
        }),
{
    if snapshot.target_len == 0 && size_before != 0 && size_after != 0 {
        Err(SysErrNo::EIO)
    } else {
        Ok(())
    }
}

} // verus!
