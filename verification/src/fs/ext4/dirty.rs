//! Which bytes of a cached file still have to be written back, and how far
//! writing them has come.
use vstd::prelude::*;

use crate::errno::SysErrNo;

verus! {

/// The bytes from `start` up to, not including, `end`.
#[derive(Clone, Copy, PartialEq, Eq, Structural, Debug)]
pub struct DirtyRange {
    pub start: usize,
    pub end: usize,
}

/// How far writing back has come.
#[derive(Clone, Copy, PartialEq, Eq, Structural, Debug)]
pub enum PageCacheWritebackState {
    Clean,
    Dirty,
    Queued,
    Writeback,
    DirtyDuringWriteback,
}

/// What of a cached file has to be written back.
pub struct PageCacheDirtyModel {
    pub ranges: Vec<DirtyRange>,
    pub full_dirty: bool,
    pub size_dirty: bool,
    pub writeback: PageCacheWritebackState,
    pub last_error: Option<SysErrNo>,
    pub seq: u64,
}

/// Whether some range holds a position.
pub open spec fn covered(ranges: Seq<DirtyRange>, p: int) -> bool {
    exists|i: int| 0 <= i < ranges.len() && (#[trigger] ranges[i]).start <= p < ranges[i].end
}

/// The ranges are not empty, in order, and apart from each other.
pub open spec fn ranges_wf(ranges: Seq<DirtyRange>) -> bool {
    &&& forall|i: int| 0 <= i < ranges.len() ==> (#[trigger] ranges[i]).start < ranges[i].end
    &&& forall|i: int, j: int|
        0 <= i < j < ranges.len() ==> (#[trigger] ranges[i]).end < (#[trigger] ranges[j]).start
}

/// Whether the last range takes a new one in, or is grown by it.
pub open spec fn last_takes(ranges: Seq<DirtyRange>, start: int) -> bool {
    ranges.len() > 0 && ranges.last().start <= start <= ranges.last().end
}

/// Only one sequence of ranges, kept in order and apart, holds given positions.
pub proof fn ranges_are_canonical(a: Seq<DirtyRange>, b: Seq<DirtyRange>)
    requires
        ranges_wf(a),
        ranges_wf(b),
        forall|p: int| #[trigger] covered(a, p) <==> covered(b, p),
    ensures
        a == b,
    decreases a.len(),
{
    if a.len() == 0 {
        if b.len() > 0 {
            assert(b[0].start <= b[0].start < b[0].end);
            assert(covered(b, b[0].start as int));
            assert(covered(a, b[0].start as int));
        }
        assert(a =~= b);
    } else if b.len() == 0 {
        assert(a[0].start <= a[0].start < a[0].end);
        assert(covered(a, a[0].start as int));
    } else {
        let x = a.last();
        let y = b.last();
        let n = a.len() - 1;
        let m = b.len() - 1;
        assert(a[n] == x && b[m] == y);
        assert(covered(a, x.end - 1));
        assert(covered(b, x.end - 1));
        assert(covered(b, y.end - 1));
        assert(covered(a, y.end - 1));
        assert(x.end <= y.end) by {
            let i = choose|i: int|
                0 <= i < b.len() && (#[trigger] b[i]).start <= x.end - 1 < b[i].end;
            if i < m {
                assert(b[i].end < b[m].start);
            }
        }
        assert(y.end <= x.end) by {
            let i = choose|i: int|
                0 <= i < a.len() && (#[trigger] a[i]).start <= y.end - 1 < a[i].end;
            if i < n {
                assert(a[i].end < a[n].start);
            }
        }
        assert(covered(a, x.start as int));
        assert(covered(b, y.start as int));
        if x.start < y.start {
            assert(covered(a, y.start - 1));
            let i = choose|i: int|
                0 <= i < b.len() && (#[trigger] b[i]).start <= y.start - 1 < b[i].end;
            if i < m {
                assert(b[i].end < b[m].start);
            }
        } else if y.start < x.start {
            assert(b[m].start <= x.start - 1 < b[m].end);
            assert(covered(b, x.start - 1));
            assert(covered(a, x.start - 1));
            let i = choose|i: int|
                0 <= i < a.len() && (#[trigger] a[i]).start <= x.start - 1 < a[i].end;
            if i < n {
                assert(a[i].end < a[n].start);
            }
        }
        assert(x == y);
        let fa = a.drop_last();
        let fb = b.drop_last();
        assert(ranges_wf(fa)) by {
            assert forall|i: int| 0 <= i < fa.len() implies (#[trigger] fa[i]).start < fa[i].end by {
                assert(fa[i] == a[i]);
            }
            assert forall|i: int, j: int| 0 <= i < j < fa.len() implies (#[trigger] fa[i]).end < (
            #[trigger] fa[j]).start by {
                assert(fa[i] == a[i] && fa[j] == a[j]);
            }
        }
        assert(ranges_wf(fb)) by {
            assert forall|i: int| 0 <= i < fb.len() implies (#[trigger] fb[i]).start < fb[i].end by {
                assert(fb[i] == b[i]);
            }
            assert forall|i: int, j: int| 0 <= i < j < fb.len() implies (#[trigger] fb[i]).end < (
            #[trigger] fb[j]).start by {
                assert(fb[i] == b[i] && fb[j] == b[j]);
            }
        }
        assert forall|p: int| #[trigger] covered(fa, p) <==> covered(fb, p) by {
            lemma_covered_front(a, p);
            lemma_covered_front(b, p);
            assert(covered(a, p) <==> covered(b, p));
        }
        ranges_are_canonical(fa, fb);
        assert(a =~= fa.push(x));
        assert(b =~= fb.push(y));
    }
}

proof fn lemma_covered_front(a: Seq<DirtyRange>, p: int)
    requires
        ranges_wf(a),
        a.len() > 0,
    ensures
        covered(a.drop_last(), p) <==> covered(a, p) && !(a.last().start <= p < a.last().end),
{
    let f = a.drop_last();
    let n = a.len() - 1;
    if covered(f, p) {
        let i = choose|i: int| 0 <= i < f.len() && (#[trigger] f[i]).start <= p < f[i].end;
        assert(a[i] == f[i]);
        assert(a[i].end < a[n].start);
    }
    if covered(a, p) && !(a.last().start <= p < a.last().end) {
        let i = choose|i: int| 0 <= i < a.len() && (#[trigger] a[i]).start <= p < a[i].end;
        assert(f[i] == a[i]);
    }
}

impl PageCacheDirtyModel {
    /// The ranges are in order.
    pub open spec fn wf(&self) -> bool {
        ranges_wf(self.ranges@)
    }

    /// Whether anything has to be written back.
    pub open spec fn pending(&self) -> bool {
        self.full_dirty || self.size_dirty || self.ranges@.len() > 0
    }

    /// Whether writing back is under way.
    pub open spec fn active(&self) -> bool {
        self.writeback == PageCacheWritebackState::Writeback || self.writeback
            == PageCacheWritebackState::DirtyDuringWriteback
    }

    /// The state that follows a given one from what is pending, unless writing
    /// is under way.
    pub open spec fn refreshed(&self, was: PageCacheWritebackState) -> PageCacheWritebackState {
        if was == PageCacheWritebackState::Writeback || was
            == PageCacheWritebackState::DirtyDuringWriteback {
            was
        } else if self.pending() {
            PageCacheWritebackState::Dirty
        } else {
            PageCacheWritebackState::Clean
        }
    }

    /// Nothing was written back yet: all has to be, or nothing.
    pub open spec fn is_fresh(&self, whole: bool) -> bool {
        &&& self.ranges@ == Seq::<DirtyRange>::empty()
        &&& self.full_dirty == whole
        &&& self.size_dirty == whole
        &&& self.writeback == (if whole {
            PageCacheWritebackState::Dirty
        } else {
            PageCacheWritebackState::Clean
        })
        &&& self.last_error is None
        &&& self.seq == (if whole {
            1u64
        } else {
            0u64
        })
    }

    /// Nothing to write back.
    pub fn clean() -> (r: Self)
        ensures
            r.wf(),
            r.is_fresh(false),
    {
        PageCacheDirtyModel {
            ranges: Vec::new(),
            full_dirty: false,
            size_dirty: false,
            writeback: PageCacheWritebackState::Clean,
            last_error: None,
            seq: 0,
        }
    }

    /// The whole file and its length to write back.
    pub fn dirty_whole_file() -> (r: Self)
        ensures
            r.wf(),
            r.is_fresh(true),
    {
        PageCacheDirtyModel {
            ranges: Vec::new(),
            full_dirty: true,
            size_dirty: true,
            writeback: PageCacheWritebackState::Dirty,
            last_error: None,
            seq: 1,
        }
    }

    /// Whether anything has to be written back.
    pub fn data_dirty(&self) -> (r: bool)
        ensures
            r == self.pending(),
    {
        self.full_dirty || self.size_dirty || self.ranges.len() > 0
    }

    /// Whether anything has to be written back.
    pub fn is_dirty(&self) -> (r: bool)
        ensures
            r == self.pending(),
    {
        self.data_dirty()
    }

    /// Brings the state in line with what is pending.
    pub fn refresh_writeback_state(&mut self)
        ensures
            *final(self) == (PageCacheDirtyModel {
                writeback: old(self).refreshed(old(self).writeback),
                ..*old(self)
            }),
    {
        if self.writeback_active() {
            return;
        }
        self.writeback = if self.data_dirty() {
            PageCacheWritebackState::Dirty
        } else {
            PageCacheWritebackState::Clean
        };
    }

    /// Records that the file changed.
    pub fn note_write(&mut self)
        ensures
            *final(self) == (PageCacheDirtyModel {
                seq: if old(self).seq == u64::MAX {
                    0
                } else {
                    (old(self).seq + 1) as u64
                },
                writeback: if old(self).active() {
                    PageCacheWritebackState::DirtyDuringWriteback
                } else {
                    PageCacheWritebackState::Dirty
                },
                ..*old(self)
            }),
    {
        self.seq = if self.seq == u64::MAX {
            0
        } else {
            self.seq + 1
        };
        self.writeback = if self.writeback_active() {
            PageCacheWritebackState::DirtyDuringWriteback
        } else {
            PageCacheWritebackState::Dirty
        };
    }

    /// Records that the file waits for writing back.
    pub fn note_queued(&mut self)
        ensures
            *final(self) == (PageCacheDirtyModel {
                writeback: if old(self).pending() && (old(self).writeback
                    == PageCacheWritebackState::Dirty || old(self).writeback
                    == PageCacheWritebackState::Queued) {
                    PageCacheWritebackState::Queued
                } else {
                    old(self).writeback
                },
                ..*old(self)
            }),
    {
        if self.data_dirty() && (self.writeback == PageCacheWritebackState::Dirty || self.writeback
            == PageCacheWritebackState::Queued) {
            self.writeback = PageCacheWritebackState::Queued;
        }
    }

    /// Whether writing back is under way.
    pub fn writeback_active(&self) -> (r: bool)
        ensures
            r == self.active(),
    {
        self.writeback == PageCacheWritebackState::Writeback || self.writeback
            == PageCacheWritebackState::DirtyDuringWriteback
    }

    /// Starts writing back, unless it is under way or nothing is pending, and
    /// gives the number of the last change.
    pub fn begin_writeback(&mut self) -> (r: Option<u64>)
        ensures
            old(self).active() || !old(self).pending() ==> r is None && *final(self) == *old(self),
            !old(self).active() && old(self).pending() ==> r == Some(old(self).seq)
                && *final(self) == (PageCacheDirtyModel {
                writeback: PageCacheWritebackState::Writeback,
                ..*old(self)
            }),
    {
        if self.writeback_active() || !self.data_dirty() {
            return None;
        }
        self.writeback = PageCacheWritebackState::Writeback;
        Some(self.seq)
    }

    /// Takes the bytes of a completed range away.
    fn subtract(&mut self, completed: DirtyRange)
        requires
            old(self).wf(),
            completed.start < completed.end,
        ensures
            final(self).wf(),
            forall|p: int| #[trigger]
                covered(final(self).ranges@, p) <==> covered(old(self).ranges@, p) && !(
                completed.start <= p < completed.end),
            *final(self) == (PageCacheDirtyModel { ranges: final(self).ranges, ..*old(self) }),
    {
        let ghost before = self.ranges@;
        let mut remaining: Vec<DirtyRange> = Vec::new();
        let mut i: usize = 0;
        while i < self.ranges.len()
            invariant
                self.ranges@ == before,
                *self == *old(self),
                ranges_wf(before),
                completed.start < completed.end,
                0 <= i <= before.len(),
                ranges_wf(remaining@),
                remaining@.len() > 0 ==> i > 0 && remaining@.last().end <= before[i - 1].end,
                forall|p: int| #[trigger]
                    covered(remaining@, p) <==> covered(before.take(i as int), p) && !(
                    completed.start <= p < completed.end),
            decreases before.len() - i,
        {
            let range = self.ranges[i];
            let ghost had = remaining@;
            if i > 0 {
                assert(before[i - 1].end < before[i as int].start);
            }
            if range.end <= completed.start || range.start >= completed.end {
                remaining.push(range);
                proof {
                    lemma_push_range(had, range);
                }
            } else {
                if range.start < completed.start {
                    let piece = DirtyRange { start: range.start, end: completed.start };
                    remaining.push(piece);
                    proof {
                        lemma_push_range(had, piece);
                    }
                }
                let ghost mid = remaining@;
                if completed.end < range.end {
                    let piece = DirtyRange { start: completed.end, end: range.end };
                    remaining.push(piece);
                    proof {
                        lemma_push_range(mid, piece);
                    }
                }
            }
            proof {
                let t = before.take(i as int);
                assert(before.take(i + 1) =~= t.push(range));
                assert(ranges_wf(t)) by {
                    assert forall|a: int| 0 <= a < t.len() implies (#[trigger] t[a]).start
                        < t[a].end by {
                        assert(t[a] == before[a]);
                    }
                    assert forall|a: int, b: int| 0 <= a < b < t.len() implies (
                    #[trigger] t[a]).end < (#[trigger] t[b]).start by {
                        assert(t[a] == before[a] && t[b] == before[b]);
                    }
                }
                if t.len() > 0 {
                    assert(t.last() == before[i - 1]);
                }
                lemma_push_range(t, range);
            }
            i = i + 1;
        }
        assert(before.take(i as int) =~= before);
        self.ranges = remaining;
    }

    /// Records that a range, and the length if so said, has been written. The
    /// result says whether anything is still pending. If the file changed in
    /// the meantime, all stays pending.
    pub fn finish_writeback(
        &mut self,
        seq: u64,
        completed: Option<DirtyRange>,
        committed_size: bool,
    ) -> (r: bool)
        requires
            old(self).wf(),
        ensures
            final(self).wf(),
            r == final(self).pending(),
            final(self).seq == old(self).seq,
            old(self).seq != seq ==> *final(self) == (PageCacheDirtyModel {
                writeback: PageCacheWritebackState::Dirty,
                ..*old(self)
            }),
            old(self).seq == seq ==> ({
                &&& !final(self).full_dirty
                &&& final(self).size_dirty == (old(self).size_dirty && !committed_size)
                &&& final(self).last_error is None
                &&& final(self).writeback == (if r {
                    PageCacheWritebackState::Dirty
                } else {
                    PageCacheWritebackState::Clean
                })
                &&& completed is None ==> final(self).ranges@ == old(self).ranges@
                &&& completed is Some ==> forall|p: int| #[trigger]
                    covered(final(self).ranges@, p) <==> covered(old(self).ranges@, p) && !(
                    completed->0.start <= p < completed->0.end)
            }),
    {
        if self.seq == seq {
            match completed {
                Some(range) => {
                    if range.start < range.end {
                        self.subtract(range);
                    }
                },
                None => {},
            }
            self.full_dirty = false;
            if committed_size {
                self.size_dirty = false;
            }
            self.writeback = if self.data_dirty() {
                PageCacheWritebackState::Dirty
            } else {
                PageCacheWritebackState::Clean
            };
            self.last_error = None;
        } else {
            self.writeback = PageCacheWritebackState::Dirty;
        }
        self.data_dirty()
    }

    /// Records that writing back failed; all stays pending.
    pub fn fail_writeback(&mut self, err: SysErrNo)
        ensures
            *final(self) == (PageCacheDirtyModel {
                last_error: Some(err),
                writeback: if old(self).pending() {
                    PageCacheWritebackState::Dirty
                } else {
                    PageCacheWritebackState::Clean
                },
                ..*old(self)
            }),
    {
        self.last_error = Some(err);
        self.writeback = if self.data_dirty() {
            PageCacheWritebackState::Dirty
        } else {
            PageCacheWritebackState::Clean
        };
    }

    /// Adds a range, merging it with all that it meets.
    #[verifier::rlimit(80)]
    #[verifier::spinoff_prover]
    fn insert_merged(&mut self, start: usize, end: usize)
        requires
            old(self).wf(),
            start < end,
        ensures
            final(self).wf(),
            forall|p: int| #[trigger]
                covered(final(self).ranges@, p) <==> covered(old(self).ranges@, p) || (start <= p
                    < end),
            *final(self) == (PageCacheDirtyModel { ranges: final(self).ranges, ..*old(self) }),
    {
        let ghost before = self.ranges@;
        let mut new_start: usize = start;
        let mut new_end: usize = end;
        let mut index: usize = 0;
        let ghost mut gone: int = 0;
        while index < self.ranges.len()
            invariant
                *self == (PageCacheDirtyModel { ranges: self.ranges, ..*old(self) }),
                ranges_wf(before),
                start < end,
                0 <= gone,
                index + gone <= before.len(),
                self.ranges@ == before.take(index as int) + before.skip(index + gone),
                forall|i: int| 0 <= i < index ==> (#[trigger] before[i]).end < start,
                gone == 0 ==> new_start == start && new_end == end,
                gone > 0 ==> before[index as int].end >= start && before[index + gone - 1].start
                    <= end,
                gone > 0 ==> new_start == (if before[index as int].start < start {
                    before[index as int].start
                } else {
                    start
                }),
                gone > 0 ==> new_end == (if end < before[index + gone - 1].end {
                    before[index + gone - 1].end
                } else {
                    end
                }),
            ensures
                index + gone < before.len() ==> new_end < before[index + gone].start,
            decreases self.ranges@.len() - index,
        {
            let range = self.ranges[index];
            let ghost at = index + gone;
            assert(range == before[at]);
            if new_end < range.start {
                break;
            }
            if new_start > range.end {
                proof {
                    if gone > 0 {
                        assert(before[index as int].end < before[at].start);
                        assert(before[index as int].start < before[index as int].end);
                        assert(before[at].start < before[at].end);
                    }
                    assert(before.take(index + 1) + before.skip(index + 1) =~= before.take(
                        index as int,
                    ) + before.skip(at));
                }
                index = index + 1;
                continue;
            }
            if range.start < new_start {
                new_start = range.start;
            }
            if new_end < range.end {
                new_end = range.end;
            }
            let _ = self.ranges.remove(index);
            proof {
                assert(self.ranges@ =~= before.take(index as int) + before.skip(at + 1));
                if gone > 0 {
                    assert(before[at - 1].end < before[at].start);
                    assert(before[at].start < before[at].end);
                    assert(before[index as int].start < before[index as int].end);
                    if index < at - 1 {
                        assert(before[index as int].end < before[at - 1].start);
                    }
                }
                gone = gone + 1;
            }
        }
        let added = DirtyRange { start: new_start, end: new_end };
        self.ranges.insert(index, added);
        proof {
            assert(self.ranges@ =~= before.take(index as int).push(added) + before.skip(
                index + gone,
            ));
            lemma_merged(before, self.ranges@, index as int, gone, start as int, end as int, added);
        }
    }

    /// Adds the bytes of a range up to the length of the file.
    pub fn mark_dirty_range(&mut self, size: usize, start: usize, end: usize)
        requires
            old(self).wf(),
        ensures
            final(self).wf(),
            forall|p: int| #[trigger]
                covered(final(self).ranges@, p) <==> covered(old(self).ranges@, p) || (start <= p
                    < end && p < size),
            *final(self) == (PageCacheDirtyModel {
                ranges: final(self).ranges,
                writeback: if start >= end || start >= size || last_takes(
                    old(self).ranges@,
                    start as int,
                ) {
                    old(self).writeback
                } else {
                    final(self).refreshed(old(self).writeback)
                },
                ..*old(self)
            }),
    {
        let ghost before = self.ranges@;
        if start >= end {
            return;
        }
        let new_start: usize = start;
        let new_end: usize = if end < size {
            end
        } else {
            size
        };
        if new_start >= new_end {
            return;
        }
        let n: usize = self.ranges.len();
        if n > 0 {
            let last = self.ranges[n - 1];
            if new_start >= last.start && new_start <= last.end {
                let grown = DirtyRange {
                    start: last.start,
                    end: if last.end < new_end {
                        new_end
                    } else {
                        last.end
                    },
                };
                self.ranges[n - 1] = grown;
                proof {
                    let now = self.ranges@;
                    assert forall|p: int| #[trigger] covered(now, p) <==> covered(before, p) || (
                    start <= p < end && p < size) by {
                        if covered(now, p) {
                            let i = choose|i: int|
                                0 <= i < now.len() && (#[trigger] now[i]).start <= p < now[i].end;
                            assert(i < n - 1 ==> before[i] == now[i]);
                            if i == n - 1 && p < last.end {
                                assert(before[n - 1].start <= p < before[n - 1].end);
                            }
                        }
                        if covered(before, p) {
                            let i = choose|i: int|
                                0 <= i < before.len() && (#[trigger] before[i]).start <= p
                                    < before[i].end;
                            assert(now[i].start <= p < now[i].end);
                        }
                        if start <= p < end && p < size {
                            assert(now[n - 1].start <= p < now[n - 1].end);
                        }
                    }
                }
                return;
            }
        }
        self.insert_merged(new_start, new_end);
        assert forall|p: int| #[trigger] covered(self.ranges@, p) <==> covered(before, p) || (start
            <= p < end && p < size) by {
            assert(covered(self.ranges@, p) <==> covered(before, p) || (new_start <= p < new_end));
        }
        self.refresh_writeback_state();
    }

    /// Leaves only the bytes in front of a length.
    pub fn clip_dirty_ranges(&mut self, len: usize)
        requires
            old(self).wf(),
        ensures
            final(self).wf(),
            forall|p: int| #[trigger]
                covered(final(self).ranges@, p) <==> covered(old(self).ranges@, p) && p < len,
            *final(self) == (PageCacheDirtyModel {
                ranges: final(self).ranges,
                writeback: final(self).refreshed(old(self).writeback),
                ..*old(self)
            }),
    {
        let ghost before = self.ranges@;
        let mut clipped: Vec<DirtyRange> = Vec::new();
        let mut i: usize = 0;
        while i < self.ranges.len()
            invariant
                self.ranges@ == before,
                *self == *old(self),
                ranges_wf(before),
                0 <= i <= before.len(),
                ranges_wf(clipped@),
                clipped@.len() > 0 ==> i > 0 && clipped@.last().end <= before[i - 1].end,
                forall|p: int| #[trigger]
                    covered(clipped@, p) <==> covered(before.take(i as int), p) && p < len,
            decreases before.len() - i,
        {
            let range = self.ranges[i];
            let end: usize = if range.end < len {
                range.end
            } else {
                len
            };
            let ghost had = clipped@;
            if i > 0 {
                assert(before[i - 1].end < before[i as int].start);
            }
            if range.start < end {
                let piece = DirtyRange { start: range.start, end };
                clipped.push(piece);
                proof {
                    lemma_push_range(had, piece);
                }
            }
            proof {
                let t = before.take(i as int);
                assert(before.take(i + 1) =~= t.push(range));
                assert(ranges_wf(t)) by {
                    assert forall|a: int| 0 <= a < t.len() implies (#[trigger] t[a]).start
                        < t[a].end by {
                        assert(t[a] == before[a]);
                    }
                    assert forall|a: int, b: int| 0 <= a < b < t.len() implies (
                    #[trigger] t[a]).end < (#[trigger] t[b]).start by {
                        assert(t[a] == before[a] && t[b] == before[b]);
                    }
                }
                if t.len() > 0 {
                    assert(t.last() == before[i - 1]);
                }
                lemma_push_range(t, range);
            }
            i = i + 1;
        }
        assert(before.take(i as int) =~= before);
        self.ranges = clipped;
        self.refresh_writeback_state();
    }
}

proof fn lemma_merged(
    before: Seq<DirtyRange>,
    now: Seq<DirtyRange>,
    index: int,
    gone: int,
    start: int,
    end: int,
    added: DirtyRange,
)
    requires
        ranges_wf(before),
        0 <= index,
        0 <= gone,
        index + gone <= before.len(),
        start < end,
        now == before.take(index).push(added) + before.skip(index + gone),
        forall|i: int| 0 <= i < index ==> (#[trigger] before[i]).end < start,
        gone == 0 ==> added.start == start && added.end == end,
        gone > 0 ==> before[index].end >= start && before[index + gone - 1].start <= end,
        gone > 0 ==> added.start == (if before[index].start < start {
            before[index].start as int
        } else {
            start
        }),
        gone > 0 ==> added.end == (if end < before[index + gone - 1].end {
            before[index + gone - 1].end as int
        } else {
            end
        }),
        index + gone < before.len() ==> added.end < before[index + gone].start,
    ensures
        ranges_wf(now),
        forall|p: int| #[trigger]
            covered(now, p) <==> covered(before, p) || (start <= p < end),
{
    assert forall|i: int| 0 <= i < index implies (#[trigger] before[i]).end < added.start by {
        if gone > 0 {
            assert(before[i].end < before[index].start);
        }
    }
    assert forall|i: int| 0 <= i < now.len() implies (#[trigger] now[i]).start < now[i].end by {
        if i < index {
            assert(now[i] == before[i]);
        } else if i > index {
            assert(now[i] == before[i - 1 + gone]);
        }
    }
    assert forall|j: int| index + gone <= j < before.len() implies added.end < (
    #[trigger] before[j]).start by {
        if j > index + gone {
            assert(before[index + gone].end < before[j].start);
            assert(before[index + gone].start < before[index + gone].end);
        }
    }
    assert forall|i: int, j: int| 0 <= i < j < now.len() implies (#[trigger] now[i]).end < (
    #[trigger] now[j]).start by {
        if i < index {
            assert(now[i] == before[i]);
        }
        if j < index {
            assert(now[j] == before[j]);
        }
        if j > index {
            assert(now[j] == before[j - 1 + gone]);
        }
        if i > index {
            assert(now[i] == before[i - 1 + gone]);
        }
    }
    assert forall|p: int| #[trigger] covered(now, p) <==> covered(before, p) || (start <= p
        < end) by {
        if covered(now, p) {
            let i = choose|i: int| 0 <= i < now.len() && (#[trigger] now[i]).start <= p < now[i].end;
            if i < index {
                assert(before[i] == now[i]);
            } else if i > index {
                assert(before[i - 1 + gone] == now[i]);
            } else if p < start {
                assert(before[index].start <= p < before[index].end);
            } else if p >= end {
                assert(before[index + gone - 1].start <= p < before[index + gone - 1].end);
            }
        }
        if covered(before, p) {
            let i = choose|i: int|
                0 <= i < before.len() && (#[trigger] before[i]).start <= p < before[i].end;
            if i < index {
                assert(now[i] == before[i]);
            } else if i < index + gone {
                if i > index {
                    assert(before[index].end < before[i].start);
                }
                if i < index + gone - 1 {
                    assert(before[i].end < before[index + gone - 1].start);
                }
                assert(now[index] == added);
                assert(now[index].start <= p < now[index].end);
            } else {
                assert(now[i + 1 - gone] == before[i]);
            }
        }
        if start <= p < end {
            assert(now[index] == added);
            assert(now[index].start <= p < now[index].end);
        }
    }
}

proof fn lemma_push_range(ranges: Seq<DirtyRange>, r: DirtyRange)
    requires
        ranges_wf(ranges),
        r.start < r.end,
        ranges.len() > 0 ==> ranges.last().end < r.start,
    ensures
        ranges_wf(ranges.push(r)),
        forall|p: int| #[trigger]
            covered(ranges.push(r), p) <==> covered(ranges, p) || r.start <= p < r.end,
{
    let now = ranges.push(r);
    assert forall|i: int, j: int| 0 <= i < j < now.len() implies (#[trigger] now[i]).end < (
    #[trigger] now[j]).start by {
        if j == ranges.len() {
            if i < ranges.len() - 1 {
                assert(ranges[i].end < ranges[ranges.len() - 1].start);
                assert(ranges[ranges.len() - 1].start < ranges[ranges.len() - 1].end);
            }
        } else {
            assert(now[i] == ranges[i] && now[j] == ranges[j]);
        }
    }
    assert forall|p: int| #[trigger] covered(now, p) <==> covered(ranges, p) || r.start <= p
        < r.end by {
        if covered(now, p) {
            let i = choose|i: int| 0 <= i < now.len() && (#[trigger] now[i]).start <= p < now[i].end;
            if i < ranges.len() {
                assert(ranges[i] == now[i]);
            }
        }
        if covered(ranges, p) {
            let i = choose|i: int|
                0 <= i < ranges.len() && (#[trigger] ranges[i]).start <= p < ranges[i].end;
            assert(now[i] == ranges[i]);
        }
        if r.start <= p < r.end {
            assert(now[ranges.len() as int].start <= p < now[ranges.len() as int].end);
        }
    }
}

} // verus!
