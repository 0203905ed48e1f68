//! What the cache of a file and the disk have to do with each other: nothing
//! that was written gets lost on its way to disk.
use vstd::prelude::*;

use crate::bytes::resized;
use crate::errno::SysErrNo;
use crate::fs::content::MAX_FILE_OFFSET;
use crate::fs::ext4::dirty::covered;
use crate::fs::ext4::regular::{overwritten, shows_disk, CachedRegularFile};
use crate::fs::ext4::writeback::{
    ranges_spelled_out, WritebackSnapshot, WritebackSnapshotResult,
};

verus! {

/// A byte of a file, zero behind its end.
pub open spec fn padded(s: Seq<u8>, p: int) -> u8 {
    if p < s.len() {
        s[p]
    } else {
        0
    }
}

/// What is left of a file that is cut.
pub open spec fn cut_at(s: Seq<u8>, len: int) -> Seq<u8> {
    if len < s.len() {
        s.take(len)
    } else {
        s
    }
}

impl CachedRegularFile {
    /// What of the disk still counts: a file that was cut in the cache is yet
    /// to be cut on disk.
    pub open spec fn effective(&self, disk: Seq<u8>) -> Seq<u8> {
        match self.truncate_to {
            Some(t) => cut_at(disk, t as int),
            None => disk,
        }
    }

    /// What need not be written back is on disk already, and so is the length.
    pub open spec fn settled(&self, disk: Seq<u8>) -> bool {
        let d = self.effective(disk);
        &&& self.persisted_size <= d.len() <= self.size
        &&& self.truncate_to is Some ==> self.truncate_to->0 <= self.size
        &&& !self.dirty.size_dirty ==> d.len() == self.size && self.truncate_to is None
        &&& !self.dirty.full_dirty ==> forall|p: int|
            0 <= p < self.size && !#[trigger] covered(self.dirty.ranges@, p)
                ==> self.byte_at(disk, p) == padded(d, p)
    }
}

/// Where a file is cut on disk before a snapshot is written.
pub open spec fn cut_of(s: &WritebackSnapshot) -> int {
    if s.truncate_to is Some && s.truncate_to->0 < s.target_len {
        s.truncate_to->0 as int
    } else {
        s.target_len as int
    }
}

/// What a file is on disk once a snapshot is written there: it is cut, it takes
/// the bytes, and with the last of them it gets its length.
pub open spec fn applied(disk: Seq<u8>, s: &WritebackSnapshot) -> Seq<u8> {
    let short = cut_at(disk, cut_of(s));
    let put = match s.range {
        Some(r) => overwritten(short, r.start as int, s.data@),
        None => short,
    };
    if s.commit_size && s.target_len > put.len() {
        resized(put, s.target_len as nat)
    } else {
        put
    }
}

proof fn lemma_applied(disk: Seq<u8>, s: &WritebackSnapshot)
    requires
        s.range is Some ==> s.data@.len() == s.range->0.end - s.range->0.start
            && s.range->0.start < s.range->0.end <= s.target_len,
    ensures
        ({
            let new = applied(disk, s);
            let short = cut_at(disk, cut_of(s));
            &&& short.len() <= new.len() <= s.target_len
            &&& s.commit_size ==> new.len() == s.target_len
            &&& forall|p: int|
                0 <= p && !(s.range is Some && s.range->0.start <= p < s.range->0.end)
                    ==> #[trigger] padded(new, p) == padded(short, p)
            &&& s.range is Some ==> forall|p: int|
                s.range->0.start <= p < s.range->0.end ==> p < new.len() && #[trigger] new[p]
                    == s.data@[p - s.range->0.start]
        }),
{
}

/// A file that was just read into the cache is settled.
pub proof fn loaded_file_is_settled(f: &CachedRegularFile, disk: Seq<u8>)
    requires
        f.size == disk.len(),
        f.persisted_size == f.size,
        f.truncate_to is None,
        !f.dirty.size_dirty,
        f.pages@ == Map::<u128, Vec<u8>>::empty(),
        f.dense is Some ==> f.dense->0@ == disk,
    ensures
        f.settled(disk),
        f.content(disk) == disk,
{
    assert(f.content(disk) =~= disk);
}

/// A write leaves a file settled.
pub proof fn write_keeps_settled(
    was: &CachedRegularFile,
    f: &CachedRegularFile,
    offset: usize,
    buf: Seq<u8>,
    bytes: Seq<u8>,
    now: u32,
    r: Result<usize, SysErrNo>,
    disk: Seq<u8>,
)
    requires
        was.wf(),
        f.wf(),
        was.settled(disk),
        offset + buf.len() <= MAX_FILE_OFFSET,
        f.wrote(was, offset, buf, bytes, now, r),
        shows_disk(disk, offset as int / 4096 * 4096, bytes, was.persisted_size as int),
    ensures
        f.settled(disk),
{
    if r is Ok {
        let n = r->Ok_0 as int;
        let d = was.effective(disk);
        if !f.dirty.full_dirty {
            assert forall|p: int| 0 <= p < f.size && !#[trigger] covered(f.dirty.ranges@, p) implies
                f.byte_at(disk, p) == padded(d, p) by {
                assert(!covered(was.dirty.ranges@, p));
                assert(!(offset <= p < offset + n));
                let c = overwritten(was.content(disk), offset as int, buf.take(n));
                assert(f.content(disk) == c);
                assert(f.content(disk)[p] == f.byte_at(disk, p));
                if p < was.size {
                    assert(c[p] == was.content(disk)[p]);
                    assert(was.content(disk)[p] == was.byte_at(disk, p));
                } else {
                    assert(c[p] == 0);
                }
            }
        }
    } else {
        assert forall|p: int| 0 <= p < f.size implies f.byte_at(disk, p) == was.byte_at(disk, p) by {
            assert(f.content(disk) == was.content(disk));
            assert(f.content(disk)[p] == f.byte_at(disk, p));
            assert(was.content(disk)[p] == was.byte_at(disk, p));
        }
    }
}

/// Another length leaves a file settled.
pub proof fn resize_keeps_settled(
    was: &CachedRegularFile,
    f: &CachedRegularFile,
    new_len: usize,
    now: u32,
    disk: Seq<u8>,
)
    requires
        was.settled(disk),
        f.resized_to(was, new_len, now),
    ensures
        f.settled(disk),
{
    let d = was.effective(disk);
    let e = f.effective(disk);
    if new_len < was.size {
        assert(e =~= cut_at(d, f.truncate_to->0 as int));
    }
    if !f.dirty.full_dirty {
        assert forall|p: int| 0 <= p < f.size && !#[trigger] covered(f.dirty.ranges@, p) implies
            f.byte_at(disk, p) == padded(e, p) by {
            assert(!covered(was.dirty.ranges@, p));
            assert(f.content(disk) == resized(was.content(disk), new_len as nat));
            assert(f.content(disk)[p] == f.byte_at(disk, p));
            assert(p < was.size);
            assert(was.content(disk)[p] == was.byte_at(disk, p));
            assert(resized(was.content(disk), new_len as nat)[p] == was.content(disk)[p]);
        }
    }
}

/// Writing back loses nothing: a snapshot is taken, written to disk and
/// finished with no change between, and the file is settled and reads as
/// before.
pub proof fn writing_back_keeps_contents(
    was: &CachedRegularFile,
    mid: &CachedRegularFile,
    after: &CachedRegularFile,
    ino: u32,
    bytes: Seq<u8>,
    s: &WritebackSnapshot,
    requeue: bool,
    disk: Seq<u8>,
)
    requires
        was.wf(),
        after.wf(),
        was.settled(disk),
        mid.snapshot_taken(was, ino, bytes, WritebackSnapshotResult::Snapshot(*s)),
        s.range is Some ==> shows_disk(
            disk,
            s.range->0.start as int,
            bytes,
            was.persisted_size as int,
        ),
        after.snapshot_finished(mid, s, Ok(()), requeue),
    ensures
        after.settled(applied(disk, s)),
        after.content(applied(disk, s)) == was.content(disk),
{
    let d = was.effective(disk);
    let new = applied(disk, s);
    let short = cut_at(disk, cut_of(s));
    assert(short =~= d);
    let spelled = ranges_spelled_out(was);
    assert(was.dirty.full_dirty ==> forall|p: int|
        0 <= p < was.size ==> #[trigger] covered(spelled, p)) by {
        if was.dirty.full_dirty && was.size > 0 {
            assert forall|p: int| 0 <= p < was.size implies #[trigger] covered(spelled, p) by {
                assert(spelled[0].start <= p < spelled[0].end);
            }
        }
    }
    if s.range is Some {
        let r = s.range->0;
        let c = was.content(disk);
        assert(s.data@ == c.subrange(r.start as int, r.end as int));
        assert forall|p: int| r.start <= p < r.end implies new[p] == was.byte_at(disk, p) by {
            assert(new[p] == s.data@[p - r.start]);
            assert(c[p] == was.byte_at(disk, p));
        }
    }
    assert forall|p: int|
        0 <= p < was.size && !(s.range is Some && s.range->0.start <= p < s.range->0.end) implies
        padded(new, p) == padded(d, p) by {}
    assert(new.len() <= was.size);
    assert forall|p: int| 0 <= p < was.size implies after.byte_at(new, p) == was.byte_at(disk, p) by {
        if was.on_disk_only(p) {
            assert(padded(d, p) == disk[p]);
            if !(s.range is Some && s.range->0.start <= p < s.range->0.end) {
                assert(padded(new, p) == padded(d, p));
            }
        }
        if !requeue {
            assert(!covered(after.dirty.ranges@, p));
            assert(covered(mid.dirty.ranges@, p) == covered(spelled, p));
            assert(new.len() == was.size);
        }
    }
    assert(after.content(new) =~= was.content(disk));
    if !after.dirty.full_dirty {
        assert forall|p: int| 0 <= p < after.size && !#[trigger] covered(
            after.dirty.ranges@,
            p,
        ) implies after.byte_at(new, p) == padded(new, p) by {
            assert(covered(mid.dirty.ranges@, p) == covered(spelled, p));
        }
    }
}

/// A settled file of which nothing is pending is on disk as it reads.
pub proof fn clean_file_is_on_disk(f: &CachedRegularFile, disk: Seq<u8>)
    requires
        f.settled(disk),
        !f.dirty.pending(),
    ensures
        disk == f.content(disk),
{
    assert forall|p: int| 0 <= p < f.size implies f.byte_at(disk, p) == disk[p] by {
        assert(!covered(f.dirty.ranges@, p));
    }
    assert(disk =~= f.content(disk));
}

impl CachedRegularFile {
    /// A snapshot is still being written while the file has changed since: its
    /// bytes are all to be written again, or are behind where the file was cut,
    /// and so is what it cuts off.
    pub open spec fn overtook(&self, s: &WritebackSnapshot, disk: Seq<u8>) -> bool {
        &&& self.dirty.seq != s.dirty_seq
        &&& self.persisted_size <= s.target_len
        &&& self.truncate_to is Some || s.target_len <= self.size
        &&& disk.len() <= cut_of(s) || (self.truncate_to is Some && self.truncate_to->0 <= cut_of(
            s,
        ))
        &&& s.range is Some ==> {
            let r = s.range->0;
            &&& r.start < r.end <= s.target_len
            &&& s.data@.len() == r.end - r.start
            &&& forall|p: int|
                r.start <= p < r.end ==> self.dirty.full_dirty || #[trigger] covered(
                    self.dirty.ranges@,
                    p,
                ) || (self.truncate_to is Some && self.truncate_to->0 <= p)
        }
    }
}

proof fn lemma_overtaken(f: &CachedRegularFile, s: &WritebackSnapshot, disk: Seq<u8>)
    requires
        f.settled(disk),
        f.overtook(s, disk),
    ensures
        ({
            let d = f.effective(disk);
            let e = f.effective(applied(disk, s));
            &&& f.persisted_size <= e.len() <= f.size
            &&& !f.dirty.size_dirty ==> e.len() == f.size
            &&& forall|p: int|
                0 <= p && !(s.range is Some && s.range->0.start <= p < s.range->0.end)
                    ==> #[trigger] padded(e, p) == padded(d, p)
            &&& forall|p: int|
                f.truncate_to is Some && f.truncate_to->0 <= p ==> #[trigger] padded(e, p) == 0
        }),
{
    lemma_applied(disk, s);
    let d = f.effective(disk);
    let new = applied(disk, s);
    let e = f.effective(new);
    let short = cut_at(disk, cut_of(s));
    assert forall|p: int|
        0 <= p && !(s.range is Some && s.range->0.start <= p < s.range->0.end) implies #[trigger] padded(
        e,
        p,
    ) == padded(d, p) by {
        assert(padded(new, p) == padded(short, p));
    }
}

/// Writing an outdated snapshot does no harm: the file stays settled, and it
/// reads as before wherever the snapshot was not written or the cache has the
/// bytes.
pub proof fn outdated_snapshot_is_harmless(
    was: &CachedRegularFile,
    after: &CachedRegularFile,
    s: &WritebackSnapshot,
    requeue: bool,
    disk: Seq<u8>,
)
    requires
        was.wf(),
        was.settled(disk),
        was.overtook(s, disk),
        after.snapshot_finished(was, s, Ok(()), requeue),
    ensures
        after.settled(applied(disk, s)),
        forall|p: int|
            0 <= p < was.size && (!was.on_disk_only(p) || s.range is None || p
                < s.range->0.start || s.range->0.end <= p) ==> #[trigger] after.byte_at(
                applied(disk, s),
                p,
            ) == was.byte_at(disk, p),
{
    let d = was.effective(disk);
    let new = applied(disk, s);
    let e = after.effective(new);
    let short = cut_at(disk, cut_of(s));
    lemma_applied(disk, s);
    assert(after.truncate_to == was.truncate_to);
    lemma_overtaken(was, s, disk);
    assert forall|p: int|
        0 <= p < was.size && (!was.on_disk_only(p) || s.range is None || p < s.range->0.start
            || s.range->0.end <= p) implies #[trigger] after.byte_at(new, p) == was.byte_at(
        disk,
        p,
    ) by {
        if was.on_disk_only(p) {
            assert(padded(e, p) == padded(d, p));
            assert(padded(new, p) == padded(short, p));
        }
    }
    if !after.dirty.full_dirty {
        assert forall|p: int|
            0 <= p < after.size && !#[trigger] covered(after.dirty.ranges@, p) implies after.byte_at(
            new,
            p,
        ) == padded(e, p) by {
            if s.range is Some && s.range->0.start <= p < s.range->0.end {
                assert(!covered(was.dirty.ranges@, p));
                assert(padded(e, p) == 0);
                assert(padded(d, p) == 0);
            } else {
                assert(padded(e, p) == padded(d, p));
            }
        }
    }
}

} // verus!
