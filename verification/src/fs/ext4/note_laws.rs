//! What is noted once something was done on disk.
use vstd::prelude::*;

use crate::errno::SysErrNo;
use crate::fs::content::MAX_FILE_OFFSET;
use crate::fs::ext4::caches::{block_key, page_key};
use crate::fs::ext4::dirty::covered;
use crate::fs::ext4::mount::{ready_for_queue, Ext4Volume, FilesModel};
use crate::fs::ext4::plans::{NewEntry, Removal};
use crate::fs::ext4::regular::CachedRegularFile;
use crate::fs::ext4::sync::Unlinking;
use crate::fs::ext4::types::DiskInode;
use crate::fs::ext4::writeback::{WritebackSnapshot, WritebackSnapshotResult};
use crate::fs::path::normalized;

verus! {

/// A file that was just created is held in memory as an empty one without changes,
/// changed now; what was held under its number before is gone, and its name is
/// looked up anew.
pub proof fn a_new_file_is_empty(
    was: &Ext4Volume,
    after: &Ext4Volume,
    entry: &NewEntry,
    ino: u32,
    now: u32,
    page: int,
    lblock: u32,
    disk: Seq<u8>,
)
    requires
        after.new_file_noted(was, entry, ino, now),
        0 <= page <= 0xffff_ffff_ffff_ffff,
    ensures
        after.files().regular.contains_key(ino as u128),
        after.files().regular[ino as u128].size == 0,
        after.files().regular[ino as u128].content(disk) == Seq::<u8>::empty(),
        !after.files().regular[ino as u128].dirty.pending(),
        after.files().regular[ino as u128].mtime_sec == now,
        !after.files().images.contains_key(ino as u128),
        !after.files().pages.entries.contains_key(page_key(ino, page)),
        !after.files().runs.entries.contains_key(block_key(ino, lblock)),
        !after.files().inodes.contains_key(ino as u128),
        !after.files().inodes.contains_key(entry.place.parent_ino as u128),
        !after.names.dirs@.contains_key(entry.place.parent_ino as u128),
        !after.names.paths.missing@.contains_key(normalized(entry.place.path@)),
{
    let mid = choose|mid: FilesModel|
        #![trigger mid.without_inode(ino)]
        mid.is_emptied(was.files().without_pages(ino).without_runs(ino), ino, false, now)
            && after.files() == mid.without_inode(ino).without_inode(entry.place.parent_ino);
    let f = after.files().regular[ino as u128];
    assert(f == mid.regular[ino as u128]);
    assert(f.content(disk) =~= Seq::<u8>::empty());
}

/// An entry that was created or a directory that was taken away is looked up anew,
/// and so are the inodes that changed with it; what is held of files stays.
pub proof fn changed_entries_are_looked_up_anew(
    was: &Ext4Volume,
    after: &Ext4Volume,
    entry: &NewEntry,
    ino: u32,
    removal: &Removal,
)
    ensures
        after.creation_noted(was, entry, ino) ==> {
            &&& !after.names.dirs@.contains_key(entry.place.parent_ino as u128)
            &&& !after.names.paths.missing@.contains_key(normalized(entry.place.path@))
            &&& !after.files().inodes.contains_key(entry.place.parent_ino as u128)
            &&& !after.files().inodes.contains_key(ino as u128)
            &&& after.files().regular == was.files().regular
        },
        after.dir_removal_noted(was, removal) ==> {
            &&& !after.names.dirs@.contains_key(removal.place.parent_ino as u128)
            &&& !after.names.paths.found@.contains_key(normalized(removal.place.path@))
            &&& !after.files().inodes.contains_key(removal.place.parent_ino as u128)
            &&& !after.files().inodes.contains_key(removal.child_ino as u128)
            &&& after.files().regular == was.files().regular
        },
{
}

/// A file that lost its last name while it is open is deleted later; its path leads
/// nowhere that is remembered.
pub proof fn open_files_are_deleted_later(was: &Ext4Volume, after: &Ext4Volume, u: &Unlinking)
    requires
        after.unlink_noted(was, u),
    ensures
        u.delayed ==> after.files().unlinked.contains_key(u.removal.child_ino as u128),
        !u.delayed ==> after.files().unlinked == was.files().unlinked,
        forall|k: u128| #[trigger]
            was.files().unlinked.contains_key(k) ==> after.files().unlinked.contains_key(k),
        !after.names.paths.found@.contains_key(normalized(u.removal.place.path@)),
        !after.files().inodes.contains_key(u.removal.child_ino as u128),
        !after.names.dirs@.contains_key(u.removal.place.parent_ino as u128),
        after.files().regular == was.files().regular,
{
}

/// Bytes that were written past the memory leave no image and no page of the file
/// that lack them; what is told of the file is its new times.
pub proof fn a_direct_write_leaves_nothing_stale(
    was: &Ext4Volume,
    after: &Ext4Volume,
    ino: u32,
    offset: usize,
    written: usize,
    now: u32,
    p: int,
    lblock: u32,
)
    requires
        after.direct_write_noted(was, ino, offset, written, now),
        offset + written <= MAX_FILE_OFFSET,
        offset <= p < offset + written,
    ensures
        !after.files().images.contains_key(ino as u128),
        !after.files().pages.entries.contains_key(page_key(ino, p / 4096)),
        !after.files().runs.entries.contains_key(block_key(ino, lblock)),
        !after.files().inodes.contains_key(ino as u128),
        after.files().times.contains_key(ino as u128),
        after.files().times[ino as u128].mtime == now,
        after.files().times[ino as u128].ctime == now,
{
    assert(offset as int / 4096 <= p / 4096 <= (offset + written - 1) / 4096);
}

/// A file that was brought into memory shows what is on disk, has no changes and
/// the times of its inode; one that was there already stays.
pub proof fn a_loaded_file_shows_the_disk(
    was: &Ext4Volume,
    after: &Ext4Volume,
    ino: u32,
    inode: &DiskInode,
    dense: Option<Vec<u8>>,
    disk: Seq<u8>,
    other: u128,
)
    requires
        after.file_loaded(was, ino, inode, dense),
        disk.len() == inode.size,
        inode.size <= MAX_FILE_OFFSET,
        dense is Some ==> dense->0@ == disk,
        other != ino,
    ensures
        after.files().regular.contains_key(ino as u128),
        was.files().regular.contains_key(ino as u128) ==> after.files().regular[ino as u128]
            == was.files().regular[ino as u128],
        !was.files().regular.contains_key(ino as u128) ==> {
            let f = after.files().regular[ino as u128];
            &&& f.content(disk) == disk
            &&& !f.dirty.pending()
            &&& f.mtime_sec == inode.mtime && f.ctime_sec == inode.ctime
        },
        was.files().regular.contains_key(other) ==> after.files().regular[other]
            == was.files().regular[other],
{
    if !was.files().regular.contains_key(ino as u128) {
        let f = after.files().regular[ino as u128];
        assert(f.content(disk) =~= disk);
    }
}

/// A snapshot carries the times of the file, is taken of changes only, and of one
/// at a time; taking it changes nothing that is read.
pub proof fn a_snapshot_is_of_the_file(
    was: &Ext4Volume,
    after: &Ext4Volume,
    ino: u32,
    bytes: &[u8],
    r: WritebackSnapshotResult,
    disk: Seq<u8>,
    s: WritebackSnapshot,
)
    requires
        after.snapshot_begun(was, ino, bytes, r),
        r == WritebackSnapshotResult::Snapshot(s),
    ensures
        was.files().regular.contains_key(ino as u128),
        ({
            let f = was.files().regular[ino as u128];
            let g = after.files().regular[ino as u128];
            &&& f.dirty.pending() && !f.dirty.active()
            &&& g.dirty.active()
            &&& g.content(disk) == f.content(disk)
            &&& s.ino == ino && s.target_len == f.size
            &&& s.mtime_sec == f.mtime_sec && s.ctime_sec == f.ctime_sec
            &&& s.mtime_extra == f.mtime_extra && s.ctime_extra == f.ctime_extra
            &&& s.range is Some ==> s.range->0.end - s.range->0.start <= 262144
        }),
        forall|k: u128| #[trigger]
            was.files().regular.contains_key(k) && k != ino ==> after.files().regular[k]
                == was.files().regular[k],
{
}

/// A snapshot that could not be written loses no change: they all wait on, the
/// failure is remembered, and the file can be written again.
pub proof fn a_failed_snapshot_loses_nothing(
    was: &Ext4Volume,
    after: &Ext4Volume,
    s: &WritebackSnapshot,
    e: SysErrNo,
    wake: bool,
)
    requires
        after.snapshot_ended(was, s, Err::<(), SysErrNo>(e), wake),
        was.files().regular.contains_key(s.ino as u128),
    ensures
        ({
            let f = was.files().regular[s.ino as u128];
            let g = after.files().regular[s.ino as u128];
            &&& g.dirty.last_error == Some(e)
            &&& g.dirty.ranges == f.dirty.ranges && g.dirty.full_dirty == f.dirty.full_dirty
            &&& g.dirty.size_dirty == f.dirty.size_dirty
            &&& g.persisted_size == f.persisted_size && g.truncate_to == f.truncate_to
            &&& g.size == f.size && g.dense == f.dense && g.pages == f.pages
            &&& !g.dirty.active()
            &&& !wake
        }),
{
}

/// A snapshot that was written takes only the changes it held from those that
/// wait; changes made meanwhile wait on.
pub proof fn a_written_snapshot_takes_its_changes(
    was: &Ext4Volume,
    after: &Ext4Volume,
    s: &WritebackSnapshot,
    wake: bool,
    p: int,
)
    requires
        after.snapshot_ended(was, s, Ok::<(), SysErrNo>(()), wake),
        was.files().regular.contains_key(s.ino as u128),
    ensures
        ({
            let f = was.files().regular[s.ino as u128];
            let g = after.files().regular[s.ino as u128];
            &&& f.dirty.seq != s.dirty_seq ==> g.dirty.pending() && g.dirty.ranges
                == f.dirty.ranges
            &&& f.dirty.seq == s.dirty_seq && s.range is Some ==> (covered(
                g.dirty.ranges@,
                p,
            ) <==> covered(f.dirty.ranges@, p) && !(s.range->0.start <= p
                < s.range->0.end))
            &&& g.size == f.size && g.dense == f.dense && g.pages == f.pages
            &&& !g.dirty.pending() ==> g.persisted_size == s.target_len
        }),
        forall|k: u128| #[trigger]
            was.files().regular.contains_key(k) && k != s.ino ==> after.files().regular[k]
                == was.files().regular[k],
{
    let f = was.files().regular[s.ino as u128];
    let (h, requeue) = choose|h: CachedRegularFile, requeue: bool| #[trigger]
        h.snapshot_finished(&f, s, Ok::<(), SysErrNo>(()), requeue) && h.wf() && wake == (requeue
            && ready_for_queue(h)) && after.files() == (if requeue {
            (FilesModel {
                regular: was.files().regular.insert(s.ino as u128, h),
                ..was.files()
            }).scheduled(s.ino)
        } else {
            FilesModel { regular: was.files().regular.insert(s.ino as u128, h), ..was.files() }
        });
    let g = after.files().regular[s.ino as u128];
    assert(g == (CachedRegularFile { dirty: g.dirty, ..h }));
    assert(g.dirty.ranges == h.dirty.ranges);
}

/// Times that were written to disk are no longer kept apart; a file in memory
/// keeps its contents and takes them over.
pub proof fn written_times_are_taken_over(
    was: &Ext4Volume,
    after: &Ext4Volume,
    ino: u32,
    inode: &DiskInode,
    sets_mtime: bool,
)
    requires
        after.times_noted(was, ino, inode, sets_mtime),
    ensures
        !after.files().times.contains_key(ino as u128),
        !after.files().inodes.contains_key(ino as u128),
        was.files().regular.contains_key(ino as u128) ==> {
            let f = was.files().regular[ino as u128];
            let g = after.files().regular[ino as u128];
            &&& sets_mtime ==> g.mtime_sec == inode.mtime && g.mtime_extra == inode.mtime_extra
            &&& !sets_mtime ==> g.mtime_sec == f.mtime_sec && g.mtime_extra == f.mtime_extra
            &&& g.ctime_sec == inode.ctime
            &&& g.size == f.size && g.dense == f.dense && g.pages == f.pages && g.dirty == f.dirty
        },
{
}

/// Once a snapshot is on disk its inode and its blocks are looked up anew; nothing
/// of what is held of files changes.
pub proof fn written_files_are_looked_up_anew(was: &Ext4Volume, after: &Ext4Volume, ino: u32, lblock: u32)
    requires
        after.snapshot_noted(was, ino),
    ensures
        !after.files().inodes.contains_key(ino as u128),
        !after.files().times.contains_key(ino as u128),
        !after.files().runs.entries.contains_key(block_key(ino, lblock)),
        after.files().regular == was.files().regular,
        after.files().pages == was.files().pages,
{
}

} // verus!
