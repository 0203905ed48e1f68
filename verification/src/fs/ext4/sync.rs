//! Deleting files, bringing changes to disk, and mounting.
use vstd::prelude::*;

use crate::aged::{Aged, AgedModel};
use crate::bytes::{le_value, read_le};
use crate::errno::SysErrNo;
use crate::fs::ext4::caches::PblockRun;
use crate::fs::ext4::dirty::PageCacheDirtyModel;
use crate::fs::ext4::mount::{ready_for_queue, Ext4Volume, FilesModel};
use crate::fs::ext4::plans::{Movement, NewEntry, NewLink, Removal, RemovalModel};
use crate::fs::ext4::regular::CachedRegularFile;
use crate::fs::ext4::types::{DataTimes, DiskInode, Ext4NodeKind, Ext4StatFs};
use crate::fs::ext4::volume::{DirChild, Fault};
use crate::fs::ext4::writeback::{WritebackSnapshot, WritebackSnapshotResult};
use crate::fs::path::normalized;
use crate::textmap::{in_tree, TextMap};

verus! {

/// A file or link that is to be taken away, and what has to be done with the
/// inode behind it.
pub struct Unlinking {
    pub removal: Removal,
    /// What has changed of the file is to be brought to disk first.
    pub flush_first: bool,
    /// The file is open and is deleted once it is closed.
    pub delayed: bool,
}

impl Ext4Volume {
    /// What taking a file or link away asks for, and what is then forgotten.
    pub open spec fn unlink_done(
        &self,
        was: &Ext4Volume,
        path: Seq<char>,
        r: Result<Unlinking, Fault>,
    ) -> bool {
        &&& self.same_names(was)
        &&& match r {
            Err(f) => was.names.unlink_spec(path) == Err::<RemovalModel, Fault>(f)
                && *self == *was,
            Ok(u) => {
                let ino = u.removal.child_ino;
                &&& was.names.unlink_spec(path) == Ok::<RemovalModel, Fault>(u.removal@)
                &&& u.flush_first == (u.removal.links > 1)
                &&& u.delayed == (u.removal.links <= 1 && was.files().refs(ino) > 0)
                &&& self.files() == (if u.removal.links > 1 || u.delayed {
                    was.files().without_pages(ino).without_runs(ino)
                } else {
                    was.files().without_pages(ino).without_runs(ino).discarded(ino)
                })
            },
        }
    }

    /// What taking a file or link away asks for; what is known of the blocks of
    /// the file is forgotten, and of one that goes for good everything is.
    pub fn unlink_non_dir(&mut self, path: &str) -> (r: Result<Unlinking, Fault>)
        requires
            old(self).wf(),
        ensures
            final(self).wf(),
            final(self).unlink_done(old(self), path@, r),
    {
        let removal = match self.names.plan_unlink(path) {
            Ok(removal) => removal,
            Err(f) => {
                return Err(f);
            },
        };
        let ghost was = self.files();
        let ino: u32 = removal.child_ino;
        self.pages.invalidate_ino(ino);
        self.runs.invalidate_ino(ino);
        assert(self.files() =~= was.without_pages(ino).without_runs(ino));
        let delayed = removal.links <= 1 && self.has_open_regular_ref(ino);
        if removal.links <= 1 && !delayed {
            self.discard_regular_cache(ino);
        }
        let flush_first = removal.links > 1;
        Ok(Unlinking { removal, flush_first, delayed })
    }

    /// The same as taking a file or link away.
    pub fn unlink_regular_file(&mut self, path: &str) -> (r: Result<Unlinking, Fault>)
        requires
            old(self).wf(),
        ensures
            final(self).wf(),
            final(self).unlink_done(old(self), path@, r),
    {
        self.unlink_non_dir(path)
    }

    /// Whether it was noted that an entry is gone.
    pub open spec fn unlink_noted(
        &self,
        was: &Self,
        unlinking: &Unlinking,
    ) -> bool {
        &&& (self.names_changed(
                was,
                unlinking.removal.place.parent_ino,
                unlinking.removal.place.path@,
            ))
        &&& (({
                let base = was.files().without_inode(
                    unlinking.removal.child_ino,
                ).without_inode(unlinking.removal.place.parent_ino);
                self.files() == (if unlinking.delayed {
                    FilesModel {
                        unlinked: base.unlinked.insert(unlinking.removal.child_ino as u128, ()),
                        ..base
                    }
                } else {
                    base
                })
            }))
    }

    /// Takes note that an entry was taken away.
    pub fn entry_unlinked(&mut self, unlinking: &Unlinking)
        requires
            old(self).wf(),
        ensures
            final(self).wf(),
            final(self).unlink_noted(old(self), unlinking),
    {
        if unlinking.delayed {
            self.unlinked.insert(unlinking.removal.child_ino as u128, ());
        }
        self.names.invalidate_metadata_ino(unlinking.removal.child_ino);
        self.names.invalidate_namespace_entry(
            unlinking.removal.place.parent_ino,
            unlinking.removal.place.path.as_str(),
        );
    }

    /// A directory has changed at a path: neither its entries nor any path
    /// through that entry is remembered.
    pub open spec fn names_changed(&self, was: &Ext4Volume, parent: u32, path: Seq<char>) -> bool {
        &&& self.names.mounted == was.names.mounted
        &&& self.names.dirs@ == was.names.dirs@.remove(parent as u128)
        &&& self.names.paths.found@ == was.names.paths.found@.remove_keys(
            Set::new(|k: Seq<char>| in_tree(normalized(path), k)),
        )
        &&& self.names.paths.missing@ == was.names.paths.missing@.remove_keys(
            Set::new(|k: Seq<char>| in_tree(normalized(path), k)),
        )
    }

    /// Whether it was noted that a directory is gone.
    pub open spec fn dir_removal_noted(
        &self,
        was: &Self,
        removal: &Removal,
    ) -> bool {
        &&& (self.names_changed(was, removal.place.parent_ino, removal.place.path@))
        &&& (self.files() == was.files().without_inode(
                removal.child_ino,
            ).without_inode(removal.place.parent_ino))
    }

    /// Takes note that a directory was taken away.
    pub fn dir_removed(&mut self, removal: &Removal)
        requires
            old(self).wf(),
        ensures
            final(self).wf(),
            final(self).dir_removal_noted(old(self), removal),
    {
        self.names.invalidate_metadata_ino(removal.child_ino);
        self.names.invalidate_namespace_entry(
            removal.place.parent_ino,
            removal.place.path.as_str(),
        );
    }

    /// Whether it was noted that an entry is new.
    pub open spec fn creation_noted(
        &self,
        was: &Self,
        entry: &NewEntry,
        child_ino: u32,
    ) -> bool {
        &&& (self.names_changed(was, entry.place.parent_ino, entry.place.path@))
        &&& (self.files() == was.files().without_inode(child_ino).without_inode(
                entry.place.parent_ino,
            ))
    }

    /// Takes note that a directory or symbolic link was created.
    pub fn entry_created(&mut self, entry: &NewEntry, child_ino: u32)
        requires
            old(self).wf(),
        ensures
            final(self).wf(),
            final(self).creation_noted(old(self), entry, child_ino),
    {
        self.names.invalidate_metadata_ino(child_ino);
        self.names.invalidate_namespace_entry(entry.place.parent_ino, entry.place.path.as_str());
    }

    /// Whether it was noted that a regular file is new.
    pub open spec fn new_file_noted(
        &self,
        was: &Self,
        entry: &NewEntry,
        child_ino: u32,
        now: u32,
    ) -> bool {
        &&& (self.names_changed(was, entry.place.parent_ino, entry.place.path@))
        &&& (exists|mid: FilesModel|
                #![trigger mid.without_inode(child_ino)]
                mid.is_emptied(
                    was.files().without_pages(child_ino).without_runs(child_ino),
                    child_ino,
                    false,
                    now,
                ) && self.files() == mid.without_inode(child_ino).without_inode(
                    entry.place.parent_ino,
                ))
    }

    /// Takes note that a regular file was created; it is empty.
    pub fn regular_created(&mut self, entry: &NewEntry, child_ino: u32, now: u32)
        requires
            old(self).wf(),
        ensures
            final(self).wf(),
            final(self).new_file_noted(old(self), entry, child_ino, now),
    {
        let ghost was = self.files();
        self.pages.invalidate_ino(child_ino);
        self.runs.invalidate_ino(child_ino);
        assert(self.files() =~= was.without_pages(child_ino).without_runs(child_ino));
        self.cache_empty_regular(child_ino, false, now);
        let ghost mid = self.files();
        self.names.invalidate_metadata_ino(child_ino);
        assert(self.files() =~= mid.without_inode(child_ino));
        self.names.invalidate_namespace_entry(entry.place.parent_ino, entry.place.path.as_str());
    }

    /// What is known once a hard link was made.
    pub open spec fn link_noted(&self, was: &Ext4Volume, link: &NewLink) -> bool {
        &&& self.names_changed(was, link.place.parent_ino, link.place.path@)
        &&& self.files() == was.files().without_inode(link.child_ino).without_inode(
            link.place.parent_ino,
        )
    }

    /// Takes note that a hard link was made.
    pub fn link_created(&mut self, link: &NewLink)
        requires
            old(self).wf(),
        ensures
            final(self).wf(),
            final(self).link_noted(old(self), link),
    {
        self.names.invalidate_metadata_ino(link.child_ino);
        self.names.invalidate_namespace_entry(link.place.parent_ino, link.place.path.as_str());
    }

    /// What is known once an entry was moved.
    pub open spec fn rename_noted(&self, was: &Ext4Volume, movement: &Movement) -> bool {
        &&& self.names.mounted == was.names.mounted
        &&& self.names.dirs@ == was.names.dirs@.remove(
            movement.from.parent_ino as u128,
        ).remove(movement.to.parent_ino as u128)
        &&& self.names.paths.found@ == was.names.paths.found@.remove_keys(
            Set::new(|k: Seq<char>| in_tree(normalized(movement.from.path@), k)),
        ).remove_keys(Set::new(|k: Seq<char>| in_tree(normalized(movement.to.path@), k)))
        &&& self.names.paths.missing@ == was.names.paths.missing@.remove_keys(
            Set::new(|k: Seq<char>| in_tree(normalized(movement.from.path@), k)),
        ).remove_keys(Set::new(|k: Seq<char>| in_tree(normalized(movement.to.path@), k)))
        &&& self.files() == was.files().without_inode(
            movement.child_ino,
        ).without_inode(movement.from.parent_ino).without_inode(movement.to.parent_ino)
    }

    /// Takes note that an entry was moved.
    pub fn invalidate_namespace_rename(&mut self, movement: &Movement)
        requires
            old(self).wf(),
        ensures
            final(self).wf(),
            final(self).rename_noted(old(self), movement),
    {
        self.names.invalidate_metadata_ino(movement.child_ino);
        self.names.invalidate_namespace_entry(
            movement.from.parent_ino,
            movement.from.path.as_str(),
        );
        self.names.invalidate_namespace_entry(movement.to.parent_ino, movement.to.path.as_str());
    }
}

/// The number of links after one has been taken away.
pub open spec fn one_link_less(links: u16) -> u16 {
    if links > 0 {
        (links - 1) as u16
    } else {
        0
    }
}

impl Unlinking {
    /// Whether the inode goes for good now.
    pub open spec fn frees_spec(&self) -> bool {
        self.removal.links <= 1 && !self.delayed
    }

    /// Whether the inode goes for good now.
    pub fn frees(&self) -> (r: bool)
        ensures
            r == self.frees_spec(),
    {
        self.removal.links <= 1 && !self.delayed
    }

    /// The inodes of the directory and of the child once an entry was taken away.
    pub open spec fn inodes_left(&self, parent: DiskInode, child: DiskInode, now: u32) -> (
        DiskInode,
        DiskInode,
    ) {
        (
            DiskInode { mtime: now, ctime: now, ..parent },
            DiskInode {
                links: if self.frees_spec() {
                    0
                } else if self.removal.links > 0 {
                    one_link_less(self.removal.links)
                } else {
                    child.links
                },
                ctime: now,
                dtime: if self.frees_spec() {
                    now
                } else {
                    child.dtime
                },
                ..child
            },
        )
    }

    /// The inodes of the directory and of the child as they have to be written.
    pub fn inodes_after(&self, parent: &DiskInode, child: &DiskInode, now: u32) -> (r: (
        DiskInode,
        DiskInode,
    ))
        ensures
            r == self.inodes_left(*parent, *child, now),
    {
        let p = DiskInode { mtime: now, ctime: now, ..*parent };
        let mut c = DiskInode { ctime: now, ..*child };
        if self.removal.links > 0 {
            c.links = self.removal.links - 1;
        }
        if self.frees() {
            c.links = 0;
            c.dtime = now;
        }
        (p, c)
    }
}

/// The inodes of a directory and of an empty one in it once that was taken away.
pub open spec fn dir_inodes_left(parent: DiskInode, child: DiskInode, now: u32) -> (
    DiskInode,
    DiskInode,
) {
    (
        DiskInode { links: one_link_less(parent.links), mtime: now, ctime: now, ..parent },
        DiskInode { links: 0, dtime: now, ctime: now, ..child },
    )
}

/// The inodes of two directories once an entry was moved from one to the other.
pub open spec fn parents_left(reparents: bool, from: DiskInode, to: DiskInode, now: u32) -> (
    DiskInode,
    DiskInode,
) {
    (
        DiskInode {
            links: if reparents {
                one_link_less(from.links)
            } else {
                from.links
            },
            mtime: now,
            ctime: now,
            ..from
        },
        DiskInode {
            links: if reparents {
                (to.links + 1) as u16
            } else {
                to.links
            },
            mtime: now,
            ctime: now,
            ..to
        },
    )
}

impl Removal {
    /// The inodes of the parent and of a directory that is taken away as they
    /// have to be written.
    pub fn dir_inodes_after(&self, parent: &DiskInode, child: &DiskInode, now: u32) -> (r: (
        DiskInode,
        DiskInode,
    ))
        ensures
            r == dir_inodes_left(*parent, *child, now),
    {
        let links: u16 = if parent.links > 0 {
            parent.links - 1
        } else {
            0
        };
        (
            DiskInode { links, mtime: now, ctime: now, ..*parent },
            DiskInode { links: 0, dtime: now, ctime: now, ..*child },
        )
    }
}

impl Movement {
    /// The inodes of the two directories as they have to be written after a
    /// move from one to the other.
    pub fn parents_after(&self, from: &DiskInode, to: &DiskInode, now: u32) -> (r: (
        DiskInode,
        DiskInode,
    ))
        requires
            self.reparents ==> to.links < u16::MAX,
        ensures
            r == parents_left(self.reparents, *from, *to, now),
    {
        let mut a = DiskInode { mtime: now, ctime: now, ..*from };
        let mut b = DiskInode { mtime: now, ctime: now, ..*to };
        if self.reparents {
            if a.links > 0 {
                a.links = a.links - 1;
            }
            b.links = b.links + 1;
        }
        (a, b)
    }
}

/// The inode of a file without names as it has to be written when it is deleted.
pub fn finish_unlinked_regular(inode: &DiskInode, now: u32) -> (r: DiskInode)
    ensures
        r == (DiskInode { links: 0, ctime: now, dtime: now, ..*inode }),
{
    DiskInode { links: 0, ctime: now, dtime: now, ..*inode }
}

/// What is to be done for a file that is written back in the background.
pub enum DrainStep {
    Done,
    Later,
    Failed(SysErrNo),
    Write(WritebackSnapshot),
}

/// What is to be done next to bring a file to disk.
pub enum FlushStep {
    /// Nothing is left but these times.
    Times(Option<DataTimes>),
    /// The failure of an earlier attempt is told and forgotten; more remains.
    Again,
    /// The failure of an earlier attempt is told and forgotten.
    Failed(SysErrNo),
    /// Somebody else is writing the file.
    Wait,
    /// This is to be written.
    Write(WritebackSnapshot),
}

impl Ext4Volume {
    /// Whether a snapshot of a file was taken, and which.
    pub open spec fn snapshot_begun(
        &self,
        was: &Self,
        ino: u32,
        disk: &[u8],
        r: WritebackSnapshotResult,
    ) -> bool {
        &&& (self.same_names(was))
        &&& (!was.files().regular.contains_key(ino as u128) ==> r is NoCache && *self
                == *was)
        &&& (was.files().regular.contains_key(ino as u128) ==> {
                let f = self.files().regular[ino as u128];
                &&& f.snapshot_taken(&was.files().regular[ino as u128], ino, disk@, r)
                &&& self.files() == (FilesModel {
                    regular: was.files().regular.insert(ino as u128, f),
                    ..was.files()
                })
            })
    }

    /// What there is to be written of a file. `disk` is what the disk holds from
    /// the start of the bytes that are written next.
    pub fn take_writeback_snapshot(&mut self, ino: u32, disk: &[u8]) -> (r: WritebackSnapshotResult)
        requires
            old(self).wf(),
        ensures
            final(self).wf(),
            final(self).snapshot_begun(old(self), ino, disk, r),
    {
        let ghost was = self.files();
        if !self.is_regular_cached(ino) {
            return WritebackSnapshotResult::NoCache;
        }
        match self.regular.remove(ino as u128) {
            None => WritebackSnapshotResult::NoCache,
            Some(f) => {
                let mut f = f;
                let r = f.take_writeback_snapshot(ino, disk);
                let ghost mid = f;
                self.regular.insert(ino as u128, f);
                assert(self.regular@ =~= was.regular.insert(ino as u128, mid));
                r
            },
        }
    }

    /// The bytes of a file that are written back next, so far as they have to
    /// be read from disk first.
    pub fn writeback_source(&self, ino: u32) -> (r: Option<(usize, usize)>)
        requires
            self.wf(),
        ensures
            r == (if !self.files().regular.contains_key(ino as u128) {
                None::<(usize, usize)>
            } else {
                match crate::fs::ext4::writeback::next_cluster(
                    crate::fs::ext4::writeback::ranges_spelled_out(
                        &self.files().regular[ino as u128],
                    ),
                ) {
                    Some(range) => Some((range.start, range.end)),
                    None => None,
                }
            }),
    {
        match self.regular.get(ino as u128) {
            None => None,
            Some(f) => match f.next_writeback_range() {
                Some(range) => Some((range.start, range.end)),
                None => None,
            },
        }
    }

    /// Whether it was noted what came of a snapshot.
    pub open spec fn snapshot_ended(
        &self,
        was: &Self,
        snapshot: &WritebackSnapshot,
        result: Result<(), SysErrNo>,
        wake: bool,
    ) -> bool {
        &&& (self.same_names(was))
        &&& (!was.files().regular.contains_key(snapshot.ino as u128) ==> !wake
                && self.files() == was.files())
        &&& (was.files().regular.contains_key(snapshot.ino as u128) ==> exists|f: CachedRegularFile, requeue: bool|
                #[trigger] f.snapshot_finished(
                    &was.files().regular[snapshot.ino as u128],
                    snapshot,
                    result,
                    requeue,
                ) && f.wf() && wake == (requeue && ready_for_queue(f)) && self.files() == (
                if requeue {
                    (FilesModel {
                        regular: was.files().regular.insert(snapshot.ino as u128, f),
                        ..was.files()
                    }).scheduled(snapshot.ino)
                } else {
                    FilesModel {
                        regular: was.files().regular.insert(snapshot.ino as u128, f),
                        ..was.files()
                    }
                }))
    }

    /// Takes note of how writing a snapshot went; whether the worker has to be
    /// woken.
    pub fn finish_writeback_snapshot(
        &mut self,
        snapshot: &WritebackSnapshot,
        result: Result<(), SysErrNo>,
    ) -> (wake: bool)
        requires
            old(self).wf(),
            old(self).files().regular.contains_key(snapshot.ino as u128) ==> {
                let f = old(self).files().regular[snapshot.ino as u128];
                &&& f.dirty.seq == snapshot.dirty_seq ==> snapshot.target_len == f.size
                &&& f.dirty.seq != snapshot.dirty_seq ==> f.dirty.pending()
            },
        ensures
            final(self).wf(),
            final(self).snapshot_ended(old(self), snapshot, result, wake),
    {
        let ghost was = self.files();
        if !self.is_regular_cached(snapshot.ino) {
            return false;
        }
        match self.regular.remove(snapshot.ino as u128) {
            None => false,
            Some(f) => {
                let mut f = f;
                let ghost before = f;
                let requeue = f.finish_writeback_snapshot(snapshot, result);
                let ghost mid = f;
                assert(mid.snapshot_finished(&before, snapshot, result, requeue));
                self.regular.insert(snapshot.ino as u128, f);
                assert(self.regular@ =~= was.regular.insert(snapshot.ino as u128, mid));
                assert(self.files() =~= (FilesModel {
                    regular: was.regular.insert(snapshot.ino as u128, mid),
                    ..was
                }));
                if requeue {
                    self.schedule_cached_writeback_if_ready(snapshot.ino)
                } else {
                    false
                }
            },
        }
    }

    /// Whether it was noted that a snapshot is on disk.
    pub open spec fn snapshot_noted(
        &self,
        was: &Self,
        ino: u32,
    ) -> bool {
        &&& (self.same_names(was))
        &&& (({
                let base = was.files().without_runs(ino).without_inode(ino);
                self.files() == (FilesModel { times: base.times.remove(ino as u128), ..base })
            }))
    }

    /// Takes note that a snapshot of a file is on disk.
    pub fn snapshot_applied(&mut self, ino: u32)
        requires
            old(self).wf(),
        ensures
            final(self).wf(),
            final(self).snapshot_noted(old(self), ino),
    {
        let _ = self.times.remove(ino as u128);
        self.runs.invalidate_ino(ino);
        self.names.invalidate_metadata_ino(ino);
    }

    /// The file that waits longest for writing back in the background. It waits
    /// no more.
    pub fn take_queued_writeback(&mut self) -> (r: Option<u32>)
        requires
            old(self).wf(),
        ensures
            final(self).wf(),
            final(self).same_names(old(self)),
            match r {
                Some(ino) => old(self).files().queued.contains(ino) && final(self).files()
                    == (FilesModel {
                    queued: old(self).files().queued.remove(ino),
                    waiting: final(self).files().waiting,
                    ..old(self).files()
                }),
                None => old(self).files().queued == Set::<u32>::empty() && final(self).files()
                    == (FilesModel { waiting: Seq::empty(), ..old(self).files() }),
            },
            r is Some ==> exists|i: int|
                #![trigger old(self).queue@.is_next(i)]
                old(self).queue@.is_next(i) && r->0 == old(self).files().waiting[i]
                    && final(self).files().waiting == old(self).files().waiting.skip(i + 1),
    {
        let r = self.queue.pop();
        proof {
            match r {
                Some(ino) => {
                    let i = choose|i: int|
                        #![trigger old(self).queue@.is_next(i)]
                        old(self).queue@.is_next(i) && ino == old(self).queue@.pending[i]
                            && self.queue@.pending == old(self).queue@.pending.skip(i + 1);
                    assert(old(self).queue@.is_next(i));
                },
                None => {},
            }
        }
        r
    }

    /// A step of writing a file back in the background: the bytes to write, if
    /// there are any and nobody else writes. Behind another writer the file
    /// waits again.
    pub fn drain_queued_writeback_ino(&mut self, ino: u32, disk: &[u8]) -> (r: DrainStep)
        requires
            old(self).wf(),
        ensures
            final(self).wf(),
            final(self).same_names(old(self)),
            ({
                let was = old(self).files();
                if !was.regular.contains_key(ino as u128) {
                    final(self).files() == was && r == DrainStep::Done
                } else {
                    exists|f: CachedRegularFile, s: WritebackSnapshotResult| #[trigger]
                        f.snapshot_taken(&was.regular[ino as u128], ino, disk@, s) && {
                            let now = FilesModel {
                                regular: was.regular.insert(ino as u128, f),
                                ..was
                            };
                            match s {
                                WritebackSnapshotResult::NoCache => false,
                                WritebackSnapshotResult::Clean => r == DrainStep::Done
                                    && final(self).files() == now,
                                WritebackSnapshotResult::Failed(e) => r == DrainStep::Failed(e)
                                    && final(self).files() == now,
                                WritebackSnapshotResult::Busy => r == DrainStep::Later
                                    && final(self).files() == now.enqueued(ino),
                                WritebackSnapshotResult::Snapshot(snapshot) => r
                                    == DrainStep::Write(snapshot) && final(self).files() == now,
                            }
                        }
                }
            }),
    {
        let ghost was = self.files();
        let step = self.take_writeback_snapshot(ino, disk);
        let ghost f = self.files().regular[ino as u128];
        proof {
            if was.regular.contains_key(ino as u128) {
                assert(f.snapshot_taken(&was.regular[ino as u128], ino, disk@, step));
            }
        }
        match step {
            WritebackSnapshotResult::NoCache => DrainStep::Done,
            WritebackSnapshotResult::Clean => DrainStep::Done,
            WritebackSnapshotResult::Failed(e) => DrainStep::Failed(e),
            WritebackSnapshotResult::Busy => {
                self.queue_writeback_ino(ino);
                DrainStep::Later
            },
            WritebackSnapshotResult::Snapshot(snapshot) => DrainStep::Write(snapshot),
        }
    }

    /// What is to be done next to bring a file to disk. `disk` is what the disk
    /// holds from the start of the bytes that are written next.
    pub fn flush_cached_ino(&mut self, ino: u32, disk: &[u8]) -> (r: FlushStep)
        requires
            old(self).wf(),
        ensures
            final(self).wf(),
            final(self).same_names(old(self)),
            ({
                let was = old(self).files().unqueued(ino);
                if !was.regular.contains_key(ino as u128) {
                    final(self).files() == was && r == FlushStep::Times(
                        if was.times.contains_key(ino as u128) {
                            Some(was.times[ino as u128])
                        } else {
                            None
                        },
                    )
                } else {
                    exists|f: CachedRegularFile, s: WritebackSnapshotResult| #[trigger]
                        f.snapshot_taken(&was.regular[ino as u128], ino, disk@, s) && (match s {
                            WritebackSnapshotResult::NoCache => false,
                            WritebackSnapshotResult::Clean => r == FlushStep::Times(
                                if was.times.contains_key(ino as u128) {
                                    Some(was.times[ino as u128])
                                } else {
                                    None
                                },
                            ),
                            WritebackSnapshotResult::Busy => r == FlushStep::Wait,
                            WritebackSnapshotResult::Snapshot(snapshot) => r == FlushStep::Write(
                                snapshot,
                            ),
                            WritebackSnapshotResult::Failed(e) => r == (if f.dirty.pending() {
                                FlushStep::Again
                            } else {
                                FlushStep::Failed(e)
                            }),
                        }) && final(self).files() == (FilesModel {
                            regular: was.regular.insert(
                                ino as u128,
                                match s {
                                    WritebackSnapshotResult::Failed(e) => told_of_failure(f, e),
                                    _ => f,
                                },
                            ),
                            ..was
                        })
                }
            }),
    {
        let ghost first = self.files();
        self.cancel_queued_writeback(ino);
        let ghost was = self.files();
        let step = self.take_writeback_snapshot(ino, disk);
        let ghost f = self.files().regular[ino as u128];
        proof {
            if was.regular.contains_key(ino as u128) {
                assert(f.snapshot_taken(&was.regular[ino as u128], ino, disk@, step));
            }
        }
        match step {
            WritebackSnapshotResult::NoCache => FlushStep::Times(self.time_override(ino)),
            WritebackSnapshotResult::Clean => FlushStep::Times(self.time_override(ino)),
            WritebackSnapshotResult::Busy => FlushStep::Wait,
            WritebackSnapshotResult::Snapshot(snapshot) => FlushStep::Write(snapshot),
            WritebackSnapshotResult::Failed(e) => {
                match self.regular.remove(ino as u128) {
                    None => FlushStep::Failed(e),
                    Some(file) => {
                        let mut file = file;
                        let more = file.acknowledge_writeback_error(e);
                        let ghost told = file;
                        assert(told == told_of_failure(f, e));
                        self.regular.insert(ino as u128, file);
                        assert(self.regular@ =~= was.regular.insert(ino as u128, told));
                        assert(self.files() =~= (FilesModel {
                            regular: was.regular.insert(ino as u128, told),
                            ..was
                        }));
                        if more {
                            FlushStep::Again
                        } else {
                            FlushStep::Failed(e)
                        }
                    },
                }
            },
        }
    }

    /// The times of a file that are not on disk yet.
    pub fn time_override(&self, ino: u32) -> (r: Option<DataTimes>)
        requires
            self.wf(),
        ensures
            r == (if self.files().times.contains_key(ino as u128) {
                Some(self.files().times[ino as u128])
            } else {
                None
            }),
    {
        match self.times.get(ino as u128) {
            Some(t) => Some(*t),
            None => None,
        }
    }

    /// Takes note that times of a file are on disk; newer ones stay.
    pub fn flush_time_override(&mut self, ino: u32, written: DataTimes)
        requires
            old(self).wf(),
        ensures
            final(self).wf(),
            final(self).same_names(old(self)),
            ({
                let base = old(self).files().without_inode(ino);
                final(self).files() == (if base.times.contains_key(ino as u128)
                    && base.times[ino as u128] == written {
                    FilesModel { times: base.times.remove(ino as u128), ..base }
                } else {
                    base
                })
            }),
    {
        match self.time_override(ino) {
            Some(t) => {
                if t == written {
                    let _ = self.times.remove(ino as u128);
                }
            },
            None => {},
        }
        self.names.invalidate_metadata_ino(ino);
    }

    /// The files that have changes not on disk, in the order of their inodes.
    pub fn dirty_files(&self) -> (r: Vec<u32>)
        requires
            self.wf(),
        ensures
            forall|i: int, j: int| 0 <= i < j < r@.len() ==> r@[i] < r@[j],
            forall|ino: u32| #[trigger]
                r@.contains(ino) <==> self.files().regular.contains_key(ino as u128)
                    && self.files().regular[ino as u128].dirty.pending(),
    {
        let mut r: Vec<u32> = Vec::new();
        let n: usize = self.regular.len();
        let ghost keys = self.regular.keys();
        proof {
            self.regular.keys_list_domain();
        }
        let mut i: usize = 0;
        while i < n
            invariant
                self.wf(),
                keys == self.regular.keys(),
                n == keys.len(),
                crate::intmap::increasing(keys),
                forall|k: u128| self.regular@.dom().contains(k) <==> #[trigger] keys.contains(k),
                0 <= i <= n,
                forall|a: int, b: int| 0 <= a < b < r@.len() ==> r@[a] < r@[b],
                forall|a: int|
                    0 <= a < r@.len() ==> exists|j: int| 0 <= j < i && keys[j] == #[trigger] r@[a],
                forall|a: int|
                    0 <= a < r@.len() ==> self.regular@[#[trigger] r@[a] as u128].dirty.pending(),
                forall|j: int|
                    0 <= j < i && self.regular@[#[trigger] keys[j]].dirty.pending() ==> r@.contains(
                        keys[j] as u32,
                    ),
            decreases n - i,
        {
            let key: u128 = self.regular.key_at(i);
            let f = self.regular.value_at(i);
            proof {
                assert(keys.contains(keys[i as int]));
                assert(self.regular@.contains_key(key));
            }
            let ghost before = r@;
            if f.is_dirty() {
                r.push(key as u32);
                proof {
                    assert forall|a: int, b: int| 0 <= a < b < r@.len() implies r@[a] < r@[b] by {
                        if b == before.len() {
                            let j = choose|j: int| 0 <= j < i && keys[j] == before[a];
                            assert(keys[j] < keys[i as int]);
                        }
                    }
                    assert forall|a: int| 0 <= a < r@.len() implies exists|j: int|
                        0 <= j < i + 1 && keys[j] == #[trigger] r@[a] by {
                        if a < before.len() {
                            let j = choose|j: int| 0 <= j < i && keys[j] == before[a];
                            assert(keys[j] == r@[a]);
                        } else {
                            assert(keys[i as int] == r@[a]);
                        }
                    }
                    assert forall|j: int|
                        0 <= j < i + 1
                            && self.regular@[#[trigger] keys[j]].dirty.pending() implies r@.contains(
                        keys[j] as u32,
                    ) by {
                        if j < i {
                            assert(before.contains(keys[j] as u32));
                            let a = choose|a: int| 0 <= a < before.len() && before[a] == keys[j] as u32;
                            assert(r@[a] == keys[j] as u32);
                        } else {
                            assert(r@[before.len() as int] == keys[j] as u32);
                        }
                    }
                }
            }
            i = i + 1;
        }
        proof {
            assert forall|ino: u32| #[trigger]
                r@.contains(ino) <==> self.files().regular.contains_key(ino as u128)
                    && self.files().regular[ino as u128].dirty.pending() by {
                if r@.contains(ino) {
                    let a = choose|a: int| 0 <= a < r@.len() && r@[a] == ino;
                    let j = choose|j: int| 0 <= j < n && keys[j] == r@[a];
                    assert(keys.contains(keys[j]));
                }
                if self.regular@.contains_key(ino as u128) {
                    assert(self.regular@.dom().contains(ino as u128));
                    assert(keys.contains(ino as u128));
                    let j = choose|j: int| 0 <= j < keys.len() && keys[j] == ino as u128;
                    assert(keys[j] as u32 == ino);
                }
            }
        }
        r
    }

    /// The files with times that are not on disk, in the order of their inodes.
    pub fn timed_files(&self) -> (r: Vec<u32>)
        requires
            self.wf(),
        ensures
            forall|i: int, j: int| 0 <= i < j < r@.len() ==> r@[i] < r@[j],
            forall|ino: u32| #[trigger]
                r@.contains(ino) <==> self.files().times.contains_key(ino as u128),
    {
        let mut r: Vec<u32> = Vec::new();
        let n: usize = self.times.len();
        let ghost keys = self.times.keys();
        proof {
            self.times.keys_list_domain();
        }
        while r.len() < n
            invariant
                self.wf(),
                keys == self.times.keys(),
                n == keys.len(),
                forall|k: u128| self.times@.dom().contains(k) <==> #[trigger] keys.contains(k),
                r@.len() <= n,
                forall|a: int| 0 <= a < r@.len() ==> keys[a] == #[trigger] r@[a],
            decreases n - r@.len(),
        {
            let key: u128 = self.times.key_at(r.len());
            assert(keys.contains(key));
            assert(self.times@.contains_key(key));
            r.push(key as u32);
        }
        proof {
            assert forall|i: int, j: int| 0 <= i < j < r@.len() implies r@[i] < r@[j] by {
                assert(keys[i] < keys[j]);
            }
            assert forall|ino: u32| #[trigger]
                r@.contains(ino) <==> self.files().times.contains_key(ino as u128) by {
                if r@.contains(ino) {
                    let a = choose|a: int| 0 <= a < r@.len() && r@[a] == ino;
                    assert(keys[a] == r@[a]);
                    assert(keys.contains(keys[a]));
                    assert(self.times@.dom().contains(ino as u128));
                }
                if self.times@.contains_key(ino as u128) {
                    assert(self.times@.dom().contains(ino as u128));
                    assert(keys.contains(ino as u128));
                    let a = choose|a: int| 0 <= a < keys.len() && keys[a] == ino as u128;
                    assert(r@[a] == ino);
                }
            }
        }
        r
    }

    /// Ends bringing all files to disk: pages and runs are read anew.
    pub fn flush_all_cached(&mut self, first_error: Option<SysErrNo>) -> (r: Result<(), SysErrNo>)
        requires
            old(self).wf(),
        ensures
            final(self).wf(),
            final(self).same_names(old(self)),
            r == (match first_error {
                Some(e) => Err::<(), SysErrNo>(e),
                None => Ok(()),
            }),
            final(self).files() == (FilesModel {
                pages: AgedModel {
                    entries: Map::<u128, Aged<Vec<u8>>>::empty(),
                    ..old(self).files().pages
                },
                runs: AgedModel {
                    entries: Map::<u128, Aged<PblockRun>>::empty(),
                    ..old(self).files().runs
                },
                ..old(self).files()
            }),
    {
        self.pages.clear();
        self.runs.clear();
        match first_error {
            Some(e) => Err(e),
            None => Ok(()),
        }
    }

    /// Forgets all that is held in memory.
    pub fn clear_all_caches(&mut self)
        requires
            old(self).wf(),
        ensures
            final(self).wf(),
            final(self).names.mounted == old(self).names.mounted,
            final(self).is_blank(),
            final(self).files() == old(self).files().emptied(),
    {
        self.names.clear_namespace_cache();
        self.queue.clear();
        self.times.clear();
        self.regular.clear();
        self.images.clear();
        self.pages.clear();
        self.runs.clear();
        self.open_refs.clear();
        self.unlinked.clear();
    }

    /// Nothing is held in memory.
    pub open spec fn is_blank(&self) -> bool {
        &&& self.names.dirs@ == Map::<u128, TextMap<DirChild>>::empty()
        &&& self.names.paths.found@ == Map::<Seq<char>, (u32, Ext4NodeKind)>::empty()
        &&& self.names.paths.missing@ == Map::<Seq<char>, ()>::empty()
        &&& self.files().inodes == Map::<u128, DiskInode>::empty()
        &&& self.files().links == Map::<u128, Vec<u8>>::empty()
        &&& self.files().regular == Map::<u128, CachedRegularFile>::empty()
        &&& self.files().images == Map::<u128, Vec<u8>>::empty()
        &&& self.files().pages.entries == Map::<u128, Aged<Vec<u8>>>::empty()
        &&& self.files().runs.entries == Map::<u128, Aged<PblockRun>>::empty()
        &&& self.files().times == Map::<u128, DataTimes>::empty()
        &&& self.files().open_refs == Map::<u128, usize>::empty()
        &&& self.files().unlinked == Map::<u128, ()>::empty()
        &&& self.files().waiting == Seq::<u32>::empty()
        &&& self.files().queued == Set::<u32>::empty()
    }

    /// Takes a volume into use, if its first block shows that it is one.
    pub fn mount_block_device(&mut self, block0: &[u8]) -> (r: bool)
        requires
            old(self).wf(),
        ensures
            final(self).wf(),
            r == shows_ext4(block0@),
            r ==> final(self).names.mounted && final(self).is_blank() && final(self).files() == old(
                self,
            ).files().emptied(),
            !r ==> *final(self) == *old(self),
    {
        if !check_superblock(block0) {
            return false;
        }
        self.clear_all_caches();
        self.names.mounted = true;
        true
    }

    /// Takes the volume out of use; what is to be kept was brought to disk
    /// before.
    pub fn unmount_root(&mut self)
        requires
            old(self).wf(),
        ensures
            final(self).wf(),
            !final(self).names.mounted,
            final(self).is_blank(),
            final(self).files() == old(self).files().emptied(),
    {
        self.clear_all_caches();
        self.names.mounted = false;
    }

    /// What is told of the volume, by the counts of its superblock.
    pub fn statfs_info(
        &self,
        block_size: usize,
        blocks: usize,
        free_blocks: usize,
        files: usize,
        free_files: usize,
    ) -> (r: Option<Ext4StatFs>)
        ensures
            r == (if self.names.mounted {
                Some(
                    Ext4StatFs {
                        block_size,
                        blocks,
                        free_blocks,
                        files,
                        free_files,
                        max_name_len: 255,
                    },
                )
            } else {
                None
            }),
    {
        if !self.names.mounted {
            return None;
        }
        Some(
            Ext4StatFs { block_size, blocks, free_blocks, files, free_files, max_name_len: 255 },
        )
    }
}

/// A file whose failure has been told.
pub open spec fn told_of_failure(f: CachedRegularFile, e: SysErrNo) -> CachedRegularFile {
    CachedRegularFile {
        dirty: PageCacheDirtyModel {
            last_error: if f.dirty.last_error == Some(e) {
                None
            } else {
                f.dirty.last_error
            },
            ..f.dirty
        },
        ..f
    }
}

/// Where the magic number of a superblock lies in the first block.
pub const SUPERBLOCK_MAGIC_AT: usize = 0x438;

/// The magic number of an ext4 superblock.
pub const SUPERBLOCK_MAGIC: u64 = 0xef53;

/// Whether a first block is that of an ext4 volume.
pub open spec fn shows_ext4(block0: Seq<u8>) -> bool {
    block0.len() >= 0x43a && le_value(block0.subrange(0x438, 0x43a)) == 0xef53
}

/// Whether a first block is that of an ext4 volume.
pub fn check_superblock(block0: &[u8]) -> (r: bool)
    ensures
        r == shows_ext4(block0@),
{
    if block0.len() < SUPERBLOCK_MAGIC_AT + 2 {
        return false;
    }
    read_le(block0, SUPERBLOCK_MAGIC_AT, 2) == SUPERBLOCK_MAGIC
}

/// A file that is unlinked while it is open is kept until it is closed, and then
/// has to be deleted.
pub proof fn unlinked_open_file_lasts(m: FilesModel, ino: u32)
    requires
        m.refs(ino) == 1,
    ensures
        ({
            let unlinked = FilesModel { unlinked: m.unlinked.insert(ino as u128, ()), ..m };
            let (after, delete) = unlinked.closed_once(ino);
            &&& delete
            &&& unlinked.regular == m.regular
            &&& after.refs(ino) == 0
            &&& !after.unlinked.contains_key(ino as u128)
            &&& !after.regular.contains_key(ino as u128)
        }),
{
}

} // verus!
