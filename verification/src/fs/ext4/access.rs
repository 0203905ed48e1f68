//! Reading files of an ext4 volume, setting their attributes, and figures about
//! what is held in memory.
use vstd::prelude::*;

use crate::bytes::{spliced, zero_bytes};
use crate::errno::SysErrNo;
use crate::fs::ext4::caches::touched_run;
use crate::fs::ext4::data::TruncateWork;
use crate::fs::ext4::mount::{Ext4Volume, FilesModel};
use crate::fs::ext4::pages::{pages_looked_at, read_by_pages, readable};
use crate::fs::ext4::regular::{shows_disk, CachedRegularFile};
use crate::fs::ext4::types::{kind_of_mode, node_kind, DiskInode, Ext4NodeKind};
use crate::fs::ext4::volume::{Fault, Load};

verus! {

/// Why a read did not happen.
#[derive(Clone, Copy, PartialEq, Eq, Structural, Debug)]
pub enum ReadFault {
    Sys(SysErrNo),
    /// The inode has to be read first.
    NeedInode,
    /// This page has to be read first.
    NeedPage(usize),
}

/// Where the image of an executable is to be had.
pub enum ImageSource {
    /// Here it is.
    Ready(Vec<u8>),
    /// The file is held in memory.
    Memory(u32),
    /// The file has to be read from disk: inode and length.
    Disk(u32, usize),
}

impl Ext4Volume {
    /// What a read of a file does.
    pub open spec fn read_done(
        &self,
        was: &Ext4Volume,
        ino: u32,
        offset: usize,
        before: Seq<u8>,
        after: Seq<u8>,
        disk: Seq<u8>,
        r: Result<usize, ReadFault>,
    ) -> bool {
        &&& self.same_names(was)
        &&& after.len() == before.len()
        &&& if was.files().regular.contains_key(ino as u128) {
            let f = was.files().regular[ino as u128];
            let n = readable(f.size as int, offset as int, before.len() as int);
            &&& self.files() == was.files()
            &&& r is Err <==> f.dense is None && !f.disk_suffices(
                offset as int,
                n,
                disk.len() as int,
            )
            &&& r is Err ==> r == Err::<usize, ReadFault>(ReadFault::Sys(SysErrNo::EIO))
            &&& r is Ok ==> r->Ok_0 == n
            &&& r is Err || n == 0 ==> after == before
            &&& r is Ok && n > 0 ==> forall|all: Seq<u8>|
                shows_disk(all, offset as int, disk, f.persisted_size as int) ==> after == spliced(
                    before,
                    0,
                    (#[trigger] f.content(all)).subrange(offset as int, offset + n),
                )
        } else if before.len() == 0 {
            r == Ok::<usize, ReadFault>(0) && self.files() == was.files()
        } else if !was.names.mounted {
            r == Err::<usize, ReadFault>(ReadFault::Sys(SysErrNo::ENOENT)) && self.files()
                == was.files() && after == before
        } else if !was.names.inodes@.contains_key(ino as u128) {
            r == Err::<usize, ReadFault>(ReadFault::NeedInode) && self.files() == was.files()
                && after == before
        } else if kind_of_mode(was.names.inodes@[ino as u128].mode) != Ext4NodeKind::Regular {
            r == Err::<usize, ReadFault>(ReadFault::Sys(SysErrNo::EINVAL)) && self.files()
                == was.files() && after == before
        } else {
            match r {
                Ok(n) => self.pages_read(was, ino, offset, before, after, Ok(n)),
                Err(ReadFault::NeedPage(page)) => self.pages_read(
                    was,
                    ino,
                    offset,
                    before,
                    after,
                    Err(page),
                ),
                Err(_) => false,
            }
        }
    }

    /// What a read of a file by its clean pages does.
    pub open spec fn pages_read(
        &self,
        was: &Ext4Volume,
        ino: u32,
        offset: usize,
        before: Seq<u8>,
        after: Seq<u8>,
        r: Result<usize, usize>,
    ) -> bool {
        &&& self.files() == (FilesModel {
            pages: touched_run(
                was.files().pages,
                ino,
                offset as int / 4096,
                pages_looked_at(offset as int, r),
            ),
            ..was.files()
        })
        &&& read_by_pages(
            was.files().pages,
            ino,
            offset as int,
            (was.names.inodes@[ino as u128].size as usize) as int,
            before,
            after,
            r,
        )
    }

    /// Reads a file: from memory if it is held there, by its clean pages
    /// otherwise. `disk` is what the disk holds from the offset on.
    pub fn ext4_read_at(&mut self, ino: u32, offset: usize, buf: &mut [u8], disk: &[u8]) -> (r:
        Result<usize, ReadFault>)
        requires
            old(self).wf(),
        ensures
            final(self).wf(),
            final(self).read_done(old(self), ino, offset, old(buf)@, final(buf)@, disk@, r),
    {
        match self.cached_regular_read(ino, offset, buf, disk) {
            Some(Ok(n)) => {
                return Ok(n);
            },
            Some(Err(e)) => {
                return Err(ReadFault::Sys(e));
            },
            None => {},
        }
        if buf.len() == 0 {
            return Ok(0);
        }
        if !self.names.mounted {
            return Err(ReadFault::Sys(SysErrNo::ENOENT));
        }
        let inode = match self.names.inode(ino) {
            Ok(inode) => inode,
            Err(_) => {
                return Err(ReadFault::NeedInode);
            },
        };
        if node_kind(inode.mode) != Ext4NodeKind::Regular {
            return Err(ReadFault::Sys(SysErrNo::EINVAL));
        }
        match self.clean_page_cached_read(ino, offset, buf, inode.size as usize) {
            Ok(n) => Ok(n),
            Err(page) => Err(ReadFault::NeedPage(page)),
        }
    }

    /// What setting the length of the file at a path does in memory.
    pub open spec fn path_truncated(
        &self,
        was: &Ext4Volume,
        path: Seq<char>,
        size: u64,
        now: u32,
        r: Result<(u32, TruncateWork), Fault>,
    ) -> bool {
        match was.names.find_spec(path) {
            Err(f) => r == Err::<(u32, TruncateWork), Fault>(f) && *self == *was,
            Ok((ino, kind)) => if kind == Ext4NodeKind::Directory {
                r == Err::<(u32, TruncateWork), Fault>(Fault::Sys(SysErrNo::EISDIR)) && *self
                    == *was
            } else {
                match r {
                    Ok((i, work)) => i == ino && self.truncate_done(was, ino, size, now, Ok(work)),
                    Err(f) => self.truncate_done(was, ino, size, now, Err(f)),
                }
            },
        }
    }

    /// Sets the length of what a path leads to, as far as that is done in
    /// memory; also gives its inode.
    pub fn truncate_regular_ext4(&mut self, path: &str, size: u64, now: u32) -> (r: Result<
        (u32, TruncateWork),
        Fault,
    >)
        requires
            old(self).wf(),
        ensures
            final(self).wf(),
            final(self).path_truncated(old(self), path@, size, now, r),
    {
        let (ino, kind) = match self.names.find(path) {
            Ok(found) => found,
            Err(f) => {
                return Err(f);
            },
        };
        if kind == Ext4NodeKind::Directory {
            return Err(Fault::Sys(SysErrNo::EISDIR));
        }
        match self.truncate_regular_ino(ino, size, now) {
            Ok(work) => Ok((ino, work)),
            Err(f) => Err(f),
        }
    }

    /// The inode that a path leads to, and what has been read of it.
    pub open spec fn inode_at(&self, path: Seq<char>) -> Result<(u32, DiskInode), Fault> {
        match self.names.find_spec(path) {
            Err(f) => Err(f),
            Ok((ino, _)) => if !self.names.inodes@.contains_key(ino as u128) {
                Err(Fault::Need(Load::Inode(ino)))
            } else {
                Ok((ino, self.names.inodes@[ino as u128]))
            },
        }
    }

    fn find_inode(&self, path: &str) -> (r: Result<(u32, DiskInode), Fault>)
        requires
            self.wf(),
        ensures
            r == self.inode_at(path@),
    {
        let (ino, _kind) = match self.names.find(path) {
            Ok(found) => found,
            Err(f) => {
                return Err(f);
            },
        };
        match self.names.inode(ino) {
            Ok(inode) => Ok((ino, inode)),
            Err(f) => Err(f),
        }
    }

    /// The inode of what a path leads to, with new permissions.
    pub fn set_mode_path(&self, path: &str, mode: u32, now: u32) -> (r: Result<
        (u32, DiskInode),
        Fault,
    >)
        requires
            self.wf(),
        ensures
            r == (match self.inode_at(path@) {
                Err(f) => Err::<(u32, DiskInode), Fault>(f),
                Ok((ino, inode)) => Ok((ino, inode.with_mode(mode, now))),
            }),
    {
        match self.find_inode(path) {
            Ok((ino, inode)) => {
                let mut inode = inode;
                inode.set_mode_ino(mode, now);
                Ok((ino, inode))
            },
            Err(f) => Err(f),
        }
    }

    /// The inode of what a path leads to, with a new owner.
    pub fn set_owner_path(&self, path: &str, uid: Option<u32>, gid: Option<u32>, now: u32) -> (r:
        Result<(u32, DiskInode), Fault>)
        requires
            self.wf(),
        ensures
            r == (match self.inode_at(path@) {
                Err(f) => Err::<(u32, DiskInode), Fault>(f),
                Ok((ino, inode)) => match inode.with_owner(uid, gid, now) {
                    Ok(changed) => Ok((ino, changed)),
                    Err(e) => Err(Fault::Sys(e)),
                },
            }),
    {
        match self.find_inode(path) {
            Ok((ino, inode)) => {
                let mut inode = inode;
                match inode.set_owner_ino(uid, gid, now) {
                    Ok(_) => Ok((ino, inode)),
                    Err(e) => Err(Fault::Sys(e)),
                }
            },
            Err(f) => Err(f),
        }
    }

    /// The inode of what a path leads to, with new times; what has changed of
    /// the file is brought to disk before.
    pub fn set_times_path(
        &self,
        path: &str,
        atime: Option<(isize, isize)>,
        mtime: Option<(isize, isize)>,
        now: u32,
    ) -> (r: Result<(u32, DiskInode), Fault>)
        requires
            self.wf(),
        ensures
            r == (match self.inode_at(path@) {
                Err(f) => Err::<(u32, DiskInode), Fault>(f),
                Ok((ino, inode)) => Ok((ino, inode.with_times(atime, mtime, now))),
            }),
    {
        match self.find_inode(path) {
            Ok((ino, inode)) => {
                let mut inode = inode;
                inode.set_times_ino(atime, mtime, now);
                Ok((ino, inode))
            },
            Err(f) => Err(f),
        }
    }

    /// Whether it was noted that the times of a file are on disk.
    pub open spec fn times_noted(
        &self,
        was: &Self,
        ino: u32,
        inode: &DiskInode,
        sets_mtime: bool,
    ) -> bool {
        &&& (self.same_names(was))
        &&& (({
                let base = was.files().without_inode(ino);
                let plain = FilesModel { times: base.times.remove(ino as u128), ..base };
                self.files() == (if !base.regular.contains_key(ino as u128) {
                    plain
                } else {
                    let f = base.regular[ino as u128];
                    FilesModel {
                        regular: base.regular.insert(
                            ino as u128,
                            CachedRegularFile {
                                mtime_sec: if sets_mtime { inode.mtime } else { f.mtime_sec },
                                mtime_extra: if sets_mtime {
                                    inode.mtime_extra
                                } else {
                                    f.mtime_extra
                                },
                                ctime_sec: inode.ctime,
                                ctime_extra: 0,
                                ..f
                            },
                        ),
                        ..plain
                    }
                })
            }))
    }

    /// Takes note that new times of an inode are on disk: a file in memory gets
    /// them too.
    pub fn times_written(&mut self, ino: u32, inode: &DiskInode, sets_mtime: bool)
        requires
            old(self).wf(),
        ensures
            final(self).wf(),
            final(self).times_noted(old(self), ino, inode, sets_mtime),
    {
        let _ = self.times.remove(ino as u128);
        self.names.invalidate_metadata_ino(ino);
        if self.is_regular_cached(ino) {
            let ghost was = self.regular@;
            match self.regular.remove(ino as u128) {
                None => {},
                Some(f) => {
                    let mut f = f;
                    if sets_mtime {
                        f.mtime_sec = inode.mtime;
                        f.mtime_extra = inode.mtime_extra;
                    }
                    f.ctime_sec = inode.ctime;
                    f.ctime_extra = 0;
                    let ghost now = f;
                    self.regular.insert(ino as u128, f);
                    assert(self.regular@ =~= was.insert(ino as u128, now));
                },
            }
        }
    }

    /// The contents of a file that is held in memory; `None` for one that is not
    /// or of which too little is on disk.
    pub fn cached_regular_snapshot(&self, ino: u32, disk: &[u8]) -> (r: Option<Vec<u8>>)
        requires
            self.wf(),
        ensures
            !self.files().regular.contains_key(ino as u128) ==> r is None,
            self.files().regular.contains_key(ino as u128) ==> {
                let f = self.files().regular[ino as u128];
                &&& r is None <==> f.dense is None && !f.disk_suffices(
                    0,
                    f.size as int,
                    disk@.len() as int,
                )
                &&& r is Some ==> forall|all: Seq<u8>|
                    shows_disk(all, 0, disk@, f.persisted_size as int) ==> r->0@
                        == #[trigger] f.content(all)
            },
    {
        match self.regular.get(ino as u128) {
            None => None,
            Some(f) => {
                let mut data = zero_bytes(f.size);
                match f.cached_regular_read(0, data.as_mut_slice(), disk) {
                    Ok(_) => {
                        proof {
                            let size = f.size as int;
                            assert forall|all: Seq<u8>|
                                shows_disk(
                                    all,
                                    0,
                                    disk@,
                                    f.persisted_size as int,
                                ) implies data@ == #[trigger] f.content(all) by {
                                if size > 0 {
                                    assert(f.content(all).subrange(0, size) =~= f.content(all));
                                    assert(data@ =~= f.content(all));
                                } else {
                                    assert(data@ =~= f.content(all));
                                }
                            }
                        }
                        Some(data)
                    },
                    Err(_) => None,
                }
            },
        }
    }

    /// Where the image of the file at a path is to be had.
    pub open spec fn image_found(&self, path: Seq<char>, r: Result<Option<ImageSource>, Load>) -> bool {
        match self.names.resolved_links(path) {
            Err(Fault::Need(load)) => r == Err::<Option<ImageSource>, Load>(load),
            Err(Fault::Sys(_)) => r == Ok::<Option<ImageSource>, Load>(None),
            Ok(target) => match self.names.find_spec(target) {
                Err(Fault::Need(load)) => r == Err::<Option<ImageSource>, Load>(load),
                Err(Fault::Sys(_)) => r == Ok::<Option<ImageSource>, Load>(None),
                Ok((ino, kind)) => if kind != Ext4NodeKind::Regular {
                    r == Ok::<Option<ImageSource>, Load>(None)
                } else if self.files().images.contains_key(ino as u128) {
                    match r {
                        Ok(Some(ImageSource::Ready(data))) => data@
                            == self.files().images[ino as u128]@,
                        _ => false,
                    }
                } else if self.files().regular.contains_key(ino as u128) {
                    r == Ok::<Option<ImageSource>, Load>(Some(ImageSource::Memory(ino)))
                } else if !self.names.inodes@.contains_key(ino as u128) {
                    r == Err::<Option<ImageSource>, Load>(Load::Inode(ino))
                } else if kind_of_mode(self.names.inodes@[ino as u128].mode)
                    != Ext4NodeKind::Regular {
                    r == Ok::<Option<ImageSource>, Load>(None)
                } else {
                    r == Ok::<Option<ImageSource>, Load>(
                        Some(
                            ImageSource::Disk(
                                ino,
                                self.names.inodes@[ino as u128].size as usize,
                            ),
                        ),
                    )
                },
            },
        }
    }

    /// How often images were found and not found, once a path was asked for.
    pub open spec fn image_counts(&self, path: Seq<char>) -> (usize, usize) {
        let (hits, misses) = self.files().image_counts;
        match self.names.resolved_links(path) {
            Err(_) => (hits, misses),
            Ok(target) => match self.names.find_spec(target) {
                Err(_) => (hits, misses),
                Ok((ino, kind)) => if kind != Ext4NodeKind::Regular {
                    (hits, misses)
                } else if self.files().images.contains_key(ino as u128) {
                    (hits.wrapping_add(1), misses)
                } else {
                    (hits, misses.wrapping_add(1))
                },
            },
        }
    }

    /// Where the image of what a path leads to, links followed, is to be had:
    /// `None` where it is no regular file.
    pub fn slurp_regular_file_shared(&mut self, path: &str) -> (r: Result<Option<ImageSource>, Load>)
        requires
            old(self).wf(),
        ensures
            final(self).wf(),
            final(self).files() == (FilesModel {
                image_counts: old(self).image_counts(path@),
                ..old(self).files()
            }),
            final(self).same_names(old(self)),
            old(self).image_found(path@, r),
    {
        let target = match self.names.resolve_symlinks(path) {
            Ok(target) => target,
            Err(Fault::Need(load)) => {
                return Err(load);
            },
            Err(Fault::Sys(_)) => {
                return Ok(None);
            },
        };
        let (ino, kind) = match self.names.find(target.as_str()) {
            Ok(found) => found,
            Err(Fault::Need(load)) => {
                return Err(load);
            },
            Err(Fault::Sys(_)) => {
                return Ok(None);
            },
        };
        if kind != Ext4NodeKind::Regular {
            return Ok(None);
        }
        match self.images.get(ino) {
            Some(data) => {
                return Ok(Some(ImageSource::Ready(data)));
            },
            None => {},
        }
        if self.is_regular_cached(ino) {
            return Ok(Some(ImageSource::Memory(ino)));
        }
        match self.names.inodes.get(ino as u128) {
            None => Err(Load::Inode(ino)),
            Some(inode) => if node_kind(inode.mode) != Ext4NodeKind::Regular {
                Ok(None)
            } else {
                Ok(Some(ImageSource::Disk(ino, inode.size as usize)))
            },
        }
    }

    /// Where the contents of the file at a path are to be had.
    pub fn slurp_regular_file(&mut self, path: &str) -> (r: Result<Option<ImageSource>, Load>)
        requires
            old(self).wf(),
        ensures
            final(self).wf(),
            final(self).files() == (FilesModel {
                image_counts: old(self).image_counts(path@),
                ..old(self).files()
            }),
            final(self).same_names(old(self)),
            old(self).image_found(path@, r),
    {
        self.slurp_regular_file_shared(path)
    }

    /// How many files are held in memory, how many of them have changes not on
    /// disk, and how many bytes they take.
    pub fn diagnostic_regular_cache_stats(&self) -> (r: (usize, usize, usize))
        requires
            self.wf(),
        ensures
            r.0 == self.files().regular.dom().len(),
            r.1 == dirty_count(self.regular.values()),
            r.2 == (if held_bytes(self.regular.values()) > usize::MAX {
                usize::MAX as nat
            } else {
                held_bytes(self.regular.values())
            }),
    {
        let n: usize = self.regular.len();
        let ghost all = self.regular.values();
        let mut dirty: usize = 0;
        let mut bytes: usize = 0;
        let mut i: usize = 0;
        proof {
            self.regular.keys_list_domain();
            assert(all.take(0) =~= Seq::empty());
        }
        while i < n
            invariant
                self.wf(),
                all == self.regular.values(),
                n == all.len(),
                n == self.regular.keys().len(),
                0 <= i <= n,
                dirty <= i,
                dirty == dirty_count(all.take(i as int)),
                bytes == (if held_bytes(all.take(i as int)) > usize::MAX {
                    usize::MAX as nat
                } else {
                    held_bytes(all.take(i as int))
                }),
            decreases n - i,
        {
            proof {
                assert(all.take(i + 1).drop_last() =~= all.take(i as int));
            }
            let f = self.regular.value_at(i);
            proof {
                self.regular.keys_list_domain();
                assert(self.regular@.contains_key(self.regular.keys()[i as int]));
            }
            if f.is_dirty() {
                dirty = dirty + 1;
            }
            let held: usize = match &f.dense {
                Some(data) => data.len(),
                None => {
                    let pages: usize = f.pages.len();
                    if pages > usize::MAX / 4096 {
                        usize::MAX
                    } else {
                        pages * 4096
                    }
                },
            };
            bytes = bytes.saturating_add(held);
            i = i + 1;
        }
        assert(all.take(i as int) =~= all);
        (n, dirty, bytes)
    }
}

/// How many files have changes not on disk.
pub open spec fn dirty_count(files: Seq<CachedRegularFile>) -> nat
    decreases files.len(),
{
    if files.len() == 0 {
        0
    } else {
        dirty_count(files.drop_last()) + (if files.last().dirty.pending() {
            1nat
        } else {
            0
        })
    }
}

/// How many bytes files take in memory.
pub open spec fn held_bytes(files: Seq<CachedRegularFile>) -> nat
    decreases files.len(),
{
    if files.len() == 0 {
        0
    } else {
        held_bytes(files.drop_last()) + (match files.last().dense {
            Some(data) => data@.len(),
            None => {
                let n = files.last().pages@.dom().len() * 4096;
                if n > usize::MAX {
                    usize::MAX as nat
                } else {
                    n
                }
            },
        })
    }
}

/// Whether the worker that writes back in the background has been started.
pub struct WritebackWorker {
    pub started: bool,
}

impl WritebackWorker {
    /// Starts the worker, unless it runs; the result is whether it is to be
    /// created.
    pub fn start_writeback_worker_explicit(&mut self) -> (create: bool)
        ensures
            create == !old(self).started,
            final(self).started,
    {
        let create = !self.started;
        self.started = true;
        create
    }
}

} // verus!
