//! Reading, writing and truncating the files of an ext4 volume, and bringing
//! what has changed to disk.
use vstd::prelude::*;

use crate::bytes::spliced;
use crate::errno::SysErrNo;
use crate::fs::content::MAX_FILE_OFFSET;
use crate::fs::ext4::dirty::PageCacheDirtyModel;
use crate::fs::ext4::mount::{Ext4Volume, FilesModel};
use crate::fs::ext4::regular::{shows_disk, CachedRegularFile, DENSE_REGULAR_CACHE_LIMIT};
use crate::fs::ext4::types::{
    kind_of_mode, node_kind, DataTimes, DiskInode, Ext4NodeKind,
};
use crate::fs::ext4::volume::{Fault, Load};

verus! {

/// The end of a write, unless it lies behind the largest length of a file.
pub fn checked_file_end(offset: usize, len: usize) -> (r: Result<usize, SysErrNo>)
    ensures
        r == (if offset + len > MAX_FILE_OFFSET {
            Err::<usize, SysErrNo>(SysErrNo::EFBIG)
        } else {
            Ok((offset + len) as usize)
        }),
{
    match offset.checked_add(len) {
        Some(end) => if end > MAX_FILE_OFFSET {
            Err(SysErrNo::EFBIG)
        } else {
            Ok(end)
        },
        None => Err(SysErrNo::EFBIG),
    }
}

/// What remains to be done on disk to set the length of a file.
#[derive(Clone, Copy, PartialEq, Eq, Structural, Debug)]
pub enum TruncateWork {
    /// Nothing: the file is held in memory.
    Cached,
    /// The file is cut.
    Shrink,
    /// The length in the inode is raised.
    Grow,
    /// The length is right already.
    Keep,
}

/// Why a write did not happen.
#[derive(Clone, Copy, PartialEq, Eq, Structural, Debug)]
pub enum WriteFault {
    Sys(SysErrNo),
    /// The file has to be brought into memory first.
    NeedFile,
}

/// The result of a write into a file that is held in memory.
pub open spec fn as_sys_result(r: Result<usize, WriteFault>) -> Result<usize, SysErrNo> {
    match r {
        Ok(n) => Ok(n),
        Err(WriteFault::Sys(e)) => Err(e),
        Err(WriteFault::NeedFile) => Err(SysErrNo::ENOENT),
    }
}

impl Ext4Volume {
    /// Whether a file was brought into memory unless it was there.
    pub open spec fn file_loaded(
        &self,
        was: &Self,
        ino: u32,
        inode: &DiskInode,
        dense: Option<Vec<u8>>,
    ) -> bool {
        &&& (self.same_names(was))
        &&& (self.files().regular.contains_key(ino as u128))
        &&& (self.files() == (FilesModel {
                regular: was.files().regular.insert(
                    ino as u128,
                    self.files().regular[ino as u128],
                ),
                ..was.files()
            }))
        &&& (was.files().regular.contains_key(ino as u128) ==> self.files() == was.files())
        &&& (!was.files().regular.contains_key(ino as u128) ==> {
                let f = self.files().regular[ino as u128];
                &&& f.size == inode.size && f.persisted_size == inode.size
                &&& f.dense == dense && f.pages@ == Map::<u128, Vec<u8>>::empty()
                &&& f.truncate_to is None && f.dirty.is_fresh(false)
                &&& f.mtime_sec == inode.mtime && f.mtime_extra == inode.mtime_extra
                &&& f.ctime_sec == inode.ctime && f.ctime_extra == inode.ctime_extra
            })
    }

    /// Brings a file into memory, unless it is there. Short ones are held as a
    /// whole: `dense` is then what the disk holds.
    pub fn ensure_regular_cache(&mut self, ino: u32, inode: &DiskInode, dense: Option<Vec<u8>>)
        requires
            old(self).wf(),
            inode.size <= MAX_FILE_OFFSET,
            dense is Some <==> inode.size <= DENSE_REGULAR_CACHE_LIMIT,
            dense is Some ==> dense->0@.len() == inode.size,
        ensures
            final(self).wf(),
            final(self).file_loaded(old(self), ino, inode, dense),
    {
        let ghost was = self.files();
        if self.is_regular_cached(ino) {
            assert(was.regular.insert(ino as u128, was.regular[ino as u128]) =~= was.regular);
            return;
        }
        let size: usize = inode.size as usize;
        let f = CachedRegularFile::new(
            size,
            size,
            dense,
            PageCacheDirtyModel::clean(),
            inode.mtime,
            inode.mtime_extra,
            inode.ctime,
            inode.ctime_extra,
        );
        self.regular.insert(ino as u128, f);
    }

    /// A file after a write or resize: it is replaced, put up for writing back
    /// if it should be, and nothing else that was read of it is kept.
    pub open spec fn file_changed(&self, base: FilesModel, ino: u32, f: CachedRegularFile) -> bool {
        self.files() == (FilesModel {
            regular: base.regular.insert(ino as u128, f),
            ..base
        }).scheduled(ino)
    }

    /// Sets the length of a file that is held in memory.
    pub fn cached_regular_resize(&mut self, ino: u32, new_len: usize, now: u32) -> (r: Result<
        (),
        SysErrNo,
    >)
        requires
            old(self).wf(),
            new_len <= MAX_FILE_OFFSET,
        ensures
            final(self).wf(),
            final(self).same_names(old(self)),
            ({
                let base = old(self).files().without_image(ino).unqueued(ino).without_pages(
                    ino,
                ).without_runs(ino);
                if !old(self).files().regular.contains_key(ino as u128) {
                    r == Err::<(), SysErrNo>(SysErrNo::ENOENT) && final(self).files() == base
                } else {
                    r is Ok && exists|f: CachedRegularFile| #[trigger]
                        f.resized_to(&old(self).files().regular[ino as u128], new_len, now) && f.wf()
                            && final(self).file_changed(base, ino, f)
                }
            }),
    {
        let ghost was = self.files();
        self.images.invalidate(ino);
        self.queue.remove(ino);
        self.pages.invalidate_ino(ino);
        self.runs.invalidate_ino(ino);
        let ghost base = was.without_image(ino).unqueued(ino).without_pages(ino).without_runs(ino);
        assert(self.files() =~= base);
        match self.regular.remove(ino as u128) {
            None => {
                assert(self.files() =~= base);
                Err(SysErrNo::ENOENT)
            },
            Some(f) => {
                let mut f = f;
                let ghost before = f;
                f.cached_regular_resize(new_len, now);
                let ghost mid = f;
                self.regular.insert(ino as u128, f);
                assert(self.regular@ =~= base.regular.insert(ino as u128, mid));
                assert(self.files() =~= (FilesModel {
                    regular: base.regular.insert(ino as u128, mid),
                    ..base
                }));
                let _ = self.schedule_cached_writeback_if_ready(ino);
                assert(mid.resized_to(&before, new_len, now));
                Ok(())
            },
        }
    }

    /// What setting the length of a file does in memory.
    pub open spec fn truncate_done(
        &self,
        was: &Ext4Volume,
        ino: u32,
        size: u64,
        now: u32,
        r: Result<TruncateWork, Fault>,
    ) -> bool {
        &&& (self.same_names(was))
        &&& (r is Err ==> *self == *was)
        &&& (size > MAX_FILE_OFFSET ==> r == Err::<TruncateWork, Fault>(Fault::Sys(SysErrNo::EFBIG)))
        &&& (size <= MAX_FILE_OFFSET ==> {
                if !was.names.mounted {
                    r == Err::<TruncateWork, Fault>(Fault::Sys(SysErrNo::ENOENT))
                } else if !was.names.inodes@.contains_key(ino as u128) {
                    r == Err::<TruncateWork, Fault>(Fault::Need(Load::Inode(ino)))
                } else {
                    let inode = was.names.inodes@[ino as u128];
                    let kind = kind_of_mode(inode.mode);
                    if kind == Ext4NodeKind::Directory {
                        r == Err::<TruncateWork, Fault>(Fault::Sys(SysErrNo::EISDIR))
                    } else if kind == Ext4NodeKind::Other {
                        r == Err::<TruncateWork, Fault>(Fault::Sys(SysErrNo::EINVAL))
                    } else if kind == Ext4NodeKind::Regular && was.files().regular.contains_key(ino as u128) {
                        let base = was.files().without_pages(ino).without_runs(
                            ino,
                        ).without_image(ino).unqueued(ino);
                        &&& r == Ok::<TruncateWork, Fault>(TruncateWork::Cached)
                        &&& exists|f: CachedRegularFile| #[trigger]
                            f.resized_to(
                                &was.files().regular[ino as u128],
                                size as usize,
                                now,
                            ) && f.wf() && self.file_changed(base, ino, f)
                    } else {
                        &&& r == Ok::<TruncateWork, Fault>(
                            if size < inode.size {
                                TruncateWork::Shrink
                            } else if size > inode.size {
                                TruncateWork::Grow
                            } else {
                                TruncateWork::Keep
                            },
                        )
                        &&& self.files() == (if kind == Ext4NodeKind::Regular {
                            was.files().without_pages(ino).without_runs(ino).without_image(ino)
                        } else {
                            was.files()
                        })
                    }
                }
            })
    }

    /// Sets the length of a file, as far as that is done in memory.
    pub fn truncate_regular_ino(&mut self, ino: u32, size: u64, now: u32) -> (r: Result<
        TruncateWork,
        Fault,
    >)
        requires
            old(self).wf(),
        ensures
            final(self).wf(),
            final(self).truncate_done(old(self), ino, size, now, r),
    {
        if size > MAX_FILE_OFFSET as u64 {
            return Err(Fault::Sys(SysErrNo::EFBIG));
        }
        if !self.names.mounted {
            return Err(Fault::Sys(SysErrNo::ENOENT));
        }
        let inode = match self.names.inode(ino) {
            Ok(inode) => inode,
            Err(f) => {
                return Err(f);
            },
        };
        let kind = node_kind(inode.mode);
        if kind == Ext4NodeKind::Directory {
            return Err(Fault::Sys(SysErrNo::EISDIR));
        }
        if kind != Ext4NodeKind::Regular && kind != Ext4NodeKind::Symlink {
            return Err(Fault::Sys(SysErrNo::EINVAL));
        }
        let ghost was = self.files();
        if kind == Ext4NodeKind::Regular {
            self.pages.invalidate_ino(ino);
            self.runs.invalidate_ino(ino);
            assert(self.files() =~= was.without_pages(ino).without_runs(ino));
            if self.is_regular_cached(ino) {
                let ghost again = self.files();
                let _ = self.cached_regular_resize(ino, size as usize, now);
                proof {
                    let base = was.without_pages(ino).without_runs(ino).without_image(ino).unqueued(
                        ino,
                    );
                    assert(again.without_image(ino).unqueued(ino).without_pages(ino).without_runs(
                        ino,
                    ) =~= base);
                }
                return Ok(TruncateWork::Cached);
            }
            let ghost again = self.files();
            self.images.invalidate(ino);
            assert(self.files() =~= again.without_image(ino));
        }
        if size < inode.size {
            Ok(TruncateWork::Shrink)
        } else if size > inode.size {
            Ok(TruncateWork::Grow)
        } else {
            Ok(TruncateWork::Keep)
        }
    }

    /// What is known once the length of a file was set on disk.
    pub open spec fn truncation_noted(
        &self,
        was: &Ext4Volume,
        ino: u32,
        work: TruncateWork,
        kind: Ext4NodeKind,
        size: u64,
        now: u32,
    ) -> bool {
        exists|mid: FilesModel|
            #![trigger mid.without_inode(ino)]
            (if work == TruncateWork::Shrink && kind == Ext4NodeKind::Regular && size == 0 {
                mid.is_emptied(was.files(), ino, true, now)
            } else {
                mid == was.files()
            }) && self.files() == (if kind == Ext4NodeKind::Regular {
                mid.without_inode(ino).without_runs(ino).without_image(ino)
            } else {
                mid.without_inode(ino)
            })
    }

    /// Takes note that the length of a file was set on disk.
    pub fn regular_truncated(&mut self, ino: u32, work: TruncateWork, kind: Ext4NodeKind, size: u64, now: u32)
        requires
            old(self).wf(),
        ensures
            final(self).wf(),
            final(self).same_names(old(self)),
            final(self).truncation_noted(old(self), ino, work, kind, size, now),
    {
        if work == TruncateWork::Shrink && kind == Ext4NodeKind::Regular && size == 0 {
            self.cache_empty_regular(ino, true, now);
        }
        let ghost mid = self.files();
        self.invalidate_metadata_ino(ino);
        assert(self.files() == mid.without_inode(ino));
        if kind == Ext4NodeKind::Regular {
            self.runs.invalidate_ino(ino);
            self.images.invalidate(ino);
            assert(self.files() =~= mid.without_inode(ino).without_runs(ino).without_image(ino));
        }
    }

    /// What a write into a file does.
    pub open spec fn wrote_at(
        &self,
        was: &Ext4Volume,
        ino: u32,
        offset: usize,
        buf: Seq<u8>,
        disk: Seq<u8>,
        now: u32,
        r: Result<usize, WriteFault>,
    ) -> bool {
        &&& (self.same_names(was))
        &&& (offset + buf.len() > MAX_FILE_OFFSET ==> r == Err::<usize, WriteFault>(
                WriteFault::Sys(SysErrNo::EFBIG),
            ) && *self == *was)
        &&& (offset + buf.len() <= MAX_FILE_OFFSET && buf.len() == 0 ==> r == Ok::<
                usize,
                WriteFault,
            >(0) && *self == *was)
        &&& (offset + buf.len() <= MAX_FILE_OFFSET && buf.len() > 0 ==> {
                let base = was.files().without_runs(ino);
                if !was.files().regular.contains_key(ino as u128) {
                    r == Err::<usize, WriteFault>(
                        if was.names.mounted {
                            WriteFault::NeedFile
                        } else {
                            WriteFault::Sys(SysErrNo::ENOENT)
                        },
                    ) && self.files() == base
                } else {
                    &&& r != Err::<usize, WriteFault>(WriteFault::NeedFile)
                    &&& exists|f: CachedRegularFile| #[trigger]
                        f.wrote(
                            &was.files().regular[ino as u128],
                            offset,
                            buf,
                            disk,
                            now,
                            as_sys_result(r),
                        ) && f.wf() && (if r is Ok {
                            self.file_changed(
                                base.without_image(ino).without_page_range(
                                    ino,
                                    offset as int,
                                    offset + buf.len(),
                                ),
                                ino,
                                f,
                            )
                        } else {
                            self.files() == (FilesModel {
                                regular: base.regular.insert(ino as u128, f),
                                ..base.without_image(ino).without_page_range(
                                    ino,
                                    offset as int,
                                    offset + buf.len(),
                                )
                            })
                        })
                }
            })
    }

    /// Writes into a file that is held in memory. `disk` is what the disk holds
    /// from the start of the first page on.
    pub fn ext4_write_at(&mut self, ino: u32, offset: usize, buf: &[u8], disk: &[u8], now: u32) -> (r:
        Result<usize, WriteFault>)
        requires
            old(self).wf(),
        ensures
            final(self).wf(),
            final(self).wrote_at(old(self), ino, offset, buf@, disk@, now, r),
    {
        let end: usize = match checked_file_end(offset, buf.len()) {
            Ok(end) => end,
            Err(e) => {
                return Err(WriteFault::Sys(e));
            },
        };
        if buf.len() == 0 {
            return Ok(0);
        }
        let ghost was = self.files();
        self.runs.invalidate_ino(ino);
        assert(self.files() =~= was.without_runs(ino));
        if !self.is_regular_cached(ino) {
            if self.names.mounted {
                return Err(WriteFault::NeedFile);
            }
            return Err(WriteFault::Sys(SysErrNo::ENOENT));
        }
        self.images.invalidate(ino);
        self.pages.invalidate_range(ino, offset, end);
        let ghost base = was.without_runs(ino).without_image(ino).without_page_range(
            ino,
            offset as int,
            end as int,
        );
        assert(self.files() =~= base);
        match self.regular.remove(ino as u128) {
            None => Err(WriteFault::NeedFile),
            Some(f) => {
                let mut f = f;
                let ghost before = f;
                let r = f.cached_regular_write(offset, buf, disk, now);
                let ghost mid = f;
                assert(mid.wrote(&before, offset, buf@, disk@, now, r));
                self.regular.insert(ino as u128, f);
                assert(self.regular@ =~= base.regular.insert(ino as u128, mid));
                assert(self.files() =~= (FilesModel {
                    regular: base.regular.insert(ino as u128, mid),
                    ..base
                }));
                match r {
                    Ok(n) => {
                        let _ = self.schedule_cached_writeback_if_ready(ino);
                        assert(as_sys_result(Ok(n)) == r);
                        Ok(n)
                    },
                    Err(e) => {
                        assert(as_sys_result(Err(WriteFault::Sys(e))) == r);
                        Err(WriteFault::Sys(e))
                    },
                }
            },
        }
    }

    /// Whether it was noted that a file was written on disk.
    pub open spec fn direct_write_noted(
        &self,
        was: &Self,
        ino: u32,
        offset: usize,
        written: usize,
        now: u32,
    ) -> bool {
        &&& (self.same_names(was))
        &&& (({
                let end = if offset + written > usize::MAX {
                    usize::MAX as int
                } else {
                    offset + written
                };
                let base = was.files().without_image(ino).without_runs(ino);
                self.files() == (if written == 0 {
                    base
                } else {
                    FilesModel {
                        times: base.times.insert(
                            ino as u128,
                            DataTimes { mtime: now, mtime_extra: 0, ctime: now, ctime_extra: 0 },
                        ),
                        ..base.without_page_range(ino, offset as int, end).without_inode(ino)
                    }
                })
            }))
    }

    /// Takes note of a write that went to disk at once.
    pub fn uncached_regular_written(&mut self, ino: u32, offset: usize, written: usize, now: u32)
        requires
            old(self).wf(),
        ensures
            final(self).wf(),
            final(self).direct_write_noted(old(self), ino, offset, written, now),
    {
        let ghost was = self.files();
        self.images.invalidate(ino);
        self.runs.invalidate_ino(ino);
        assert(self.files() =~= was.without_image(ino).without_runs(ino));
        if written != 0 {
            let end: usize = offset.saturating_add(written);
            self.pages.invalidate_range(ino, offset, end);
            self.times.insert(
                ino as u128,
                DataTimes { mtime: now, mtime_extra: 0, ctime: now, ctime_extra: 0 },
            );
            self.names.invalidate_metadata_ino(ino);
        }
    }

    /// Whether reading a file in memory may need what is on disk.
    pub fn reads_disk(&self, ino: u32) -> (r: bool)
        requires
            self.wf(),
        ensures
            r == (self.files().regular.contains_key(ino as u128)
                && self.files().regular[ino as u128].dense is None),
    {
        match self.regular.get(ino as u128) {
            Some(f) => f.dense.is_none(),
            None => false,
        }
    }

    /// Reads a file that is held in memory; `None` for one that is not. `disk`
    /// is what the disk holds from the offset on.
    pub fn cached_regular_read(&self, ino: u32, offset: usize, buf: &mut [u8], disk: &[u8]) -> (r:
        Option<Result<usize, SysErrNo>>)
        requires
            self.wf(),
        ensures
            r is None <==> !self.files().regular.contains_key(ino as u128),
            r is None ==> final(buf)@ == old(buf)@,
            r is Some ==> {
                let f = self.files().regular[ino as u128];
                let n = if offset >= f.size {
                    0
                } else if f.size - offset < old(buf)@.len() {
                    f.size - offset
                } else {
                    old(buf)@.len() as int
                };
                &&& r->0 is Err <==> f.dense is None && !f.disk_suffices(
                    offset as int,
                    n,
                    disk@.len() as int,
                )
                &&& r->0 is Err ==> r->0 == Err::<usize, SysErrNo>(SysErrNo::EIO) && final(buf)@
                    == old(buf)@
                &&& final(buf)@.len() == old(buf)@.len()
                &&& r->0 is Ok ==> r->0->Ok_0 == n
                &&& n == 0 ==> final(buf)@ == old(buf)@
                &&& r->0 is Ok && n > 0 ==> forall|all: Seq<u8>|
                    shows_disk(all, offset as int, disk@, f.persisted_size as int) ==> final(buf)@
                        == spliced(
                        old(buf)@,
                        0,
                        (#[trigger] f.content(all)).subrange(offset as int, offset + n),
                    )
            },
    {
        match self.regular.get(ino as u128) {
            None => None,
            Some(f) => Some(f.cached_regular_read(offset, buf, disk)),
        }
    }
}

} // verus!
