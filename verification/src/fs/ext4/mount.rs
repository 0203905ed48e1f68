//! A mounted ext4 volume: its names, and the files, pages, images and times of
//! it that are held in memory.
use vstd::prelude::*;

use crate::aged::AgedModel;
use crate::errno::SysErrNo;
use crate::fs::ext4::caches::{
    block_key, page_key, CleanPageCache, ImageCache, PblockRun, PblockRunCache, WritebackQueue,
};
use crate::fs::ext4::dirty::{PageCacheDirtyModel, PageCacheWritebackState};
use crate::fs::ext4::regular::{CachedRegularFile, CachedRegularInfo, ASYNC_WRITEBACK_MIN_FILE};
use crate::fs::ext4::types::{
    inode_metadata, overlaid, overlay_dynamic_metadata, told_of, DataTimes, DiskInode, Ext4Metadata,
    Ext4NodeKind,
};
use crate::fs::ext4::volume::{DirChild, Ext4Names, Fault, Load};
use crate::intmap::IntMap;
use crate::textmap::TextMap;

verus! {

/// A volume and what is held of it in memory.
pub struct Ext4Volume {
    pub names: Ext4Names,
    pub regular: IntMap<CachedRegularFile>,
    pub images: ImageCache,
    pub pages: CleanPageCache,
    pub runs: PblockRunCache,
    pub times: IntMap<DataTimes>,
    pub open_refs: IntMap<usize>,
    pub unlinked: IntMap<()>,
    pub queue: WritebackQueue,
}

/// What is held of the files of a volume, as mathematical values.
#[verifier::ext_equal]
pub struct FilesModel {
    pub inodes: Map<u128, DiskInode>,
    pub links: Map<u128, Vec<u8>>,
    pub regular: Map<u128, CachedRegularFile>,
    pub images: Map<u128, Vec<u8>>,
    pub image_counts: (usize, usize),
    pub pages: AgedModel<Vec<u8>>,
    pub runs: AgedModel<PblockRun>,
    pub times: Map<u128, DataTimes>,
    pub open_refs: Map<u128, usize>,
    pub unlinked: Map<u128, ()>,
    pub waiting: Seq<u32>,
    pub queued: Set<u32>,
}

/// A file that waits to be written back, if it may.
pub open spec fn noted_queued(f: CachedRegularFile) -> CachedRegularFile {
    CachedRegularFile {
        dirty: PageCacheDirtyModel {
            writeback: if f.dirty.pending() && (f.dirty.writeback == PageCacheWritebackState::Dirty
                || f.dirty.writeback == PageCacheWritebackState::Queued) {
                PageCacheWritebackState::Queued
            } else {
                f.dirty.writeback
            },
            ..f.dirty
        },
        ..f
    }
}

/// Whether a file is to be written back in the background now.
pub open spec fn ready_for_queue(f: CachedRegularFile) -> bool {
    f.dirty.pending() && !f.dirty.active() && f.size >= ASYNC_WRITEBACK_MIN_FILE
}

impl FilesModel {
    /// Nothing is held of any file.
    pub open spec fn nothing() -> FilesModel {
        FilesModel {
            inodes: Map::empty(),
            links: Map::empty(),
            regular: Map::empty(),
            images: Map::empty(),
            image_counts: (0, 0),
            pages: AgedModel { entries: Map::empty(), next_age: 1 },
            runs: AgedModel { entries: Map::empty(), next_age: 1 },
            times: Map::empty(),
            open_refs: Map::empty(),
            unlinked: Map::empty(),
            waiting: Seq::empty(),
            queued: Set::empty(),
        }
    }

    /// Nothing is held of any file any more; what was counted stays.
    pub open spec fn emptied(self) -> FilesModel {
        FilesModel {
            image_counts: self.image_counts,
            pages: AgedModel { entries: Map::empty(), ..self.pages },
            runs: AgedModel { entries: Map::empty(), ..self.runs },
            ..FilesModel::nothing()
        }
    }

    /// No clean page of a file.
    pub open spec fn without_pages(self, ino: u32) -> FilesModel {
        FilesModel {
            pages: AgedModel {
                entries: self.pages.entries.remove_keys(
                    Set::new(
                        |k: u128| page_key(ino, 0) <= k <= page_key(ino, 0xffff_ffff_ffff_ffff),
                    ),
                ),
                ..self.pages
            },
            ..self
        }
    }

    /// No clean page with a byte of a range of a file.
    pub open spec fn without_page_range(self, ino: u32, start: int, end: int) -> FilesModel {
        FilesModel {
            pages: if start >= end {
                self.pages
            } else {
                AgedModel {
                    entries: self.pages.entries.remove_keys(
                        Set::new(
                            |k: u128|
                                page_key(ino, start / 4096) <= k <= page_key(
                                    ino,
                                    (end - 1) / 4096,
                                ),
                        ),
                    ),
                    ..self.pages
                }
            },
            ..self
        }
    }

    /// No run of blocks of a file.
    pub open spec fn without_runs(self, ino: u32) -> FilesModel {
        FilesModel {
            runs: AgedModel {
                entries: self.runs.entries.remove_keys(
                    Set::new(|k: u128| block_key(ino, 0) <= k <= block_key(ino, u32::MAX)),
                ),
                ..self.runs
            },
            ..self
        }
    }

    /// No image of a file.
    pub open spec fn without_image(self, ino: u32) -> FilesModel {
        FilesModel { images: self.images.remove(ino as u128), ..self }
    }

    /// A file that does not wait for writing back.
    pub open spec fn unqueued(self, ino: u32) -> FilesModel {
        FilesModel { queued: self.queued.remove(ino), ..self }
    }

    /// A file that waits for writing back.
    pub open spec fn enqueued(self, ino: u32) -> FilesModel {
        FilesModel {
            queued: self.queued.insert(ino),
            waiting: if self.queued.contains(ino) {
                self.waiting
            } else {
                self.waiting.push(ino)
            },
            ..self
        }
    }

    /// No inode of a file.
    pub open spec fn without_inode(self, ino: u32) -> FilesModel {
        FilesModel {
            inodes: self.inodes.remove(ino as u128),
            links: self.links.remove(ino as u128),
            ..self
        }
    }

    /// Nothing of a file but how often it is open.
    pub open spec fn discarded(self, ino: u32) -> FilesModel {
        FilesModel {
            regular: self.regular.remove(ino as u128),
            times: self.times.remove(ino as u128),
            ..self.without_image(ino).unqueued(ino).without_pages(ino).without_runs(
                ino,
            ).without_inode(ino)
        }
    }

    /// A file put up for writing back, if it should be.
    pub open spec fn scheduled(self, ino: u32) -> FilesModel {
        if self.regular.contains_key(ino as u128) && ready_for_queue(self.regular[ino as u128]) {
            FilesModel {
                regular: self.regular.insert(
                    ino as u128,
                    noted_queued(self.regular[ino as u128]),
                ),
                ..self.enqueued(ino)
            }
        } else {
            self
        }
    }

    /// What is counted as open is open at least once.
    pub open spec fn counts_are_real(self) -> bool {
        forall|k: u128| #[trigger] self.open_refs.contains_key(k) ==> self.open_refs[k] >= 1
    }

    /// A file opened once more.
    pub open spec fn opened(self, ino: u32) -> FilesModel {
        FilesModel { open_refs: self.open_refs.insert(ino as u128, (self.refs(ino) + 1) as usize), ..self }
    }

    /// How often a file is open.
    pub open spec fn refs(self, ino: u32) -> int {
        if self.open_refs.contains_key(ino as u128) {
            self.open_refs[ino as u128] as int
        } else {
            0
        }
    }

    /// A file closed once; whether it is to be deleted now.
    pub open spec fn closed_once(self, ino: u32) -> (FilesModel, bool) {
        if !self.open_refs.contains_key(ino as u128) {
            (self, false)
        } else if self.open_refs[ino as u128] > 1 {
            (
                FilesModel {
                    open_refs: self.open_refs.insert(ino as u128, (self.refs(ino) - 1) as usize),
                    ..self
                },
                false,
            )
        } else {
            let last = FilesModel { open_refs: self.open_refs.remove(ino as u128), ..self };
            if self.unlinked.contains_key(ino as u128) {
                (
                    FilesModel {
                        unlinked: self.unlinked.remove(ino as u128),
                        ..last.discarded(ino)
                    },
                    true,
                )
            } else if !self.regular.contains_key(ino as u128) {
                (last, false)
            } else if self.regular[ino as u128].dirty.pending() {
                (last.scheduled(ino), false)
            } else {
                (last.discarded(ino), false)
            }
        }
    }

    /// A file that has become empty.
    pub open spec fn is_emptied(self, was: FilesModel, ino: u32, dirty: bool, now: u32) -> bool {
        &&& self.regular.contains_key(ino as u128)
        &&& self == FilesModel {
            regular: was.regular.insert(ino as u128, self.regular[ino as u128]),
            ..was.without_image(ino).without_runs(ino)
        }
        &&& ({
            let f = self.regular[ino as u128];
            &&& f.size == 0 && f.persisted_size == 0 && f.truncate_to is None
            &&& f.dense is Some && f.dense->0@ == Seq::<u8>::empty()
            &&& f.pages@ == Map::<u128, Vec<u8>>::empty()
            &&& f.dirty.is_fresh(dirty)
            &&& f.mtime_sec == now && f.mtime_extra == 0
            &&& f.ctime_sec == now && f.ctime_extra == 0
        })
    }
}

/// All pages have the length of a page.
pub open spec fn pages_whole(m: AgedModel<Vec<u8>>) -> bool {
    forall|k: u128| #[trigger] m.entries.contains_key(k) ==> m.entries[k].value@.len() == 4096
}

impl Ext4Volume {
    /// What is held of the files.
    pub open spec fn files(&self) -> FilesModel {
        FilesModel {
            inodes: self.names.inodes@,
            links: self.names.links@,
            regular: self.regular@,
            images: self.images@,
            image_counts: self.images.counts(),
            pages: self.pages@,
            runs: self.runs@,
            times: self.times@,
            open_refs: self.open_refs@,
            unlinked: self.unlinked@,
            waiting: self.queue@.pending,
            queued: self.queue@.queued,
        }
    }

    /// The names are as they were, but for inodes.
    pub open spec fn same_names(&self, was: &Ext4Volume) -> bool {
        self.names == Ext4Names {
            inodes: self.names.inodes,
            links: self.names.links,
            ..was.names
        }
    }

    /// All tables and files are in order.
    pub open spec fn wf(&self) -> bool {
        &&& self.names.wf()
        &&& self.regular.wf()
        &&& forall|k: u128| #[trigger]
            self.regular@.contains_key(k) ==> self.regular@[k].wf() && k <= u32::MAX
        &&& self.images.wf()
        &&& self.pages.wf()
        &&& pages_whole(self.pages@)
        &&& self.runs.wf()
        &&& self.times.wf()
        &&& forall|k: u128| #[trigger] self.times@.contains_key(k) ==> k <= u32::MAX
        &&& self.open_refs.wf()
        &&& forall|k: u128| #[trigger]
            self.open_refs@.contains_key(k) ==> self.open_refs@[k] >= 1
        &&& self.unlinked.wf()
        &&& self.queue.wf()
    }

    /// No volume is mounted and nothing is known of one.
    pub open spec fn is_new(&self) -> bool {
        &&& !self.names.mounted
        &&& self.names.dirs@ == Map::<u128, TextMap<DirChild>>::empty()
        &&& self.names.paths.found@ == Map::<Seq<char>, (u32, Ext4NodeKind)>::empty()
        &&& self.names.paths.missing@ == Map::<Seq<char>, ()>::empty()
        &&& self.files() == FilesModel::nothing()
    }

    /// A volume that is not mounted.
    pub fn new() -> (r: Self)
        ensures
            r.wf(),
            r.is_new(),
    {
        let r = Ext4Volume {
            names: Ext4Names::new(),
            regular: IntMap::new(),
            images: ImageCache::new(),
            pages: CleanPageCache::new(),
            runs: PblockRunCache::new(),
            times: IntMap::new(),
            open_refs: IntMap::new(),
            unlinked: IntMap::new(),
            queue: WritebackQueue::new(),
        };
        assert(r.files() =~= FilesModel::nothing());
        r
    }

    /// Whether a file is held in memory for writing.
    pub fn is_regular_cached(&self, ino: u32) -> (r: bool)
        requires
            self.wf(),
        ensures
            r == self.files().regular.contains_key(ino as u128),
    {
        self.regular.contains_key(ino as u128)
    }

    /// Whether a file can be read by clean pages.
    pub fn can_use_clean_page_cache(&self, ino: u32) -> (r: bool)
        requires
            self.wf(),
        ensures
            r == !self.files().regular.contains_key(ino as u128),
    {
        !self.is_regular_cached(ino)
    }

    /// Whether a file is held in memory and has changes that are not on disk.
    pub fn is_regular_cache_dirty(&self, ino: u32) -> (r: bool)
        requires
            self.wf(),
        ensures
            r == (self.files().regular.contains_key(ino as u128)
                && self.files().regular[ino as u128].dirty.pending()),
    {
        match self.regular.get(ino as u128) {
            Some(f) => f.is_dirty(),
            None => false,
        }
    }

    /// Whether a file is open.
    pub fn has_open_regular_ref(&self, ino: u32) -> (r: bool)
        requires
            self.wf(),
        ensures
            r == (self.files().refs(ino) > 0),
    {
        match self.open_refs.get(ino as u128) {
            Some(n) => *n > 0,
            None => false,
        }
    }

    fn invalidate_clean_pages_ino(&mut self, ino: u32)
        requires
            old(self).wf(),
        ensures
            final(self).wf(),
            final(self).same_names(old(self)),
            final(self).files() == old(self).files().without_pages(ino),
    {
        self.pages.invalidate_ino(ino);
    }

    fn invalidate_pblock_runs_ino(&mut self, ino: u32)
        requires
            old(self).wf(),
        ensures
            final(self).wf(),
            final(self).same_names(old(self)),
            final(self).files() == old(self).files().without_runs(ino),
    {
        self.runs.invalidate_ino(ino);
    }

    fn invalidate_executable_image(&mut self, ino: u32)
        requires
            old(self).wf(),
        ensures
            final(self).wf(),
            final(self).same_names(old(self)),
            final(self).files() == old(self).files().without_image(ino),
    {
        self.images.invalidate(ino);
    }

    /// Takes a file off the queue.
    pub fn cancel_queued_writeback(&mut self, ino: u32)
        requires
            old(self).wf(),
        ensures
            final(self).wf(),
            final(self).same_names(old(self)),
            final(self).files() == old(self).files().unqueued(ino),
    {
        self.queue.remove(ino);
    }

    /// Puts a file on the queue.
    pub fn queue_writeback_ino(&mut self, ino: u32)
        requires
            old(self).wf(),
        ensures
            final(self).wf(),
            final(self).same_names(old(self)),
            final(self).files() == old(self).files().enqueued(ino),
    {
        self.queue.push(ino);
    }

    /// Forgets what is told of an inode.
    pub fn invalidate_metadata_ino(&mut self, ino: u32)
        requires
            old(self).wf(),
        ensures
            final(self).wf(),
            final(self).same_names(old(self)),
            final(self).files() == old(self).files().without_inode(ino),
    {
        self.names.invalidate_metadata_ino(ino);
    }

    /// Forgets a file: what is not on disk of it is lost.
    pub fn discard_regular_cache(&mut self, ino: u32)
        requires
            old(self).wf(),
        ensures
            final(self).wf(),
            final(self).same_names(old(self)),
            final(self).files() == old(self).files().discarded(ino),
    {
        self.invalidate_executable_image(ino);
        self.cancel_queued_writeback(ino);
        let _ = self.regular.remove(ino as u128);
        self.invalidate_clean_pages_ino(ino);
        self.invalidate_pblock_runs_ino(ino);
        let _ = self.times.remove(ino as u128);
        self.invalidate_metadata_ino(ino);
    }

    /// Puts a file up for writing back in the background, if it has changes, is
    /// long enough and is not being written already. The result is whether the
    /// worker has to be woken.
    pub fn schedule_cached_writeback_if_ready(&mut self, ino: u32) -> (r: bool)
        requires
            old(self).wf(),
        ensures
            final(self).wf(),
            final(self).same_names(old(self)),
            final(self).files() == old(self).files().scheduled(ino),
            r == (old(self).files().regular.contains_key(ino as u128) && ready_for_queue(
                old(self).files().regular[ino as u128],
            )),
    {
        let ready = match self.regular.get(ino as u128) {
            None => {
                return false;
            },
            Some(f) => f.is_dirty() && !f.dirty.writeback_active() && f.async_writeback_ok(),
        };
        if !ready {
            return false;
        }
        let ghost was = self.regular@;
        match self.regular.remove(ino as u128) {
            None => false,
            Some(f) => {
                let mut f = f;
                let ghost before = f;
                f.dirty.note_queued();
                assert(f == noted_queued(before));
                assert(f.wf());
                self.regular.insert(ino as u128, f);
                assert(self.regular@ =~= was.insert(ino as u128, noted_queued(before)));
                self.queue_writeback_ino(ino);
                true
            },
        }
    }

    /// Counts an opening of a file.
    pub fn open_regular_ino(&mut self, ino: u32)
        requires
            old(self).wf(),
            old(self).files().refs(ino) < usize::MAX,
        ensures
            final(self).wf(),
            final(self).same_names(old(self)),
            final(self).files() == old(self).files().opened(ino),
    {
        let n: usize = match self.open_refs.get(ino as u128) {
            Some(n) => *n,
            None => 0,
        };
        self.open_refs.insert(ino as u128, n + 1);
    }

    /// Counts a closing of a file. The last one puts up what has changed for
    /// writing back, and forgets a file without changes; if the file has no name
    /// any more, the result is that it has to be deleted.
    pub fn close_regular_ino(&mut self, ino: u32) -> (delete: bool)
        requires
            old(self).wf(),
        ensures
            final(self).wf(),
            final(self).same_names(old(self)),
            (final(self).files(), delete) == old(self).files().closed_once(ino),
    {
        let ghost was = self.files();
        let n: usize = match self.open_refs.get(ino as u128) {
            Some(n) => *n,
            None => {
                return false;
            },
        };
        if n > 1 {
            self.open_refs.insert(ino as u128, n - 1);
            return false;
        }
        let _ = self.open_refs.remove(ino as u128);
        if self.unlinked.contains_key(ino as u128) {
            let _ = self.unlinked.remove(ino as u128);
            self.discard_regular_cache(ino);
            return true;
        }
        if !self.is_regular_cached(ino) {
            return false;
        }
        if self.is_regular_cache_dirty(ino) {
            let _ = self.schedule_cached_writeback_if_ready(ino);
            return false;
        }
        self.discard_regular_cache(ino);
        false
    }

    /// Replaces a file by an empty one.
    pub fn cache_empty_regular(&mut self, ino: u32, dirty: bool, now: u32)
        requires
            old(self).wf(),
        ensures
            final(self).wf(),
            final(self).same_names(old(self)),
            final(self).files().is_emptied(old(self).files(), ino, dirty, now),
    {
        self.invalidate_executable_image(ino);
        self.invalidate_pblock_runs_ino(ino);
        let model = if dirty {
            PageCacheDirtyModel::dirty_whole_file()
        } else {
            PageCacheDirtyModel::clean()
        };
        let empty: Vec<u8> = Vec::new();
        let f = CachedRegularFile::new(0, 0, Some(empty), model, now, 0, now, 0);
        self.regular.insert(ino as u128, f);
    }

    /// What is newer in memory than on disk of an inode.
    pub open spec fn told(&self, ino: u32) -> Result<Ext4Metadata, Fault> {
        if !self.names.mounted {
            Err(Fault::Sys(SysErrNo::ENOENT))
        } else if !self.names.inodes@.contains_key(ino as u128) {
            Err(Fault::Need(Load::Inode(ino)))
        } else {
            let cached = if self.regular@.contains_key(ino as u128) {
                let f = self.regular@[ino as u128];
                Some(
                    CachedRegularInfo {
                        size: f.size,
                        mtime_sec: f.mtime_sec,
                        mtime_extra: f.mtime_extra,
                        ctime_sec: f.ctime_sec,
                        ctime_extra: f.ctime_extra,
                    },
                )
            } else {
                None
            };
            let times = if self.times@.contains_key(ino as u128) {
                Some(self.times@[ino as u128])
            } else {
                None
            };
            Ok(overlaid(told_of(ino, self.names.inodes@[ino as u128]), cached, times))
        }
    }

    /// What is told of an inode.
    pub fn metadata_by_ino(&self, ino: u32) -> (r: Result<Ext4Metadata, Fault>)
        requires
            self.wf(),
        ensures
            r == self.told(ino),
    {
        if !self.names.mounted {
            return Err(Fault::Sys(SysErrNo::ENOENT));
        }
        let inode = match self.names.inode(ino) {
            Ok(inode) => inode,
            Err(f) => {
                return Err(f);
            },
        };
        let cached = match self.regular.get(ino as u128) {
            Some(f) => Some(f.info()),
            None => None,
        };
        let times = match self.times.get(ino as u128) {
            Some(t) => Some(*t),
            None => None,
        };
        Ok(overlay_dynamic_metadata(inode_metadata(ino, &inode), cached, times))
    }

    /// What is told of what a path leads to, and its kind.
    pub fn metadata_with_kind(&self, path: &str) -> (r: Result<(Ext4Metadata, Ext4NodeKind), Fault>)
        requires
            self.wf(),
        ensures
            r == (match self.names.find_spec(path@) {
                Err(f) => Err::<(Ext4Metadata, Ext4NodeKind), Fault>(f),
                Ok((ino, kind)) => match self.told(ino) {
                    Err(f) => Err(f),
                    Ok(meta) => Ok((meta, kind)),
                },
            }),
    {
        match self.names.find(path) {
            Err(f) => Err(f),
            Ok((ino, kind)) => match self.metadata_by_ino(ino) {
                Err(f) => Err(f),
                Ok(meta) => Ok((meta, kind)),
            },
        }
    }

    /// What is told of what a path leads to.
    pub fn metadata(&self, path: &str) -> (r: Result<Ext4Metadata, Fault>)
        requires
            self.wf(),
        ensures
            r == (match self.names.find_spec(path@) {
                Err(f) => Err::<Ext4Metadata, Fault>(f),
                Ok((ino, _)) => self.told(ino),
            }),
    {
        match self.metadata_with_kind(path) {
            Ok((meta, _kind)) => Ok(meta),
            Err(f) => Err(f),
        }
    }

    /// The flags of an inode.
    pub fn file_flags_by_ino(&self, ino: u32) -> (r: Result<u32, Fault>)
        requires
            self.wf(),
        ensures
            r == (if !self.names.mounted {
                Err::<u32, Fault>(Fault::Sys(SysErrNo::ENOENT))
            } else if !self.names.inodes@.contains_key(ino as u128) {
                Err(Fault::Need(Load::Inode(ino)))
            } else {
                Ok(self.names.inodes@[ino as u128].flags)
            }),
    {
        if !self.names.mounted {
            return Err(Fault::Sys(SysErrNo::ENOENT));
        }
        match self.names.inode(ino) {
            Ok(inode) => Ok(inode.flags),
            Err(f) => Err(f),
        }
    }

    /// The length of a file.
    pub open spec fn size_spec(&self, ino: u32) -> Result<usize, Fault> {
        if self.regular@.contains_key(ino as u128) {
            Ok(self.regular@[ino as u128].size)
        } else if !self.names.mounted {
            Err(Fault::Sys(SysErrNo::ENOENT))
        } else if !self.names.inodes@.contains_key(ino as u128) {
            Err(Fault::Need(Load::Inode(ino)))
        } else {
            Ok(self.names.inodes@[ino as u128].size as usize)
        }
    }

    /// The length of a file.
    pub fn regular_file_size(&self, ino: u32) -> (r: Result<usize, Fault>)
        requires
            self.wf(),
        ensures
            r == self.size_spec(ino),
    {
        match self.regular.get(ino as u128) {
            Some(f) => {
                return Ok(f.size);
            },
            None => {},
        }
        if !self.names.mounted {
            return Err(Fault::Sys(SysErrNo::ENOENT));
        }
        match self.names.inode(ino) {
            Ok(inode) => Ok(inode.size as usize),
            Err(f) => Err(f),
        }
    }
}

/// Closing a file as often as it was opened leaves it not open, and what is
/// held of it in memory is then on disk, put up for writing back, or too short
/// for that.
pub proof fn last_close_keeps_changes(m: FilesModel, ino: u32)
    requires
        m.open_refs.contains_key(ino as u128),
        m.open_refs[ino as u128] <= 1,
        !m.unlinked.contains_key(ino as u128),
    ensures
        ({
            let after = m.closed_once(ino).0;
            &&& after.refs(ino) == 0
            &&& m.regular.contains_key(ino as u128) && m.regular[ino as u128].dirty.pending() ==> {
                &&& after.regular.contains_key(ino as u128)
                &&& after.regular[ino as u128].dirty.pending()
                &&& after.regular[ino as u128].dense == m.regular[ino as u128].dense
                &&& after.regular[ino as u128].pages == m.regular[ino as u128].pages
                &&& ready_for_queue(m.regular[ino as u128]) ==> after.queued.contains(ino)
            }
        }),
{
}

/// A closing counts: of a file that is not open nothing changes; of one that is
/// open more than once only the count does; with the last closing a file that
/// lost its name goes, and of another nothing is lost that is not on disk.
pub proof fn closing_counts(m: FilesModel, ino: u32)
    requires
        m.counts_are_real(),
    ensures
        ({
            let (after, delete) = m.closed_once(ino);
            let k = ino as u128;
            &&& m.refs(ino) == 0 ==> after == m && !delete
            &&& m.refs(ino) > 0 ==> after.refs(ino) == m.refs(ino) - 1
            &&& m.refs(ino) > 1 ==> !delete && after == (FilesModel {
                open_refs: after.open_refs,
                ..m
            })
            &&& m.refs(ino) == 1 && m.unlinked.contains_key(k) ==> delete
                && !after.regular.contains_key(k) && !after.unlinked.contains_key(k)
            &&& m.refs(ino) == 1 && !m.unlinked.contains_key(k) ==> !delete
            &&& m.refs(ino) == 1 && !m.unlinked.contains_key(k) && m.regular.contains_key(k)
                && m.regular[k].dirty.pending() ==> after.regular.contains_key(k)
                && after.regular[k].dirty.pending() && after.regular[k].dense
                == m.regular[k].dense && after.regular[k].pages == m.regular[k].pages
                && after.regular[k].size == m.regular[k].size
            &&& forall|other: u32| other != ino ==> #[trigger] after.refs(other) == m.refs(other)
        }),
{
    if m.open_refs.contains_key(ino as u128) {
        assert(m.open_refs[ino as u128] >= 1);
    }
}

/// A file that was opened and closed again is open as often as before.
pub proof fn open_then_close(m: FilesModel, ino: u32)
    requires
        0 < m.refs(ino) < usize::MAX,
    ensures
        m.opened(ino).closed_once(ino) == (m, false),
{
    let o = m.opened(ino);
    assert(o.open_refs.insert(ino as u128, (o.refs(ino) - 1) as usize) =~= m.open_refs);
}

} // verus!
