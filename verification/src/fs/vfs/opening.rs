//! Opening paths of the tree.
use vstd::prelude::*;

use crate::errno::SysErrNo;
use crate::fs::block_dev::device::RawBlockDevice;
use crate::fs::block_dev::registry::{loop_control_path, loop_index, loop_index_for_path};
use crate::fs::content::{MemFileContent, MAX_FILE_OFFSET};
use crate::fs::dirent::{entry_views, DirEntryRecord};
use crate::fs::ext4::data::TruncateWork;
use crate::fs::ext4::mount::Ext4Volume;
use crate::fs::ext4::plans::{NewEntry, NewEntryModel, MODE_REGULAR};
use crate::fs::ext4::types::Ext4NodeKind;
use crate::fs::ext4::volume::Fault;
use crate::fs::fd::descriptor::{FileDescriptor, Files};
use crate::fs::fd::handle::{HandleModel, MemHandle};
use crate::fs::fd::open_flags::{
    O_ACCMODE, O_APPEND, O_CREAT, O_DIRECTORY, O_EXCL, O_NOATIME, O_NOFOLLOW, O_PATH, O_RDONLY,
    O_RDWR, O_TRUNC, O_WRONLY,
};
use crate::fs::memfs::model::{DirEntryModel, MemFsModel};
use crate::fs::node::FileTimes;
use crate::fs::path::{
    is_memfs_volatile_dir, local_device_path, local_part, normalize_path, normalized, volatile_dir,
};
use crate::fs::vfat::listed_entries;
use crate::fs::vfs::removal::{fails, Side};
use crate::fs::vfs::tree::{holder, holder_path, Vfs};
use crate::fs::vfs::types::{check_noatime_permission, CredentialIdentity, R_OK, W_OK};
use crate::task::Caller;

verus! {

/// What opening asks for.
#[derive(Clone, Copy, PartialEq, Eq, Structural, Debug)]
pub struct Wishes {
    pub read: bool,
    pub write: bool,
    pub dir: bool,
    pub create: bool,
    pub excl: bool,
    pub trunc: bool,
    pub nofollow: bool,
    pub noatime: bool,
    pub path_only: bool,
    pub append: bool,
}

impl Wishes {
    /// What flags ask for.
    pub open spec fn of(flags: u32) -> Wishes {
        Wishes {
            read: flags & O_ACCMODE == O_RDONLY || flags & O_ACCMODE == O_RDWR,
            write: flags & O_ACCMODE == O_WRONLY || flags & O_ACCMODE == O_RDWR,
            dir: flags & O_DIRECTORY != 0,
            create: flags & O_CREAT != 0,
            excl: flags & O_EXCL != 0,
            trunc: flags & O_TRUNC != 0,
            nofollow: flags & O_NOFOLLOW != 0,
            noatime: flags & O_NOATIME != 0,
            path_only: flags & O_PATH != 0,
            append: flags & O_APPEND != 0,
        }
    }

    fn from_flags(flags: u32) -> (r: Wishes)
        ensures
            r == Wishes::of(flags),
    {
        let mode: u32 = flags & O_ACCMODE;
        Wishes {
            read: mode == O_RDONLY || mode == O_RDWR,
            write: mode == O_WRONLY || mode == O_RDWR,
            dir: flags & O_DIRECTORY != 0,
            create: flags & O_CREAT != 0,
            excl: flags & O_EXCL != 0,
            trunc: flags & O_TRUNC != 0,
            nofollow: flags & O_NOFOLLOW != 0,
            noatime: flags & O_NOATIME != 0,
            path_only: flags & O_PATH != 0,
            append: flags & O_APPEND != 0,
        }
    }

    /// The leave that is needed.
    pub open spec fn needs(self) -> usize {
        if self.read && self.write {
            R_OK | W_OK
        } else if self.read {
            R_OK
        } else if self.write {
            W_OK
        } else {
            0
        }
    }

    fn access(self) -> (r: usize)
        ensures
            r == self.needs(),
    {
        if self.read && self.write {
            R_OK | W_OK
        } else if self.read {
            R_OK
        } else if self.write {
            W_OK
        } else {
            0
        }
    }
}

/// What is found at a path that is opened.
pub enum OpenKind {
    LoopControl,
    Loop(usize),
    FatDir(Vec<DirEntryRecord>),
    FatFile(Vec<u8>),
    MemFile,
    MemDir(Vec<DirEntryRecord>),
    Ext4Dir(u32),
    /// A file of the volume: its inode, and its length where that is needed.
    Ext4File(u32, usize),
    New(Side),
}

/// What is found at a path that is opened, as a mathematical value.
pub enum OpenCase {
    LoopControl,
    Loop(usize),
    FatDir(Seq<DirEntryModel>),
    FatFile(Seq<u8>),
    MemFile,
    MemDir(Seq<DirEntryModel>),
    Ext4Dir(u32),
    Ext4File(u32, usize),
    New(Side),
}

impl View for OpenKind {
    type V = OpenCase;

    open spec fn view(&self) -> OpenCase {
        match *self {
            OpenKind::LoopControl => OpenCase::LoopControl,
            OpenKind::Loop(i) => OpenCase::Loop(i),
            OpenKind::FatDir(v) => OpenCase::FatDir(entry_views(v@)),
            OpenKind::FatFile(v) => OpenCase::FatFile(v@),
            OpenKind::MemFile => OpenCase::MemFile,
            OpenKind::MemDir(v) => OpenCase::MemDir(entry_views(v@)),
            OpenKind::Ext4Dir(ino) => OpenCase::Ext4Dir(ino),
            OpenKind::Ext4File(ino, len) => OpenCase::Ext4File(ino, len),
            OpenKind::New(side) => OpenCase::New(side),
        }
    }
}

/// A finding with its view.
pub open spec fn found_view(r: Result<OpenKind, Fault>) -> Result<OpenCase, Fault> {
    match r {
        Ok(kind) => Ok(kind@),
        Err(f) => Err(f),
    }
}

/// An opened path: an open file, of the volume perhaps one that still has to be
/// cut on disk; or an entry that has to be created there first.
pub enum Opened {
    File(FileDescriptor),
    Cut(FileDescriptor, TruncateWork),
    Create(NewEntry, String),
}

impl Vfs {
    /// What opening a loop device comes to, where a path names one.
    pub open spec fn loop_case(end: Seq<char>, w: Wishes) -> Option<Result<OpenCase, Fault>> {
        let local = local_part(end);
        let case = if local == "/dev/loop-control"@ {
            Some(OpenCase::LoopControl)
        } else {
            match loop_index(local) {
                Some(i) => Some(OpenCase::Loop(i as usize)),
                None => None,
            }
        };
        match case {
            None => None,
            Some(case) => Some(
                if w.dir {
                    fails(SysErrNo::ENOTDIR)
                } else if w.create || w.trunc {
                    fails(SysErrNo::EINVAL)
                } else {
                    Ok(case)
                },
            ),
        }
    }

    fn find_loop(end: &str, w: Wishes) -> (r: Option<Result<OpenKind, Fault>>)
        ensures
            match r {
                None => Vfs::loop_case(end@, w) is None,
                Some(found) => Vfs::loop_case(end@, w) == Some(found_view(found)),
            },
    {
        let local = local_device_path(end);
        let kind = if loop_control_path(local.as_str()) {
            OpenKind::LoopControl
        } else {
            match loop_index_for_path(local.as_str()) {
                Some(i) => OpenKind::Loop(i),
                None => {
                    return None;
                },
            }
        };
        if w.dir {
            return Some(Err(Fault::Sys(SysErrNo::ENOTDIR)));
        }
        if w.create || w.trunc {
            return Some(Err(Fault::Sys(SysErrNo::EINVAL)));
        }
        Some(Ok(kind))
    }

    /// What opening a path of a FAT volume comes to, where one serves it.
    pub open spec fn fat_case<D: RawBlockDevice>(&self, dev: &D, end: Seq<char>, w: Wishes) -> Option<
        Result<OpenCase, Fault>,
    > {
        match self.fat_at(end) {
            None => None,
            Some((volume, range, inner)) => Some(
                if w.create || w.trunc || w.write {
                    fails(SysErrNo::EROFS)
                } else {
                    match volume.told(dev, &range, inner) {
                        Err(e) => fails(e),
                        Ok(meta) => if w.dir && !meta.is_dir {
                            fails(SysErrNo::ENOTDIR)
                        } else if meta.is_dir {
                            match volume.entries_at(dev, &range, inner) {
                                Err(e) => fails(e),
                                Ok(entries) => Ok(OpenCase::FatDir(listed_entries(entries))),
                            }
                        } else {
                            match volume.held(dev, &range, inner) {
                                Err(e) => fails(e),
                                Ok(data) => if data.len() > MAX_FILE_OFFSET {
                                    fails(SysErrNo::EFBIG)
                                } else {
                                    Ok(OpenCase::FatFile(data))
                                },
                            }
                        },
                    }
                },
            ),
        }
    }

    fn find_fat<D: RawBlockDevice>(&self, dev: &D, end: &str, w: Wishes) -> (r: Option<
        Result<OpenKind, Fault>,
    >)
        requires
            self.wf(),
        ensures
            match r {
                None => self.fat_case(dev, end@, w) is None,
                Some(found) => self.fat_case(dev, end@, w) == Some(found_view(found)),
            },
    {
        match self.mounted_vfat_backend(end) {
            None => None,
            Some((volume, range, inner)) => {
                if w.create || w.trunc || w.write {
                    return Some(Err(Fault::Sys(SysErrNo::EROFS)));
                }
                let meta = match volume.metadata(dev, range, inner.as_str()) {
                    Err(e) => {
                        return Some(Err(Fault::Sys(e)));
                    },
                    Ok(meta) => meta,
                };
                if w.dir && !meta.is_dir {
                    return Some(Err(Fault::Sys(SysErrNo::ENOTDIR)));
                }
                if meta.is_dir {
                    return Some(
                        match volume.list_dir(dev, range, inner.as_str()) {
                            Err(e) => Err(Fault::Sys(e)),
                            Ok(entries) => Ok(OpenKind::FatDir(entries)),
                        },
                    );
                }
                Some(
                    match volume.read_file(dev, range, inner.as_str()) {
                        Err(e) => Err(Fault::Sys(e)),
                        Ok(data) => if data.len() > MAX_FILE_OFFSET {
                            Err(Fault::Sys(SysErrNo::EFBIG))
                        } else {
                            Ok(OpenKind::FatFile(data))
                        },
                    },
                )
            },
        }
    }

    /// Whether a task may open a file: it needs leave to read or write it, and
    /// must own it if the time of access is not to be set.
    pub open spec fn openable<D: RawBlockDevice>(&self, dev: &D, end: Seq<char>, w: Wishes, caller: &Caller) -> Result<
        (),
        Fault,
    > {
        match self.usable(dev, end, true, w.needs(), CredentialIdentity::Filesystem, caller) {
            Err(f) => Err(f),
            Ok(_) => if !w.noatime {
                Ok(())
            } else {
                match self.told(dev, end, true, caller.now) {
                    Err(f) => Err(f),
                    Ok(meta) => if caller.cred.fsuid == 0 || caller.cred.fsuid == meta.uid {
                        Ok(())
                    } else {
                        fails(SysErrNo::EPERM)
                    },
                }
            },
        }
    }

    fn check_openable<D: RawBlockDevice>(&self, dev: &D, end: &str, w: Wishes, caller: &Caller) -> (r:
        Result<(), Fault>)
        requires
            self.wf(),
        ensures
            r == self.openable(dev, end@, w, caller),
    {
        match self.check_access_with_identity(
            dev,
            end,
            true,
            w.access(),
            CredentialIdentity::Filesystem,
            caller,
        ) {
            Err(f) => {
                return Err(f);
            },
            Ok(_) => {},
        }
        if w.noatime {
            match self.metadata(dev, end, true, caller.now) {
                Err(f) => {
                    return Err(f);
                },
                Ok(meta) => match check_noatime_permission(&meta, &caller.cred) {
                    Err(e) => {
                        return Err(Fault::Sys(e));
                    },
                    Ok(_) => {},
                },
            }
        }
        Ok(())
    }

    /// What opening a file or special node of memory comes to, where there is
    /// one.
    pub open spec fn mem_case<D: RawBlockDevice>(
        &self,
        dev: &D,
        end: Seq<char>,
        w: Wishes,
        caller: &Caller,
    ) -> Option<Result<OpenCase, Fault>> {
        let m = self.files.mem@;
        let n = normalized(end);
        if m.file_index(n) is None && !m.specials.contains_key(n) {
            None
        } else if w.dir {
            Some(fails(SysErrNo::ENOTDIR))
        } else if w.excl && w.create {
            Some(fails(SysErrNo::EEXIST))
        } else if m.file_index(n) is None {
            Some(fails(SysErrNo::ENXIO))
        } else {
            Some(
                match self.openable(dev, end, w, caller) {
                    Err(f) => Err(f),
                    Ok(_) => Ok(OpenCase::MemFile),
                },
            )
        }
    }

    fn find_mem<D: RawBlockDevice>(&self, dev: &D, end: &str, w: Wishes, caller: &Caller) -> (r: Option<
        Result<OpenKind, Fault>,
    >)
        requires
            self.wf(),
        ensures
            match r {
                None => self.mem_case(dev, end@, w, caller) is None,
                Some(found) => self.mem_case(dev, end@, w, caller) == Some(found_view(found)),
            },
    {
        let is_file = self.files.mem.get_file(end).is_some();
        if !is_file && self.files.mem.get_special(end).is_none() {
            return None;
        }
        if w.dir {
            return Some(Err(Fault::Sys(SysErrNo::ENOTDIR)));
        }
        if w.excl && w.create {
            return Some(Err(Fault::Sys(SysErrNo::EEXIST)));
        }
        if !is_file {
            return Some(Err(Fault::Sys(SysErrNo::ENXIO)));
        }
        Some(
            match self.check_openable(dev, end, w, caller) {
                Err(f) => Err(f),
                Ok(_) => Ok(OpenKind::MemFile),
            },
        )
    }

    /// What opening a directory comes to.
    pub open spec fn dir_case<D: RawBlockDevice>(
        &self,
        dev: &D,
        end: Seq<char>,
        w: Wishes,
        caller: &Caller,
    ) -> Result<OpenCase, Fault> {
        if w.write || w.trunc || w.create {
            fails(SysErrNo::EISDIR)
        } else {
            match self.usable(dev, end, true, w.needs(), CredentialIdentity::Filesystem, caller) {
                Err(f) => Err(f),
                Ok(_) => if self.files.mem@.has_dir(normalized(end)) {
                    match self.listed(dev, end) {
                        Err(f) => Err(f),
                        Ok(entries) => Ok(OpenCase::MemDir(entries)),
                    }
                } else {
                    match self.files.vol.names.find_spec(end) {
                        Err(f) => Err(f),
                        Ok((ino, kind)) => if kind == Ext4NodeKind::Directory {
                            Ok(OpenCase::Ext4Dir(ino))
                        } else {
                            fails(SysErrNo::ENOTDIR)
                        },
                    }
                },
            }
        }
    }

    fn find_dir<D: RawBlockDevice>(&self, dev: &D, end: &str, w: Wishes, caller: &Caller) -> (r: Result<
        OpenKind,
        Fault,
    >)
        requires
            self.wf(),
        ensures
            found_view(r) == self.dir_case(dev, end@, w, caller),
    {
        if w.write || w.trunc || w.create {
            return Err(Fault::Sys(SysErrNo::EISDIR));
        }
        match self.check_access_with_identity(
            dev,
            end,
            true,
            w.access(),
            CredentialIdentity::Filesystem,
            caller,
        ) {
            Err(f) => {
                return Err(f);
            },
            Ok(_) => {},
        }
        if self.files.mem.is_dir(end) {
            return match self.list_dir(dev, end) {
                Err(f) => Err(f),
                Ok(entries) => Ok(OpenKind::MemDir(entries)),
            };
        }
        match self.files.vol.names.find(end) {
            Err(f) => Err(f),
            Ok((ino, kind)) => if kind == Ext4NodeKind::Directory {
                Ok(OpenKind::Ext4Dir(ino))
            } else {
                Err(Fault::Sys(SysErrNo::ENOTDIR))
            },
        }
    }

    /// What opening a regular file of the volume comes to.
    pub open spec fn ext4_case<D: RawBlockDevice>(
        &self,
        dev: &D,
        end: Seq<char>,
        w: Wishes,
        caller: &Caller,
    ) -> Result<OpenCase, Fault> {
        if w.excl && w.create {
            fails(SysErrNo::EEXIST)
        } else {
            match self.files.vol.names.find_spec(end) {
                Err(f) => Err(f),
                Ok((ino, _)) => match self.openable(dev, end, w, caller) {
                    Err(f) => Err(f),
                    Ok(_) => if w.append && w.write && !w.trunc {
                        match self.files.vol.size_spec(ino) {
                            Err(f) => Err(f),
                            Ok(len) => Ok(OpenCase::Ext4File(ino, len)),
                        }
                    } else {
                        Ok(OpenCase::Ext4File(ino, 0))
                    },
                },
            }
        }
    }

    fn find_ext4<D: RawBlockDevice>(&self, dev: &D, end: &str, w: Wishes, caller: &Caller) -> (r: Result<
        OpenKind,
        Fault,
    >)
        requires
            self.wf(),
        ensures
            found_view(r) == self.ext4_case(dev, end@, w, caller),
    {
        if w.excl && w.create {
            return Err(Fault::Sys(SysErrNo::EEXIST));
        }
        let (ino, _kind) = match self.files.vol.names.find(end) {
            Err(f) => {
                return Err(f);
            },
            Ok(found) => found,
        };
        match self.check_openable(dev, end, w, caller) {
            Err(f) => {
                return Err(f);
            },
            Ok(_) => {},
        }
        if w.append && w.write && !w.trunc {
            return match self.files.vol.regular_file_size(ino) {
                Err(f) => Err(f),
                Ok(len) => Ok(OpenKind::Ext4File(ino, len)),
            };
        }
        Ok(OpenKind::Ext4File(ino, 0))
    }

    /// On which side a file that is opened would be created.
    pub open spec fn new_case<D: RawBlockDevice>(&self, dev: &D, end: Seq<char>) -> Result<
        OpenCase,
        Fault,
    > {
        let parent = holder(end);
        let above = self.files.mem@.has_dir(normalized(parent));
        let below = if self.in_tmpfs(parent) {
            Ok(false)
        } else {
            self.ext4_dir_at(parent)
        };
        match below {
            Err(f) => Err(f),
            Ok(below) => if above && (volatile_dir(parent) || !below) {
                Ok(OpenCase::New(Side::Memory))
            } else if below {
                Ok(OpenCase::New(Side::Volume))
            } else {
                Err(self.missing_at(dev, end))
            },
        }
    }

    fn find_new<D: RawBlockDevice>(&self, dev: &D, end: &str) -> (r: Result<OpenKind, Fault>)
        requires
            self.wf(),
        ensures
            found_view(r) == self.new_case(dev, end@),
    {
        let parent = holder_path(end);
        let above = self.files.mem.is_dir(parent.as_str());
        let below = if self.is_tmpfs_path(parent.as_str()) {
            false
        } else {
            match self.ext4_has_dir(parent.as_str()) {
                Err(f) => {
                    return Err(f);
                },
                Ok(b) => b,
            }
        };
        if above && (is_memfs_volatile_dir(parent.as_str()) || !below) {
            return Ok(OpenKind::New(Side::Memory));
        }
        if below {
            return Ok(OpenKind::New(Side::Volume));
        }
        Err(self.missing_path_errno(dev, end))
    }

    /// What opening a path comes to that is no device and lies neither on a FAT
    /// volume nor, as a file, in memory. What the volume has at a name that was
    /// taken away does not count as a file.
    pub open spec fn rest_case<D: RawBlockDevice>(
        &self,
        dev: &D,
        end: Seq<char>,
        removed: bool,
        w: Wishes,
        caller: &Caller,
    ) -> Result<OpenCase, Fault> {
        let kind = if self.in_tmpfs(end) {
            Ok(None)
        } else {
            self.kind_at(end)
        };
        if self.files.mem@.has_dir(normalized(end)) {
            self.dir_case(dev, end, w, caller)
        } else {
            match kind {
                Err(f) => Err(f),
                Ok(kind) => if kind == Some(Ext4NodeKind::Directory) {
                    self.dir_case(dev, end, w, caller)
                } else if w.dir {
                    if kind == Some(Ext4NodeKind::Regular) {
                        fails(SysErrNo::ENOTDIR)
                    } else {
                        match self.non_dir_at(dev, end) {
                            Err(f) => Err(f),
                            Ok(true) => fails(SysErrNo::ENOTDIR),
                            Ok(false) => Err(self.missing_at(dev, end)),
                        }
                    }
                } else if !removed && kind == Some(Ext4NodeKind::Regular) {
                    self.ext4_case(dev, end, w, caller)
                } else if w.create {
                    self.new_case(dev, end)
                } else {
                    Err(self.missing_at(dev, end))
                },
            }
        }
    }

    fn find_rest<D: RawBlockDevice>(
        &self,
        dev: &D,
        end: &str,
        removed: bool,
        w: Wishes,
        caller: &Caller,
    ) -> (r: Result<OpenKind, Fault>)
        requires
            self.wf(),
        ensures
            found_view(r) == self.rest_case(dev, end@, removed, w, caller),
    {
        if self.files.mem.is_dir(end) {
            return self.find_dir(dev, end, w, caller);
        }
        let kind: Option<Ext4NodeKind> = if self.is_tmpfs_path(end) {
            None
        } else {
            match self.ext4_kind(end) {
                Err(f) => {
                    return Err(f);
                },
                Ok(kind) => kind,
            }
        };
        let regular = match kind {
            Some(Ext4NodeKind::Directory) => {
                return self.find_dir(dev, end, w, caller);
            },
            Some(Ext4NodeKind::Regular) => true,
            _ => false,
        };
        if w.dir {
            if regular {
                return Err(Fault::Sys(SysErrNo::ENOTDIR));
            }
            return match self.path_exists_non_dir(dev, end) {
                Err(f) => Err(f),
                Ok(true) => Err(Fault::Sys(SysErrNo::ENOTDIR)),
                Ok(false) => Err(self.missing_path_errno(dev, end)),
            };
        }
        if !removed && regular {
            return self.find_ext4(dev, end, w, caller);
        }
        if w.create {
            return self.find_new(dev, end);
        }
        Err(self.missing_path_errno(dev, end))
    }

    /// What opening what a path ends at comes to.
    pub open spec fn end_case<D: RawBlockDevice>(
        &self,
        dev: &D,
        end: Seq<char>,
        removed: bool,
        w: Wishes,
        caller: &Caller,
    ) -> Result<OpenCase, Fault> {
        match Vfs::loop_case(end, w) {
            Some(case) => case,
            None => match self.fat_case(dev, end, w) {
                Some(case) => case,
                None => match self.mem_case(dev, end, w, caller) {
                    Some(case) => case,
                    None => self.rest_case(dev, end, removed, w, caller),
                },
            },
        }
    }

    /// Where a path that is opened ends, or why it is not opened.
    pub open spec fn open_end(&self, path: Seq<char>, flags: u32) -> Result<Seq<char>, Fault> {
        let w = Wishes::of(flags);
        if flags & O_ACCMODE == O_ACCMODE || (w.dir && w.create) {
            fails(SysErrNo::EINVAL)
        } else if self.removed(path) && !w.create {
            fails(SysErrNo::ENOENT)
        } else if w.path_only {
            if w.create || w.trunc {
                fails(SysErrNo::EINVAL)
            } else {
                Ok(normalized(path))
            }
        } else if self.removed(path) {
            Ok(normalized(path))
        } else {
            self.ending(path, w.nofollow)
        }
    }

    fn find_open_end(&self, path: &str, flags: u32) -> (r: Result<String, Fault>)
        requires
            self.wf(),
        ensures
            match r {
                Ok(end) => self.open_end(path@, flags) == Ok::<Seq<char>, Fault>(end@),
                Err(f) => self.open_end(path@, flags) == Err::<Seq<char>, Fault>(f),
            },
    {
        let w = Wishes::from_flags(flags);
        if flags & O_ACCMODE == O_ACCMODE || (w.dir && w.create) {
            return Err(Fault::Sys(SysErrNo::EINVAL));
        }
        let removed = self.is_removed(path);
        if removed && !w.create {
            return Err(Fault::Sys(SysErrNo::ENOENT));
        }
        if w.path_only {
            if w.create || w.trunc {
                return Err(Fault::Sys(SysErrNo::EINVAL));
            }
            return Ok(normalize_path(path));
        }
        if removed {
            return Ok(normalize_path(path));
        }
        self.resolve_final_symlink(path, w.nofollow)
    }

    fn find_end_case<D: RawBlockDevice>(
        &self,
        dev: &D,
        end: &str,
        removed: bool,
        w: Wishes,
        caller: &Caller,
    ) -> (r: Result<OpenKind, Fault>)
        requires
            self.wf(),
        ensures
            found_view(r) == self.end_case(dev, end@, removed, w, caller),
    {
        match Vfs::find_loop(end, w) {
            Some(found) => {
                return found;
            },
            None => {},
        }
        match self.find_fat(dev, end, w) {
            Some(found) => {
                return found;
            },
            None => {},
        }
        match self.find_mem(dev, end, w, caller) {
            Some(found) => {
                return found;
            },
            None => {},
        }
        self.find_rest(dev, end, removed, w, caller)
    }

    /// One more file of the volume can always be opened.
    pub open spec fn can_open(&self) -> bool {
        forall|ino: u32| #[trigger] self.files.vol.files().refs(ino) < usize::MAX
    }

    /// What opening a file of memory does: it is emptied if that is asked for.
    pub open spec fn mem_opened(
        &self,
        was: &Vfs,
        end: Seq<char>,
        w: Wishes,
        caller: &Caller,
        file: FileDescriptor,
    ) -> bool {
        let m = if w.trunc && w.write {
            was.files.mem@.truncate_file(caller, end, 0).0
        } else {
            was.files.mem@
        };
        let b = m.backing_of(normalized(end));
        &&& *self == (Vfs { files: Files { mem: self.files.mem, ..was.files }, ..*was })
        &&& self.files.mem@ == m
        &&& file matches FileDescriptor::MemFile(h) && h.wf() && h@ == (HandleModel {
            name: end,
            content: b.content,
            times: b.times,
            offset: if w.append && w.write {
                b.content.len()
            } else {
                0
            },
            readable: w.read,
            writable: w.write,
            append: w.append,
            linked: true,
            node: None,
        })
    }

    fn open_mem(&mut self, end: String, w: Wishes, caller: &Caller) -> (r: FileDescriptor)
        requires
            old(self).wf(),
            old(self).files.mem@.file_index(normalized(end@)) is Some,
        ensures
            final(self).wf(),
            final(self).mem_opened(old(self), end@, w, caller, r),
    {
        let ghost was = self.files.mem@;
        let ghost n = normalized(end@);
        proof {
            self.files.mem.files_have_contents();
            lemma_index_in_range(was, n);
        }
        if w.trunc && w.write {
            let _ = self.files.mem.truncate_file(caller, end.as_str(), 0);
            proof {
                assert(self.files.mem@.files == was.files);
                assert(self.files.mem@.file_index(n) == was.file_index(n)) by {
                    lemma_index_same(was, self.files.mem@, n);
                }
            }
        }
        let (content, times) = match self.files.mem.get_file(end.as_str()) {
            Some(file) => file.snapshot(&self.files.mem),
            None => (MemFileContent::new(), FileTimes::now(caller.now)),
        };
        let offset: usize = if w.append && w.write {
            content.len()
        } else {
            0
        };
        FileDescriptor::MemFile(
            MemHandle {
                name: end,
                content,
                times,
                offset,
                readable: w.read,
                writable: w.write,
                append: w.append,
                linked: true,
                node: None,
            },
        )
    }

    /// What creating a file of memory and opening it does.
    pub open spec fn mem_created(
        &self,
        was: &Vfs,
        end: Seq<char>,
        w: Wishes,
        mode: u32,
        caller: &Caller,
        file: FileDescriptor,
    ) -> bool {
        &&& self.in_memory(was)
        &&& self.files.mem@ == was.files.mem@.add_file_with_mode(caller, end, Seq::empty(), mode)
        &&& self.whiteouts@ == was.whiteouts@.remove(normalized(end))
        &&& file matches FileDescriptor::MemFile(h) && h.wf() && h@ == (HandleModel {
            name: end,
            content: Seq::empty(),
            times: FileTimes::at(caller.now),
            offset: 0,
            readable: w.read,
            writable: w.write,
            append: w.append,
            linked: true,
            node: None,
        })
    }

    fn create_mem(&mut self, end: String, w: Wishes, mode: u32, caller: &Caller) -> (r:
        FileDescriptor)
        requires
            old(self).wf(),
        ensures
            final(self).wf(),
            final(self).mem_created(old(self), end@, w, mode, caller, r),
    {
        let empty: Vec<u8> = Vec::new();
        assert(empty@ =~= Seq::<u8>::empty());
        self.files.mem.add_file_with_mode(caller, end.as_str(), empty, mode);
        self.clear_whiteout(end.as_str());
        let content = MemFileContent::new();
        FileDescriptor::MemFile(
            MemHandle {
                name: end,
                content,
                times: FileTimes::now(caller.now),
                offset: 0,
                readable: w.read,
                writable: w.write,
                append: w.append,
                linked: true,
                node: None,
            },
        )
    }

    /// What opening a file of the volume does: it is emptied if that is asked
    /// for, and counted as open. Where emptying it fails, it is not opened.
    pub open spec fn ext4_opened(
        &self,
        was: &Vfs,
        end: Seq<char>,
        ino: u32,
        len: usize,
        w: Wishes,
        now: u32,
        r: Result<Opened, Fault>,
    ) -> bool {
        let file = FileDescriptor::Ext4Regular {
            ino,
            offset: len,
            readable: w.read,
            writable: w.write,
            append: w.append,
        };
        &&& self.on_disk(was)
        &&& if w.trunc && w.write {
            match r {
                Err(f) => *self == *was && was.files.vol.path_truncated(
                    &was.files.vol,
                    end,
                    0,
                    now,
                    Err(f),
                ),
                Ok(Opened::Cut(fd, work)) => fd == file && exists|mid: Ext4Volume|
                    #![trigger mid.files()]
                    mid.path_truncated(&was.files.vol, end, 0, now, Ok((ino, work)))
                        && self.files.vol.same_names(&mid) && self.files.vol.files()
                        == mid.files().opened(ino),
                Ok(_) => false,
            }
        } else {
            &&& r == Ok::<Opened, Fault>(Opened::File(file))
            &&& self.files.vol.same_names(&was.files.vol)
            &&& self.files.vol.files() == was.files.vol.files().opened(ino)
        }
    }

    fn open_ext4(&mut self, end: &str, ino: u32, len: usize, w: Wishes, now: u32) -> (r: Result<
        Opened,
        Fault,
    >)
        requires
            old(self).wf(),
            old(self).can_open(),
            old(self).files.vol.names.find_spec(end@) is Ok,
            old(self).files.vol.names.find_spec(end@)->Ok_0.0 == ino,
        ensures
            final(self).wf(),
            final(self).ext4_opened(old(self), end@, ino, len, w, now, r),
    {
        let mut work: Option<TruncateWork> = None;
        assert(self.files.vol.files().refs(ino) < usize::MAX);
        if w.trunc && w.write {
            match self.files.vol.truncate_regular_ext4(end, 0, now) {
                Err(f) => {
                    return Err(f);
                },
                Ok((_ino, cut)) => {
                    work = Some(cut);
                },
            }
        }
        let ghost mid = self.files.vol;
        assert(mid.files().refs(ino) == old(self).files.vol.files().refs(ino));
        self.files.vol.open_regular_ino(ino);
        let file = FileDescriptor::Ext4Regular {
            ino,
            offset: len,
            readable: w.read,
            writable: w.write,
            append: w.append,
        };
        match work {
            None => Ok(Opened::File(file)),
            Some(work) => {
                assert(mid.path_truncated(&old(self).files.vol, end@, 0, now, Ok((ino, work))));
                Ok(Opened::Cut(file, work))
            },
        }
    }

    /// What opening what was found at the end of a path does.
    pub open spec fn case_opened(
        &self,
        was: &Vfs,
        case: OpenCase,
        end: Seq<char>,
        logical: Seq<char>,
        w: Wishes,
        mode: u32,
        caller: &Caller,
        now: u32,
        r: Result<Opened, Fault>,
    ) -> bool {
        match case {
            OpenCase::LoopControl => r == Ok::<Opened, Fault>(
                Opened::File(FileDescriptor::LoopControl),
            ) && *self == *was,
            OpenCase::Loop(index) => r == Ok::<Opened, Fault>(
                Opened::File(
                    FileDescriptor::LoopDevice {
                        index,
                        offset: 0,
                        readable: w.read,
                        writable: w.write,
                    },
                ),
            ) && *self == *was,
            OpenCase::FatDir(entries) => *self == *was && Vfs::dir_opened(r, entries, end, logical),
            OpenCase::MemDir(entries) => *self == *was && Vfs::dir_opened(r, entries, end, logical),
            OpenCase::FatFile(data) => *self == *was && match r {
                Ok(Opened::File(FileDescriptor::MemFile(h))) => h.wf() && h@ == (HandleModel {
                    name: end,
                    content: data,
                    times: FileTimes::at(caller.now),
                    offset: 0,
                    readable: w.read,
                    writable: false,
                    append: false,
                    linked: false,
                    node: None,
                }),
                _ => false,
            },
            OpenCase::MemFile => match r {
                Ok(Opened::File(file)) => self.mem_opened(was, end, w, caller, file),
                _ => false,
            },
            OpenCase::Ext4Dir(ino) => *self == *was && match r {
                Ok(Opened::File(FileDescriptor::Ext4Dir { path, ino: i, offset })) => path@
                    == logical && i == ino && offset == 0,
                _ => false,
            },
            OpenCase::Ext4File(ino, len) => self.ext4_opened(was, end, ino, len, w, now, r),
            OpenCase::New(Side::Memory) => match r {
                Ok(Opened::File(file)) => self.mem_created(was, end, w, mode, caller, file),
                _ => false,
            },
            OpenCase::New(Side::Volume) => *self == *was && match r {
                Err(f) => was.files.vol.names.new_entry_spec(end, MODE_REGULAR, mode, &caller.cred)
                    == Err::<NewEntryModel, Fault>(f),
                Ok(Opened::Create(entry, path)) => path@ == end
                    && was.files.vol.names.new_entry_spec(end, MODE_REGULAR, mode, &caller.cred)
                    == Ok::<NewEntryModel, Fault>(entry@),
                Ok(_) => false,
            },
        }
    }

    /// A directory whose entries are known has been opened.
    pub open spec fn dir_opened(
        r: Result<Opened, Fault>,
        entries: Seq<DirEntryModel>,
        end: Seq<char>,
        logical: Seq<char>,
    ) -> bool {
        match r {
            Ok(Opened::File(FileDescriptor::MemDir { path, host_path, entries: e, offset })) => path@
                == logical && host_path@ == end && entry_views(e@) == entries && offset == 0,
            _ => false,
        }
    }

    /// What is found is there.
    pub open spec fn case_fits(&self, case: OpenCase, end: Seq<char>) -> bool {
        match case {
            OpenCase::FatFile(data) => data.len() <= MAX_FILE_OFFSET,
            OpenCase::MemFile => self.files.mem@.file_index(normalized(end)) is Some,
            OpenCase::Ext4File(ino, _) => self.files.vol.names.find_spec(end) is Ok
                && self.files.vol.names.find_spec(end)->Ok_0.0 == ino,
            _ => true,
        }
    }

    proof fn lemma_case_fits<D: RawBlockDevice>(
        &self,
        dev: &D,
        end: Seq<char>,
        removed: bool,
        w: Wishes,
        caller: &Caller,
    )
        requires
            self.end_case(dev, end, removed, w, caller) is Ok,
        ensures
            self.case_fits(self.end_case(dev, end, removed, w, caller)->Ok_0, end),
    {
    }

    fn open_case(
        &mut self,
        kind: OpenKind,
        end: String,
        logical: String,
        w: Wishes,
        mode: u32,
        caller: &Caller,
        now: u32,
    ) -> (r: Result<Opened, Fault>)
        requires
            old(self).wf(),
            old(self).can_open(),
            old(self).case_fits(kind@, end@),
        ensures
            final(self).wf(),
            final(self).case_opened(
                old(self),
                kind@,
                end@,
                logical@,
                w,
                mode,
                caller,
                now,
                r,
            ),
    {
        match kind {
            OpenKind::LoopControl => Ok(Opened::File(FileDescriptor::LoopControl)),
            OpenKind::Loop(index) => Ok(
                Opened::File(
                    FileDescriptor::LoopDevice {
                        index,
                        offset: 0,
                        readable: w.read,
                        writable: w.write,
                    },
                ),
            ),
            OpenKind::FatDir(entries) => Ok(
                Opened::File(
                    FileDescriptor::MemDir { path: logical, host_path: end, entries, offset: 0 },
                ),
            ),
            OpenKind::MemDir(entries) => Ok(
                Opened::File(
                    FileDescriptor::MemDir { path: logical, host_path: end, entries, offset: 0 },
                ),
            ),
            OpenKind::FatFile(data) => {
                let content = MemFileContent::from_slice(data.as_slice());
                Ok(
                    Opened::File(
                        FileDescriptor::MemFile(
                            MemHandle {
                                name: end,
                                content,
                                times: FileTimes::now(caller.now),
                                offset: 0,
                                readable: w.read,
                                writable: false,
                                append: false,
                                linked: false,
                                node: None,
                            },
                        ),
                    ),
                )
            },
            OpenKind::MemFile => Ok(Opened::File(self.open_mem(end, w, caller))),
            OpenKind::Ext4Dir(ino) => Ok(
                Opened::File(FileDescriptor::Ext4Dir { path: logical, ino, offset: 0 }),
            ),
            OpenKind::Ext4File(ino, len) => self.open_ext4(end.as_str(), ino, len, w, now),
            OpenKind::New(Side::Memory) => Ok(Opened::File(self.create_mem(end, w, mode, caller))),
            OpenKind::New(Side::Volume) => match self.files.vol.names.create_regular_ext4_with_mode(
                end.as_str(),
                mode,
                &caller.cred,
            ) {
                Err(f) => Err(f),
                Ok(entry) => Ok(Opened::Create(entry, end)),
            },
        }
    }

    /// What opening a path does.
    pub open spec fn opened<D: RawBlockDevice>(
        &self,
        was: &Vfs,
        dev: &D,
        host_path: Seq<char>,
        logical_path: Seq<char>,
        flags: u32,
        mode: u32,
        caller: &Caller,
        now: u32,
        r: Result<Opened, Fault>,
    ) -> bool {
        let w = Wishes::of(flags);
        let logical = normalized(logical_path);
        match was.open_end(host_path, flags) {
            Err(f) => r == Err::<Opened, Fault>(f) && *self == *was,
            Ok(end) => if w.path_only {
                *self == *was && match was.told(dev, end, !w.nofollow, caller.now) {
                    Err(f) => r == Err::<Opened, Fault>(f),
                    Ok(meta) => match r {
                        Ok(Opened::File(FileDescriptor::Path { logical_path: l, host_path: h, kind, flags: f })) => l@
                            == logical && h@ == end && kind == meta.kind && f == flags,
                        _ => false,
                    },
                }
            } else {
                match was.end_case(dev, end, was.removed(host_path), w, caller) {
                    Err(f) => r == Err::<Opened, Fault>(f) && *self == *was,
                    Ok(case) => self.case_opened(
                        was,
                        case,
                        end,
                        logical,
                        w,
                        mode,
                        caller,
                        now,
                        r,
                    ),
                }
            },
        }
    }

    /// Opens a path. `host_path` is where it lies in the tree, `logical_path`
    /// what the task calls it.
    pub fn open_path<D: RawBlockDevice>(
        &mut self,
        dev: &D,
        host_path: &str,
        logical_path: &str,
        flags: u32,
        mode: u32,
        caller: &Caller,
        now: u32,
    ) -> (r: Result<Opened, Fault>)
        requires
            old(self).wf(),
            old(self).can_open(),
        ensures
            final(self).wf(),
            final(self).opened(
                old(self),
                dev,
                host_path@,
                logical_path@,
                flags,
                mode,
                caller,
                now,
                r,
            ),
    {
        let w = Wishes::from_flags(flags);
        let logical = normalize_path(logical_path);
        let end = match self.find_open_end(host_path, flags) {
            Err(f) => {
                return Err(f);
            },
            Ok(end) => end,
        };
        if w.path_only {
            return match self.metadata(dev, end.as_str(), !w.nofollow, caller.now) {
                Err(f) => Err(f),
                Ok(meta) => Ok(
                    Opened::File(
                        FileDescriptor::Path {
                            logical_path: logical,
                            host_path: end,
                            kind: meta.kind,
                            flags,
                        },
                    ),
                ),
            };
        }
        let removed = self.is_removed(host_path);
        match self.find_end_case(dev, end.as_str(), removed, w, caller) {
            Err(f) => Err(f),
            Ok(kind) => {
                proof {
                    self.lemma_case_fits(dev, end@, removed, w, caller);
                }
                self.open_case(kind, end, logical, w, mode, caller, now)
            },
        }
    }

    /// Opens a path.
    pub fn open_file<D: RawBlockDevice>(
        &mut self,
        dev: &D,
        host_path: &str,
        logical_path: &str,
        flags: u32,
        mode: u32,
        caller: &Caller,
        now: u32,
    ) -> (r: Result<Opened, Fault>)
        requires
            old(self).wf(),
            old(self).can_open(),
        ensures
            final(self).wf(),
            final(self).opened(
                old(self),
                dev,
                host_path@,
                logical_path@,
                flags,
                mode,
                caller,
                now,
                r,
            ),
    {
        self.open_path(dev, host_path, logical_path, flags, mode, caller, now)
    }

    /// Opens a file of the volume that has just been created there at the end
    /// of a path that was opened.
    pub fn open_created(&mut self, end: &str, ino: u32, flags: u32) -> (r: FileDescriptor)
        requires
            old(self).wf(),
            old(self).can_open(),
        ensures
            final(self).wf(),
            *final(self) == (Vfs {
                files: Files { vol: final(self).files.vol, ..old(self).files },
                whiteouts: final(self).whiteouts,
                ..*old(self)
            }),
            final(self).whiteouts@ == old(self).whiteouts@.remove(normalized(end@)),
            final(self).files.vol.same_names(&old(self).files.vol),
            final(self).files.vol.files() == old(self).files.vol.files().opened(ino),
            r == (FileDescriptor::Ext4Regular {
                ino,
                offset: 0,
                readable: Wishes::of(flags).read,
                writable: Wishes::of(flags).write,
                append: Wishes::of(flags).append,
            }),
    {
        let w = Wishes::from_flags(flags);
        assert(self.files.vol.files().refs(ino) < usize::MAX);
        self.clear_whiteout(end);
        self.files.vol.open_regular_ino(ino);
        FileDescriptor::Ext4Regular {
            ino,
            offset: 0,
            readable: w.read,
            writable: w.write,
            append: w.append,
        }
    }

    /// A file of memory that was created by opening it is there, is empty, and
    /// cannot be created a second time.
    pub proof fn created_file_is_there<D: RawBlockDevice>(
        &self,
        was: &Vfs,
        dev: &D,
        end: Seq<char>,
        w: Wishes,
        mode: u32,
        caller: &Caller,
        file: FileDescriptor,
        again: Wishes,
    )
        requires
            self.mem_created(was, end, w, mode, caller, file),
            self.fat_at(end) is None,
            Vfs::loop_case(end, again) is None,
            again.create,
            again.excl,
        ensures
            self.occupied(dev, end) == Ok::<bool, Fault>(true),
            self.files.mem@.backing_of(normalized(end)).content == Seq::<u8>::empty(),
            self.end_case(dev, end, false, again, caller) == Err::<OpenCase, Fault>(
                Fault::Sys(
                    if again.dir {
                        SysErrNo::ENOTDIR
                    } else {
                        SysErrNo::EEXIST
                    },
                ),
            ),
    {
        crate::fs::memfs::laws::created_file_is_found(
            was.files.mem@,
            caller,
            end,
            Seq::empty(),
            mode,
        );
    }

    /// Opening with the demand that a file be new never opens one that is
    /// there.
    pub proof fn exclusive_open_finds_nothing<D: RawBlockDevice>(
        &self,
        dev: &D,
        end: Seq<char>,
        removed: bool,
        w: Wishes,
        caller: &Caller,
    )
        requires
            w.create,
            w.excl,
            self.end_case(dev, end, removed, w, caller) is Ok,
        ensures
            self.end_case(dev, end, removed, w, caller)->Ok_0 is New,
    {
    }
}

proof fn lemma_index_in_range(m: MemFsModel, n: Seq<char>)
    requires
        m.file_index(n) is Some,
    ensures
        0 <= m.file_index(n)->0 < m.files.len(),
{
    let i = choose|i: int| m.first_file(n, i);
    assert(m.first_file(n, i));
}

proof fn lemma_index_same(a: MemFsModel, b: MemFsModel, n: Seq<char>)
    requires
        a.files == b.files,
    ensures
        a.file_index(n) == b.file_index(n),
{
    assert forall|i: int| a.first_file(n, i) == b.first_file(n, i) by {}
    assert((|i: int| a.first_file(n, i)) =~= (|i: int| b.first_file(n, i)));
}

} // verus!
