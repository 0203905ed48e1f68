//! Links, lengths, modes, owners and times of the nodes of the tree.
use vstd::prelude::*;

use crate::errno::SysErrNo;
use crate::fs::block_dev::device::RawBlockDevice;
use crate::fs::content::MAX_FILE_OFFSET;
use crate::fs::ext4::data::TruncateWork;
use crate::fs::ext4::types::{DiskInode, Ext4NodeKind};
use crate::fs::ext4::volume::{Fault, Load};
use crate::fs::fd::descriptor::{FileDescriptor, Files};
use crate::fs::fd::handle::MemHandle;
use crate::fs::path::{normalize_path, normalized};
use crate::fs::vfs::removal::fails;
use crate::fs::vfs::tree::Vfs;
use crate::fs::vfs::types::CredentialIdentity;
use crate::task::Caller;

verus! {

/// What is left to do to change what is recorded of a node: nothing, or an
/// inode of the volume has to be written.
#[derive(Clone, Copy, PartialEq, Eq, Structural, Debug)]
pub enum Recording {
    Done,
    Inode(u32, DiskInode),
}

/// What is left to do to set the length of a file.
#[derive(Clone, Copy, PartialEq, Eq, Structural, Debug)]
pub enum Cutting {
    Done,
    Volume(u32, TruncateWork),
}

/// The outcome of an operation in memory.
pub open spec fn recorded_here(r: Result<(), SysErrNo>) -> Result<Recording, Fault> {
    match r {
        Ok(_) => Ok(Recording::Done),
        Err(e) => Err(Fault::Sys(e)),
    }
}

fn as_recorded(r: Result<(), SysErrNo>) -> (out: Result<Recording, Fault>)
    ensures
        out == recorded_here(r),
{
    match r {
        Ok(_) => Ok(Recording::Done),
        Err(e) => Err(Fault::Sys(e)),
    }
}

/// The outcome of an operation on an inode of the volume.
pub open spec fn recorded_there(r: Result<(u32, DiskInode), Fault>) -> Result<Recording, Fault> {
    match r {
        Ok((ino, inode)) => Ok(Recording::Inode(ino, inode)),
        Err(f) => Err(f),
    }
}

fn as_written(r: Result<(u32, DiskInode), Fault>) -> (out: Result<Recording, Fault>)
    ensures
        out == recorded_there(r),
{
    match r {
        Ok((ino, inode)) => Ok(Recording::Inode(ino, inode)),
        Err(f) => Err(f),
    }
}

impl Vfs {
    /// Only memory is changed.
    pub open spec fn mem_only(&self, was: &Vfs) -> bool {
        *self == (Vfs { files: Files { mem: self.files.mem, ..was.files }, ..*was })
    }

    /// The target of a link, as a task finds it by a path.
    pub open spec fn link_read<D: RawBlockDevice>(&self, dev: &D, path: Seq<char>, caller: &Caller) -> Result<
        Seq<char>,
        Fault,
    > {
        let m = self.files.mem@;
        match self.parents_resolved(dev, path, caller.now) {
            Err(f) => Err(f),
            Ok(p) => if self.removed(p) {
                fails(SysErrNo::ENOENT)
            } else {
                match self.reachable(dev, p, CredentialIdentity::Filesystem, caller) {
                    Err(f) => Err(f),
                    Ok(_) => match self.fat_told(dev, p) {
                        Some(Err(e)) => fails(e),
                        Some(Ok(_)) => fails(SysErrNo::EINVAL),
                        None => if m.symlinks.contains_key(normalized(p)) {
                            Ok(m.symlinks[normalized(p)])
                        } else if m.has_node(normalized(p)) {
                            fails(SysErrNo::EINVAL)
                        } else if self.in_tmpfs(p) {
                            Err(self.missing_at(dev, p))
                        } else {
                            match self.kind_at(p) {
                                Err(f) => Err(f),
                                Ok(None) => Err(self.missing_at(dev, p)),
                                Ok(Some(kind)) => if kind == Ext4NodeKind::Symlink {
                                    self.files.vol.names.readlink_spec(p)
                                } else {
                                    fails(SysErrNo::EINVAL)
                                },
                            }
                        },
                    },
                }
            },
        }
    }

    /// The target of a link, as a task finds it by a path.
    pub fn read_link<D: RawBlockDevice>(&self, dev: &D, path: &str, caller: &Caller) -> (r: Result<
        String,
        Fault,
    >)
        requires
            self.wf(),
        ensures
            match r {
                Ok(target) => self.link_read(dev, path@, caller) == Ok::<Seq<char>, Fault>(target@),
                Err(f) => self.link_read(dev, path@, caller) == Err::<Seq<char>, Fault>(f),
            },
    {
        let p = match self.resolve_parent_symlinks_for_lookup(dev, path, caller.now) {
            Err(f) => {
                return Err(f);
            },
            Ok(p) => p,
        };
        if self.is_removed(p.as_str()) {
            return Err(Fault::Sys(SysErrNo::ENOENT));
        }
        match self.check_search_access(dev, p.as_str(), CredentialIdentity::Filesystem, caller) {
            Err(f) => {
                return Err(f);
            },
            Ok(_) => {},
        }
        match self.vfat_metadata_for_path(dev, p.as_str()) {
            Some(Err(e)) => {
                return Err(Fault::Sys(e));
            },
            Some(Ok(_)) => {
                return Err(Fault::Sys(SysErrNo::EINVAL));
            },
            None => {},
        }
        match self.files.mem.get_symlink(p.as_str()) {
            Some(target) => {
                return Ok(target);
            },
            None => {},
        }
        if self.files.mem.node_exists(p.as_str()) {
            return Err(Fault::Sys(SysErrNo::EINVAL));
        }
        if self.is_tmpfs_path(p.as_str()) {
            return Err(self.missing_path_errno(dev, p.as_str()));
        }
        match self.ext4_kind(p.as_str()) {
            Err(f) => Err(f),
            Ok(None) => Err(self.missing_path_errno(dev, p.as_str())),
            Ok(Some(kind)) => if kind == Ext4NodeKind::Symlink {
                self.files.vol.names.readlink_ext4(p.as_str())
            } else {
                Err(Fault::Sys(SysErrNo::EINVAL))
            },
        }
    }

    /// The path of the volume that a path outside memory stands for.
    pub open spec fn volume_path<D: RawBlockDevice>(&self, dev: &D, path: Seq<char>, follow: bool) -> Result<
        Seq<char>,
        Fault,
    > {
        if self.in_tmpfs(path) {
            Err(self.missing_at(dev, path))
        } else {
            match self.kind_at(path) {
                Err(f) => Err(f),
                Ok(None) => Err(self.missing_at(dev, path)),
                Ok(Some(kind)) => if kind == Ext4NodeKind::Symlink && follow {
                    self.files.vol.names.resolved_links(path)
                } else {
                    Ok(normalized(path))
                },
            }
        }
    }

    fn find_volume_path<D: RawBlockDevice>(&self, dev: &D, path: &str, follow: bool) -> (r: Result<
        String,
        Fault,
    >)
        requires
            self.wf(),
        ensures
            match r {
                Ok(p) => self.volume_path(dev, path@, follow) == Ok::<Seq<char>, Fault>(p@),
                Err(f) => self.volume_path(dev, path@, follow) == Err::<Seq<char>, Fault>(f),
            },
    {
        if self.is_tmpfs_path(path) {
            return Err(self.missing_path_errno(dev, path));
        }
        match self.ext4_kind(path) {
            Err(f) => Err(f),
            Ok(None) => Err(self.missing_path_errno(dev, path)),
            Ok(Some(kind)) => if kind == Ext4NodeKind::Symlink && follow {
                self.files.vol.names.resolve_symlinks(path)
            } else {
                Ok(normalize_path(path))
            },
        }
    }

    /// What setting the length of a file does.
    pub open spec fn path_cut<D: RawBlockDevice>(
        &self,
        was: &Self,
        dev: &D,
        caller: &Caller,
        path: Seq<char>,
        size: u64,
        now: u32,
        r: Result<Cutting, Fault>,
    ) -> bool {
        &&& (({
                let m = was.files.mem@;
                let n = normalized(path);
                match was.fat_told(dev, path) {
                    Some(told) => r == Err::<Cutting, Fault>(
                        Fault::Sys(
                            match told {
                                Err(e) => e,
                                Ok(meta) => if meta.is_dir {
                                    SysErrNo::EISDIR
                                } else {
                                    SysErrNo::EROFS
                                },
                            },
                        ),
                    ) && *self == *was,
                    None => if m.has_dir(n) {
                        r == Err::<Cutting, Fault>(Fault::Sys(SysErrNo::EISDIR)) && *self
                            == *was
                    } else if m.file_index(n) is Some {
                        if size > MAX_FILE_OFFSET {
                            r == Err::<Cutting, Fault>(Fault::Sys(SysErrNo::EFBIG)) && *self == *was
                        } else {
                            &&& r == Ok::<Cutting, Fault>(Cutting::Done)
                            &&& self.mem_only(was)
                            &&& self.files.mem@ == m.truncate_file(
                                caller,
                                path,
                                size as nat,
                            ).0
                        }
                    } else if m.specials.contains_key(n) {
                        r == Err::<Cutting, Fault>(Fault::Sys(SysErrNo::EINVAL)) && *self
                            == *was
                    } else {
                        match was.volume_path(dev, path, true) {
                            Err(f) => r == Err::<Cutting, Fault>(f) && *self == *was,
                            Ok(p) => self.on_disk(was) && match r {
                                Err(f) => self.files.vol.path_truncated(
                                    &was.files.vol,
                                    p,
                                    size,
                                    now,
                                    Err(f),
                                ),
                                Ok(Cutting::Done) => false,
                                Ok(Cutting::Volume(ino, work)) =>
                                self.files.vol.path_truncated(
                                    &was.files.vol,
                                    p,
                                    size,
                                    now,
                                    Ok((ino, work)),
                                ),
                            },
                        }
                    },
                }
            }))
    }

    /// Sets the length of the file at a path.
    pub fn truncate_path<D: RawBlockDevice>(
        &mut self,
        dev: &D,
        caller: &Caller,
        path: &str,
        size: u64,
        now: u32,
    ) -> (r: Result<Cutting, Fault>)
        requires
            old(self).wf(),
        ensures
            final(self).wf(),
            final(self).path_cut(old(self), dev, caller, path@, size, now, r),
    {
        match self.vfat_metadata_for_path(dev, path) {
            Some(Err(e)) => {
                return Err(Fault::Sys(e));
            },
            Some(Ok(meta)) => {
                return Err(
                    Fault::Sys(
                        if meta.is_dir {
                            SysErrNo::EISDIR
                        } else {
                            SysErrNo::EROFS
                        },
                    ),
                );
            },
            None => {},
        }
        if self.files.mem.is_dir(path) {
            return Err(Fault::Sys(SysErrNo::EISDIR));
        }
        if self.files.mem.get_file(path).is_some() {
            if size > MAX_FILE_OFFSET as u64 {
                return Err(Fault::Sys(SysErrNo::EFBIG));
            }
            let _ = self.files.mem.truncate_file(caller, path, size as usize);
            return Ok(Cutting::Done);
        }
        if self.files.mem.get_special(path).is_some() {
            return Err(Fault::Sys(SysErrNo::EINVAL));
        }
        match self.find_volume_path(dev, path, true) {
            Err(f) => Err(f),
            Ok(p) => match self.files.vol.truncate_regular_ext4(p.as_str(), size, now) {
                Err(f) => Err(f),
                Ok((ino, work)) => Ok(Cutting::Volume(ino, work)),
            },
        }
    }

    /// Sets the length of an open file.
    pub fn truncate_fd(
        &mut self,
        file: &mut FileDescriptor,
        caller: &Caller,
        size: u64,
        now: u32,
    ) -> (r: Result<TruncateWork, Fault>)
        requires
            old(self).wf(),
            old(file).wf(&old(self).files.channels),
        ensures
            final(self).wf(),
            *final(self) == (Vfs { files: final(self).files, ..*old(self) }),
            size > usize::MAX ==> r == Err::<TruncateWork, Fault>(Fault::Sys(SysErrNo::EFBIG))
                && *final(self) == *old(self) && *final(file) == *old(file),
            size <= usize::MAX ==> final(file).truncate_done(
                old(file),
                &final(self).files,
                &old(self).files,
                caller,
                size as usize,
                SysErrNo::EBADF,
                now,
                r,
            ),
    {
        if size > usize::MAX as u64 {
            return Err(Fault::Sys(SysErrNo::EFBIG));
        }
        file.truncate(&mut self.files, caller, size as usize, now)
    }

    /// Whether a node of memory that is no link has a name.
    pub open spec fn mem_settable(&self, path: Seq<char>) -> bool {
        let m = self.files.mem@;
        let n = normalized(path);
        m.has_dir(n) || m.file_index(n) is Some || m.specials.contains_key(n)
    }

    fn mem_has_settable(&self, path: &str) -> (r: bool)
        requires
            self.wf(),
        ensures
            r == self.mem_settable(path@),
    {
        self.files.mem.is_dir(path) || self.files.mem.get_file(path).is_some()
            || self.files.mem.get_special(path).is_some()
    }

    /// Where what is recorded of a node would be changed: in memory, or at a
    /// path of the volume.
    pub open spec fn record_of<D: RawBlockDevice>(&self, dev: &D, path: Seq<char>, follow: bool) -> Result<
        Option<Seq<char>>,
        Fault,
    > {
        match self.fat_told(dev, path) {
            Some(Err(e)) => fails(e),
            Some(Ok(_)) => fails(SysErrNo::EROFS),
            None => if self.mem_settable(path) {
                Ok(None)
            } else {
                match self.volume_path(dev, path, follow) {
                    Err(f) => Err(f),
                    Ok(p) => Ok(Some(p)),
                }
            },
        }
    }

    fn find_record<D: RawBlockDevice>(&self, dev: &D, path: &str, follow: bool) -> (r: Result<
        Option<String>,
        Fault,
    >)
        requires
            self.wf(),
        ensures
            match r {
                Err(f) => self.record_of(dev, path@, follow) == Err::<Option<Seq<char>>, Fault>(f),
                Ok(None) => self.record_of(dev, path@, follow) == Ok::<Option<Seq<char>>, Fault>(
                    None,
                ),
                Ok(Some(p)) => self.record_of(dev, path@, follow) == Ok::<
                    Option<Seq<char>>,
                    Fault,
                >(Some(p@)),
            },
    {
        match self.vfat_metadata_for_path(dev, path) {
            Some(Err(e)) => {
                return Err(Fault::Sys(e));
            },
            Some(Ok(_)) => {
                return Err(Fault::Sys(SysErrNo::EROFS));
            },
            None => {},
        }
        if self.mem_has_settable(path) {
            return Ok(None);
        }
        match self.find_volume_path(dev, path, follow) {
            Err(f) => Err(f),
            Ok(p) => Ok(Some(p)),
        }
    }

    /// What setting the permissions of a node does.
    pub open spec fn mode_set<D: RawBlockDevice>(
        &self,
        was: &Self,
        dev: &D,
        caller: &Caller,
        path: Seq<char>,
        follow_symlink: bool,
        mode: u32,
        now: u32,
        r: Result<Recording, Fault>,
    ) -> bool {
        &&& (self.mem_only(was))
        &&& (match was.record_of(dev, path, follow_symlink) {
                Err(f) => r == Err::<Recording, Fault>(f) && *self == *was,
                Ok(None) => {
                    let (m, done) = was.files.mem@.set_mode(caller, path, mode);
                    self.files.mem@ == m && r == recorded_here(done)
                },
                Ok(Some(p)) => *self == *was && r == (match was.files.vol.inode_at(p) {
                    Err(f) => Err::<Recording, Fault>(f),
                    Ok((ino, inode)) => Ok(Recording::Inode(ino, inode.with_mode(mode, now))),
                }),
            })
    }

    /// Sets the mode of the node at a path.
    pub fn set_mode_path<D: RawBlockDevice>(
        &mut self,
        dev: &D,
        caller: &Caller,
        path: &str,
        follow_symlink: bool,
        mode: u32,
        now: u32,
    ) -> (r: Result<Recording, Fault>)
        requires
            old(self).wf(),
        ensures
            final(self).wf(),
            final(self).mode_set(old(self), dev, caller, path@, follow_symlink, mode, now, r),
    {
        match self.find_record(dev, path, follow_symlink) {
            Err(f) => Err(f),
            Ok(None) => as_recorded(self.files.mem.set_mode(caller, path, mode)),
            Ok(Some(p)) => as_written(self.files.vol.set_mode_path(p.as_str(), mode, now)),
        }
    }

    /// What setting the owner of a node does.
    pub open spec fn owner_set<D: RawBlockDevice>(
        &self,
        was: &Self,
        dev: &D,
        caller: &Caller,
        path: Seq<char>,
        follow_symlink: bool,
        uid: Option<u32>,
        gid: Option<u32>,
        now: u32,
        r: Result<Recording, Fault>,
    ) -> bool {
        &&& (self.mem_only(was))
        &&& (match was.record_of(dev, path, follow_symlink) {
                Err(f) => r == Err::<Recording, Fault>(f) && *self == *was,
                Ok(None) => {
                    let (m, done) = was.files.mem@.set_owner(caller, path, uid, gid);
                    self.files.mem@ == m && r == recorded_here(done)
                },
                Ok(Some(p)) => *self == *was && r == (match was.files.vol.inode_at(p) {
                    Err(f) => Err::<Recording, Fault>(f),
                    Ok((ino, inode)) => match inode.with_owner(uid, gid, now) {
                        Ok(changed) => Ok(Recording::Inode(ino, changed)),
                        Err(e) => Err(Fault::Sys(e)),
                    },
                }),
            })
    }

    /// Sets the owner of the node at a path.
    pub fn set_owner_path<D: RawBlockDevice>(
        &mut self,
        dev: &D,
        caller: &Caller,
        path: &str,
        follow_symlink: bool,
        uid: Option<u32>,
        gid: Option<u32>,
        now: u32,
    ) -> (r: Result<Recording, Fault>)
        requires
            old(self).wf(),
        ensures
            final(self).wf(),
            final(self).owner_set(old(self), dev, caller, path@, follow_symlink, uid, gid, now, r),
    {
        match self.find_record(dev, path, follow_symlink) {
            Err(f) => Err(f),
            Ok(None) => as_recorded(self.files.mem.set_owner(caller, path, uid, gid)),
            Ok(Some(p)) => as_written(self.files.vol.set_owner_path(p.as_str(), uid, gid, now)),
        }
    }

    /// What setting the times of a node does.
    pub open spec fn times_set<D: RawBlockDevice>(
        &self,
        was: &Self,
        dev: &D,
        caller: &Caller,
        path: Seq<char>,
        follow_symlink: bool,
        atime: Option<(isize, isize)>,
        mtime: Option<(isize, isize)>,
        now: u32,
        r: Result<Recording, Fault>,
    ) -> bool {
        &&& (self.mem_only(was))
        &&& (match was.record_of(dev, path, follow_symlink) {
                Err(f) => r == Err::<Recording, Fault>(f) && *self == *was,
                Ok(None) => {
                    let m = was.files.mem@;
                    &&& r == Ok::<Recording, Fault>(Recording::Done)
                    &&& self.files.mem@ == (if m.has_dir(normalized(path)) || m.file_index(
                        normalized(path),
                    ) is None {
                        m
                    } else {
                        m.set_file_times(caller, path, atime, mtime).0
                    })
                },
                Ok(Some(p)) => *self == *was && r == (match was.files.vol.inode_at(p) {
                    Err(f) => Err::<Recording, Fault>(f),
                    Ok((ino, inode)) => Ok(
                        Recording::Inode(ino, inode.with_times(atime, mtime, now)),
                    ),
                }),
            })
    }

    /// Sets the times of the node at a path. Directories and special nodes of
    /// memory have none.
    pub fn set_times_path<D: RawBlockDevice>(
        &mut self,
        dev: &D,
        caller: &Caller,
        path: &str,
        follow_symlink: bool,
        atime: Option<(isize, isize)>,
        mtime: Option<(isize, isize)>,
        now: u32,
    ) -> (r: Result<Recording, Fault>)
        requires
            old(self).wf(),
        ensures
            final(self).wf(),
            final(self).times_set(
                old(self),
                dev,
                caller,
                path@,
                follow_symlink,
                atime,
                mtime,
                now,
                r,
            ),
    {
        match self.find_record(dev, path, follow_symlink) {
            Err(f) => Err(f),
            Ok(None) => {
                if !self.files.mem.is_dir(path) && self.files.mem.get_file(path).is_some() {
                    let _ = self.files.mem.set_file_times(caller, path, atime, mtime);
                }
                Ok(Recording::Done)
            },
            Ok(Some(p)) => as_written(
                self.files.vol.set_times_path(p.as_str(), atime, mtime, now),
            ),
        }
    }

    /// An inode of the mounted volume.
    pub open spec fn volume_inode(&self, ino: u32) -> Result<DiskInode, Fault> {
        if !self.files.vol.names.mounted {
            fails(SysErrNo::ENOENT)
        } else if !self.files.vol.names.inodes@.contains_key(ino as u128) {
            Err(Fault::Need(Load::Inode(ino)))
        } else {
            Ok(self.files.vol.names.inodes@[ino as u128])
        }
    }

    fn find_volume_inode(&self, ino: u32) -> (r: Result<DiskInode, Fault>)
        requires
            self.wf(),
        ensures
            r == self.volume_inode(ino),
    {
        if !self.files.vol.names.mounted {
            return Err(Fault::Sys(SysErrNo::ENOENT));
        }
        self.files.vol.names.inode(ino)
    }

    /// Where what is recorded of an open file is kept: under a name of memory,
    /// or in an inode of the volume.
    pub open spec fn fd_record(file: &FileDescriptor) -> Option<Result<Seq<char>, u32>> {
        match *file {
            FileDescriptor::MemFile(h) => Some(Ok(h.name@)),
            FileDescriptor::MemDir { path, .. } => Some(Ok(path@)),
            FileDescriptor::Ext4Regular { ino, .. } => Some(Err(ino)),
            FileDescriptor::Ext4Dir { ino, .. } => Some(Err(ino)),
            _ => None,
        }
    }

    /// Whether the permissions of an open file were set.
    pub open spec fn fd_mode_set(
        &self,
        was: &Self,
        caller: &Caller,
        file: &FileDescriptor,
        mode: u32,
        now: u32,
        r: Result<Recording, Fault>,
    ) -> bool {
        &&& (self.mem_only(was))
        &&& (match Vfs::fd_record(file) {
                None => r == Err::<Recording, Fault>(Fault::Sys(SysErrNo::EINVAL)) && *self
                    == *was,
                Some(Ok(name)) => {
                    let (m, done) = was.files.mem@.set_mode(caller, name, mode);
                    self.files.mem@ == m && r == recorded_here(done)
                },
                Some(Err(ino)) => *self == *was && r == (match was.volume_inode(ino) {
                    Err(f) => Err::<Recording, Fault>(f),
                    Ok(inode) => Ok(Recording::Inode(ino, inode.with_mode(mode, now))),
                }),
            })
    }

    /// Sets the mode of an open file.
    pub fn set_mode_fd(&mut self, caller: &Caller, file: &FileDescriptor, mode: u32, now: u32) -> (r:
        Result<Recording, Fault>)
        requires
            old(self).wf(),
        ensures
            final(self).wf(),
            final(self).fd_mode_set(old(self), caller, file, mode, now, r),
    {
        let ino: u32 = match file {
            FileDescriptor::MemFile(h) => {
                return as_recorded(self.files.mem.set_mode(caller, h.name.as_str(), mode));
            },
            FileDescriptor::MemDir { path, .. } => {
                return as_recorded(self.files.mem.set_mode(caller, path.as_str(), mode));
            },
            FileDescriptor::Ext4Regular { ino, .. } => *ino,
            FileDescriptor::Ext4Dir { ino, .. } => *ino,
            _ => {
                return Err(Fault::Sys(SysErrNo::EINVAL));
            },
        };
        match self.find_volume_inode(ino) {
            Err(f) => Err(f),
            Ok(inode) => {
                let mut inode = inode;
                inode.set_mode_ino(mode, now);
                Ok(Recording::Inode(ino, inode))
            },
        }
    }

    /// Whether the owner of an open file was set.
    pub open spec fn fd_owner_set(
        &self,
        was: &Self,
        caller: &Caller,
        file: &FileDescriptor,
        uid: Option<u32>,
        gid: Option<u32>,
        now: u32,
        r: Result<Recording, Fault>,
    ) -> bool {
        &&& (self.mem_only(was))
        &&& (match Vfs::fd_record(file) {
                None => r == Err::<Recording, Fault>(Fault::Sys(SysErrNo::EINVAL)) && *self
                    == *was,
                Some(Ok(name)) => {
                    let (m, done) = was.files.mem@.set_owner(caller, name, uid, gid);
                    self.files.mem@ == m && r == recorded_here(done)
                },
                Some(Err(ino)) => *self == *was && r == (match was.volume_inode(ino) {
                    Err(f) => Err::<Recording, Fault>(f),
                    Ok(inode) => match inode.with_owner(uid, gid, now) {
                        Ok(changed) => Ok(Recording::Inode(ino, changed)),
                        Err(e) => Err(Fault::Sys(e)),
                    },
                }),
            })
    }

    /// Sets the owner of an open file.
    pub fn set_owner_fd(
        &mut self,
        caller: &Caller,
        file: &FileDescriptor,
        uid: Option<u32>,
        gid: Option<u32>,
        now: u32,
    ) -> (r: Result<Recording, Fault>)
        requires
            old(self).wf(),
        ensures
            final(self).wf(),
            final(self).fd_owner_set(old(self), caller, file, uid, gid, now, r),
    {
        let ino: u32 = match file {
            FileDescriptor::MemFile(h) => {
                return as_recorded(self.files.mem.set_owner(caller, h.name.as_str(), uid, gid));
            },
            FileDescriptor::MemDir { path, .. } => {
                return as_recorded(self.files.mem.set_owner(caller, path.as_str(), uid, gid));
            },
            FileDescriptor::Ext4Regular { ino, .. } => *ino,
            FileDescriptor::Ext4Dir { ino, .. } => *ino,
            _ => {
                return Err(Fault::Sys(SysErrNo::EINVAL));
            },
        };
        match self.find_volume_inode(ino) {
            Err(f) => Err(f),
            Ok(inode) => {
                let mut inode = inode;
                match inode.set_owner_ino(uid, gid, now) {
                    Err(e) => Err(Fault::Sys(e)),
                    Ok(_) => Ok(Recording::Inode(ino, inode)),
                }
            },
        }
    }

    /// Whether the times of an open file were set.
    pub open spec fn fd_times_set(
        &self,
        was: &Self,
        caller: &Caller,
        file: &FileDescriptor,
        file_was: &FileDescriptor,
        atime: Option<(isize, isize)>,
        mtime: Option<(isize, isize)>,
        now: u32,
        r: Result<Recording, Fault>,
    ) -> bool {
        &&& (self.mem_only(was))
        &&& (match *file_was {
                FileDescriptor::MemFile(h) => {
                    &&& r == Ok::<Recording, Fault>(Recording::Done)
                    &&& self.files.mem@ == was.files.mem@.set_file_times(
                        caller,
                        h.name@,
                        atime,
                        mtime,
                    ).0
                    &&& *file == FileDescriptor::MemFile(
                        MemHandle {
                            times: h.times.with_access_modify(atime, mtime, caller.now),
                            ..h
                        },
                    )
                },
                FileDescriptor::MemDir { .. } => r == Ok::<Recording, Fault>(Recording::Done)
                    && *self == *was && *file == *file_was,
                _ => *self == *was && *file == *file_was && r == (
                match Vfs::fd_record(file_was) {
                    Some(Err(ino)) => match was.volume_inode(ino) {
                        Err(f) => Err::<Recording, Fault>(f),
                        Ok(inode) => Ok(
                            Recording::Inode(ino, inode.with_times(atime, mtime, now)),
                        ),
                    },
                    _ => Err(Fault::Sys(SysErrNo::EINVAL)),
                }),
            })
    }

    /// Sets the times of an open file. A file of memory keeps them itself too,
    /// whether or not its name is still there.
    pub fn set_times_fd(
        &mut self,
        caller: &Caller,
        file: &mut FileDescriptor,
        atime: Option<(isize, isize)>,
        mtime: Option<(isize, isize)>,
        now: u32,
    ) -> (r: Result<Recording, Fault>)
        requires
            old(self).wf(),
        ensures
            final(self).wf(),
            final(self).fd_times_set(
                old(self),
                caller,
                final(file),
                old(file),
                atime,
                mtime,
                now,
                r,
            ),
    {
        let ino: u32 = match file {
            FileDescriptor::MemFile(h) => {
                let _ = self.files.mem.set_file_times(caller, h.name.as_str(), atime, mtime);
                h.times.set_access_modify(atime, mtime, caller.now);
                return Ok(Recording::Done);
            },
            FileDescriptor::MemDir { .. } => {
                return Ok(Recording::Done);
            },
            FileDescriptor::Ext4Regular { ino, .. } => *ino,
            FileDescriptor::Ext4Dir { ino, .. } => *ino,
            _ => {
                return Err(Fault::Sys(SysErrNo::EINVAL));
            },
        };
        match self.find_volume_inode(ino) {
            Err(f) => Err(f),
            Ok(inode) => {
                let mut inode = inode;
                inode.set_times_ino(atime, mtime, now);
                Ok(Recording::Inode(ino, inode))
            },
        }
    }
}

} // verus!
