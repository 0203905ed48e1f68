//! Taking names away, giving nodes other names and second names.
use vstd::prelude::*;

use crate::errno::SysErrNo;
use crate::fs::block_dev::device::RawBlockDevice;
use crate::fs::ext4::plans::{
    Movement, NewLink, PlaceModel, Removal, RemovalModel, RenameModel, RenameStep,
};
use crate::fs::ext4::sync::Unlinking;
use crate::fs::ext4::types::Ext4NodeKind;
use crate::fs::ext4::volume::Fault;
use crate::fs::fd::descriptor::Files;
use crate::fs::path::{
    at_or_below, is_at_or_below, is_memfs_volatile_dir, local_device_path, local_part,
    normalize_path, normalized, volatile_dir,
};
use crate::fs::vfs::tree::{holder, holder_path, Vfs};
use crate::text::str_eq;

verus! {

/// Where an operation takes place.
#[derive(Clone, Copy, PartialEq, Eq, Structural, Debug)]
pub enum Side {
    Memory,
    Volume,
}

/// What is left to do to take a file away.
pub enum FileRemoval {
    Done,
    Volume(Unlinking),
}

/// What is left to do to take a directory away.
pub enum DirRemoval {
    Done,
    Volume(Removal),
}

/// What is left to do to give a node another name.
pub enum Renaming {
    Done,
    Volume(RenameStep),
}

/// What is left to do to give a node a second name.
pub enum Linking {
    Done,
    Volume(NewLink),
}

/// An error that ends an operation.
pub open spec fn fails<T>(e: SysErrNo) -> Result<T, Fault> {
    Err(Fault::Sys(e))
}

impl Vfs {
    /// Only memory and the names taken away are changed.
    pub open spec fn in_memory(&self, was: &Vfs) -> bool {
        *self == (Vfs {
            files: Files { mem: self.files.mem, ..was.files },
            whiteouts: self.whiteouts,
            ..*was
        })
    }

    /// Only the volume is changed.
    pub open spec fn on_disk(&self, was: &Vfs) -> bool {
        *self == (Vfs { files: Files { vol: self.files.vol, ..was.files }, ..*was })
    }

    /// Where a file would be taken away, or why it cannot be.
    pub open spec fn file_removal<D: RawBlockDevice>(&self, dev: &D, path: Seq<char>) -> Result<
        Side,
        Fault,
    > {
        let n = normalized(path);
        if self.removed(path) {
            fails(SysErrNo::ENOENT)
        } else if n == seq!['/'] {
            fails(SysErrNo::EISDIR)
        } else {
            match self.fat_told(dev, path) {
                Some(Err(e)) => fails(e),
                Some(Ok(meta)) => fails(
                    if meta.is_dir {
                        SysErrNo::EISDIR
                    } else {
                        SysErrNo::EROFS
                    },
                ),
                None => if self.files.mem@.has_dir(n) {
                    fails(SysErrNo::EISDIR)
                } else if self.mem_other_at(path) {
                    Ok(Side::Memory)
                } else if self.in_tmpfs(path) {
                    Err(self.missing_at(dev, path))
                } else {
                    match self.kind_at(path) {
                        Err(f) => Err(f),
                        Ok(None) => Err(self.missing_at(dev, path)),
                        Ok(Some(kind)) => if kind == Ext4NodeKind::Directory {
                            fails(SysErrNo::EISDIR)
                        } else {
                            Ok(Side::Volume)
                        },
                    }
                },
            }
        }
    }

    fn find_file_removal<D: RawBlockDevice>(&self, dev: &D, path: &str) -> (r: Result<Side, Fault>)
        requires
            self.wf(),
        ensures
            r == self.file_removal(dev, path@),
    {
        if self.is_removed(path) {
            return Err(Fault::Sys(SysErrNo::ENOENT));
        }
        proof {
            reveal_strlit("/");
            assert("/"@ =~= seq!['/']);
        }
        let norm = normalize_path(path);
        if str_eq(norm.as_str(), "/") {
            return Err(Fault::Sys(SysErrNo::EISDIR));
        }
        match self.vfat_metadata_for_path(dev, path) {
            Some(Err(e)) => {
                return Err(Fault::Sys(e));
            },
            Some(Ok(meta)) => {
                return Err(
                    Fault::Sys(
                        if meta.is_dir {
                            SysErrNo::EISDIR
                        } else {
                            SysErrNo::EROFS
                        },
                    ),
                );
            },
            None => {},
        }
        if self.files.mem.is_dir(path) {
            return Err(Fault::Sys(SysErrNo::EISDIR));
        }
        if self.mem_has_other(path) {
            return Ok(Side::Memory);
        }
        if self.is_tmpfs_path(path) {
            return Err(self.missing_path_errno(dev, path));
        }
        match self.ext4_kind(path) {
            Err(f) => Err(f),
            Ok(None) => Err(self.missing_path_errno(dev, path)),
            Ok(Some(kind)) => if kind == Ext4NodeKind::Directory {
                Err(Fault::Sys(SysErrNo::EISDIR))
            } else {
                Ok(Side::Volume)
            },
        }
    }

    /// What taking a file, link or special node away does.
    pub open spec fn file_removed<D: RawBlockDevice>(
        &self,
        was: &Self,
        dev: &D,
        path: Seq<char>,
        r: Result<FileRemoval, Fault>,
    ) -> bool {
        &&& (match was.file_removal(dev, path) {
                Err(f) => r == Err::<FileRemoval, Fault>(f) && *self == *was,
                Ok(Side::Memory) => {
                    &&& r == Ok::<FileRemoval, Fault>(FileRemoval::Done)
                    &&& self.in_memory(was)
                    &&& self.files.mem@ == was.files.mem@.remove_file(path).0
                    &&& self.whiteouts@ == was.whiteouts@.insert(normalized(path), ())
                },
                Ok(Side::Volume) => {
                    &&& self.on_disk(was)
                    &&& match r {
                        Err(f) => self.files.vol.unlink_done(
                            &was.files.vol,
                            path,
                            Err(f),
                        ),
                        Ok(FileRemoval::Done) => false,
                        Ok(FileRemoval::Volume(u)) => self.files.vol.unlink_done(
                            &was.files.vol,
                            path,
                            Ok(u),
                        ),
                    }
                },
            })
    }

    /// Takes a file, link or special node away. A name of memory is then
    /// hidden on the volume too.
    pub fn remove_file<D: RawBlockDevice>(&mut self, dev: &D, path: &str) -> (r: Result<
        FileRemoval,
        Fault,
    >)
        requires
            old(self).wf(),
        ensures
            final(self).wf(),
            final(self).file_removed(old(self), dev, path@, r),
    {
        match self.find_file_removal(dev, path) {
            Err(f) => Err(f),
            Ok(Side::Memory) => {
                let _ = self.files.mem.remove_file(path);
                self.mark_whiteout(path);
                Ok(FileRemoval::Done)
            },
            Ok(Side::Volume) => match self.files.vol.unlink_non_dir(path) {
                Err(f) => Err(f),
                Ok(u) => Ok(FileRemoval::Volume(u)),
            },
        }
    }

    /// Where a directory would be taken away, or why it cannot be.
    pub open spec fn dir_removal<D: RawBlockDevice>(&self, dev: &D, path: Seq<char>) -> Result<
        Side,
        Fault,
    > {
        let n = normalized(path);
        if self.removed(path) {
            fails(SysErrNo::ENOENT)
        } else if n == seq!['/'] {
            fails(SysErrNo::EBUSY)
        } else {
            match self.fat_told(dev, path) {
                Some(Err(e)) => fails(e),
                Some(Ok(meta)) => fails(
                    if meta.is_dir {
                        SysErrNo::EROFS
                    } else {
                        SysErrNo::ENOTDIR
                    },
                ),
                None => if self.mem_other_at(path) {
                    fails(SysErrNo::ENOTDIR)
                } else if self.files.mem@.has_dir(n) {
                    Ok(Side::Memory)
                } else if self.in_tmpfs(path) {
                    Err(self.missing_at(dev, path))
                } else {
                    match self.kind_at(path) {
                        Err(f) => Err(f),
                        Ok(None) => Err(self.missing_at(dev, path)),
                        Ok(Some(kind)) => if kind != Ext4NodeKind::Directory {
                            fails(SysErrNo::ENOTDIR)
                        } else {
                            match self.listed(dev, path) {
                                Err(f) => Err(f),
                                Ok(entries) => if entries.len() > 0 {
                                    fails(SysErrNo::ENOTEMPTY)
                                } else {
                                    Ok(Side::Volume)
                                },
                            }
                        },
                    }
                },
            }
        }
    }

    fn find_dir_removal<D: RawBlockDevice>(&self, dev: &D, path: &str) -> (r: Result<Side, Fault>)
        requires
            self.wf(),
        ensures
            r == self.dir_removal(dev, path@),
    {
        if self.is_removed(path) {
            return Err(Fault::Sys(SysErrNo::ENOENT));
        }
        proof {
            reveal_strlit("/");
            assert("/"@ =~= seq!['/']);
        }
        let norm = normalize_path(path);
        if str_eq(norm.as_str(), "/") {
            return Err(Fault::Sys(SysErrNo::EBUSY));
        }
        match self.vfat_metadata_for_path(dev, path) {
            Some(Err(e)) => {
                return Err(Fault::Sys(e));
            },
            Some(Ok(meta)) => {
                return Err(
                    Fault::Sys(
                        if meta.is_dir {
                            SysErrNo::EROFS
                        } else {
                            SysErrNo::ENOTDIR
                        },
                    ),
                );
            },
            None => {},
        }
        if self.mem_has_other(path) {
            return Err(Fault::Sys(SysErrNo::ENOTDIR));
        }
        if self.files.mem.is_dir(path) {
            return Ok(Side::Memory);
        }
        if self.is_tmpfs_path(path) {
            return Err(self.missing_path_errno(dev, path));
        }
        match self.ext4_kind(path) {
            Err(f) => Err(f),
            Ok(None) => Err(self.missing_path_errno(dev, path)),
            Ok(Some(kind)) => if kind != Ext4NodeKind::Directory {
                Err(Fault::Sys(SysErrNo::ENOTDIR))
            } else {
                match self.list_dir(dev, path) {
                    Err(f) => Err(f),
                    Ok(entries) => {
                        proof {
                            let views = crate::fs::dirent::entry_views(entries@);
                            assert(views.len() == entries@.len());
                        }
                        if entries.len() > 0 {
                            Err(Fault::Sys(SysErrNo::ENOTEMPTY))
                        } else {
                            Ok(Side::Volume)
                        }
                    },
                }
            },
        }
    }

    /// What taking a directory away does.
    pub open spec fn dir_gone<D: RawBlockDevice>(
        &self,
        was: &Self,
        dev: &D,
        path: Seq<char>,
        r: Result<DirRemoval, Fault>,
    ) -> bool {
        &&& (match was.dir_removal(dev, path) {
                Err(f) => r == Err::<DirRemoval, Fault>(f) && *self == *was,
                Ok(Side::Memory) => {
                    let (m, done) = was.files.mem@.remove_dir(path);
                    &&& self.in_memory(was)
                    &&& self.files.mem@ == m
                    &&& match done {
                        Err(e) => r == Err::<DirRemoval, Fault>(Fault::Sys(e))
                            && self.whiteouts == was.whiteouts,
                        Ok(_) => r == Ok::<DirRemoval, Fault>(DirRemoval::Done)
                            && self.whiteouts@ == was.whiteouts@.insert(
                            normalized(path),
                            (),
                        ),
                    }
                },
                Ok(Side::Volume) => {
                    &&& *self == *was
                    &&& match r {
                        Err(f) => was.files.vol.names.remove_dir_spec(path) == Err::<
                            RemovalModel,
                            Fault,
                        >(f),
                        Ok(DirRemoval::Done) => false,
                        Ok(DirRemoval::Volume(removal)) =>
                        was.files.vol.names.remove_dir_spec(path) == Ok::<
                            RemovalModel,
                            Fault,
                        >(removal@),
                    }
                },
            })
    }

    /// Takes an empty directory away. A name of memory is then hidden on the
    /// volume too.
    pub fn remove_dir<D: RawBlockDevice>(&mut self, dev: &D, path: &str) -> (r: Result<
        DirRemoval,
        Fault,
    >)
        requires
            old(self).wf(),
        ensures
            final(self).wf(),
            final(self).dir_gone(old(self), dev, path@, r),
    {
        match self.find_dir_removal(dev, path) {
            Err(f) => Err(f),
            Ok(Side::Memory) => match self.files.mem.remove_dir(path) {
                Err(e) => Err(Fault::Sys(e)),
                Ok(_) => {
                    self.mark_whiteout(path);
                    Ok(DirRemoval::Done)
                },
            },
            Ok(Side::Volume) => match self.files.vol.names.remove_empty_dir_ext4(path) {
                Err(f) => Err(f),
                Ok(removal) => Ok(DirRemoval::Volume(removal)),
            },
        }
    }

    /// Why nothing can be put into a directory of a FAT volume, if one serves
    /// it.
    pub open spec fn fat_refusal<D: RawBlockDevice>(&self, dev: &D, parent: Seq<char>) -> Option<
        SysErrNo,
    > {
        match self.fat_told(dev, parent) {
            None => None,
            Some(Err(e)) => Some(e),
            Some(Ok(meta)) => Some(
                if meta.is_dir {
                    SysErrNo::EROFS
                } else {
                    SysErrNo::ENOTDIR
                },
            ),
        }
    }

    /// Why nothing can be put into a directory of a FAT volume, if one serves
    /// it.
    pub fn vfat_refusal<D: RawBlockDevice>(&self, dev: &D, parent: &str) -> (r: Option<SysErrNo>)
        requires
            self.wf(),
        ensures
            r == self.fat_refusal(dev, parent@),
    {
        match self.vfat_metadata_for_path(dev, parent) {
            None => None,
            Some(Err(e)) => Some(e),
            Some(Ok(meta)) => Some(
                if meta.is_dir {
                    SysErrNo::EROFS
                } else {
                    SysErrNo::ENOTDIR
                },
            ),
        }
    }

    /// What a node of memory that gets another name finds there.
    pub open spec fn mem_renaming<D: RawBlockDevice>(&self, dev: &D, to: Seq<char>, no_replace: bool) -> Result<
        Side,
        Fault,
    > {
        let tmpfs = self.in_tmpfs(to);
        let below = if no_replace || tmpfs {
            Ok(false)
        } else {
            match self.kind_at(to) {
                Err(f) => Err(f),
                Ok(kind) => Ok(kind is Some && kind->0 != Ext4NodeKind::Other),
            }
        };
        match below {
            Err(f) => Err(f),
            Ok(true) => fails(SysErrNo::EEXIST),
            Ok(false) => if self.files.mem@.has_dir(normalized(holder(to))) {
                Ok(Side::Memory)
            } else if tmpfs {
                Err(self.missing_at(dev, to))
            } else {
                match self.ext4_dir_at(holder(to)) {
                    Err(f) => Err(f),
                    Ok(true) => fails(SysErrNo::EXDEV),
                    Ok(false) => Err(self.missing_at(dev, to)),
                }
            },
        }
    }

    /// What a node of the volume that gets another name finds there.
    pub open spec fn ext4_renaming<D: RawBlockDevice>(&self, dev: &D, to: Seq<char>, no_replace: bool) -> Result<
        Side,
        Fault,
    > {
        if self.files.mem@.has_node(normalized(to)) {
            fails(
                if no_replace {
                    SysErrNo::EEXIST
                } else {
                    SysErrNo::EXDEV
                },
            )
        } else {
            match self.non_dir_at(dev, holder(to)) {
                Err(f) => Err(f),
                Ok(true) => fails(SysErrNo::ENOTDIR),
                Ok(false) => if !self.files.mem@.has_dir(normalized(holder(to))) {
                    Ok(Side::Volume)
                } else {
                    match self.ext4_dir_at(holder(to)) {
                        Err(f) => Err(f),
                        Ok(true) => Ok(Side::Volume),
                        Ok(false) => fails(SysErrNo::EXDEV),
                    }
                },
            }
        }
    }

    /// Where a node would get another name, or why it cannot.
    pub open spec fn renaming<D: RawBlockDevice>(
        &self,
        dev: &D,
        from: Seq<char>,
        to: Seq<char>,
        no_replace: bool,
    ) -> Result<Side, Fault> {
        if self.removed(from) {
            fails(SysErrNo::ENOENT)
        } else {
            match (self.fat_told(dev, from), self.fat_refusal(dev, holder(to))) {
                (Some(Err(e)), _) => fails(e),
                (Some(Ok(_)), _) => fails(SysErrNo::EROFS),
                (None, Some(e)) => fails(e),
                (None, None) => {
                    let taken = if no_replace {
                        self.occupied(dev, to)
                    } else {
                        Ok(false)
                    };
                    match taken {
                        Err(f) => Err(f),
                        Ok(true) => fails(SysErrNo::EEXIST),
                        Ok(false) => if self.in_tmpfs(from) != self.in_tmpfs(to) {
                            fails(SysErrNo::EXDEV)
                        } else if self.files.mem@.has_node(normalized(from)) {
                            self.mem_renaming(dev, to, no_replace)
                        } else if self.in_tmpfs(from) {
                            Err(self.missing_at(dev, from))
                        } else {
                            match self.kind_at(from) {
                                Err(f) => Err(f),
                                Ok(None) => Err(self.missing_at(dev, from)),
                                Ok(Some(_)) => self.ext4_renaming(dev, to, no_replace),
                            }
                        },
                    }
                },
            }
        }
    }

    fn find_mem_renaming<D: RawBlockDevice>(&self, dev: &D, to: &str, no_replace: bool) -> (r: Result<
        Side,
        Fault,
    >)
        requires
            self.wf(),
        ensures
            r == self.mem_renaming(dev, to@, no_replace),
    {
        let tmpfs = self.is_tmpfs_path(to);
        if !no_replace && !tmpfs {
            match self.ext4_kind(to) {
                Err(f) => {
                    return Err(f);
                },
                Ok(Some(kind)) => {
                    if kind != Ext4NodeKind::Other {
                        return Err(Fault::Sys(SysErrNo::EEXIST));
                    }
                },
                Ok(None) => {},
            }
        }
        let parent = holder_path(to);
        if self.files.mem.is_dir(parent.as_str()) {
            return Ok(Side::Memory);
        }
        if !tmpfs {
            match self.ext4_has_dir(parent.as_str()) {
                Err(f) => {
                    return Err(f);
                },
                Ok(true) => {
                    return Err(Fault::Sys(SysErrNo::EXDEV));
                },
                Ok(false) => {},
            }
        }
        Err(self.missing_path_errno(dev, to))
    }

    fn find_ext4_renaming<D: RawBlockDevice>(&self, dev: &D, to: &str, no_replace: bool) -> (r:
        Result<Side, Fault>)
        requires
            self.wf(),
        ensures
            r == self.ext4_renaming(dev, to@, no_replace),
    {
        if self.files.mem.node_exists(to) {
            return Err(
                Fault::Sys(
                    if no_replace {
                        SysErrNo::EEXIST
                    } else {
                        SysErrNo::EXDEV
                    },
                ),
            );
        }
        let parent = holder_path(to);
        match self.path_exists_non_dir(dev, parent.as_str()) {
            Err(f) => {
                return Err(f);
            },
            Ok(true) => {
                return Err(Fault::Sys(SysErrNo::ENOTDIR));
            },
            Ok(false) => {},
        }
        if self.files.mem.is_dir(parent.as_str()) {
            match self.ext4_has_dir(parent.as_str()) {
                Err(f) => {
                    return Err(f);
                },
                Ok(true) => {},
                Ok(false) => {
                    return Err(Fault::Sys(SysErrNo::EXDEV));
                },
            }
        }
        Ok(Side::Volume)
    }

    fn find_renaming<D: RawBlockDevice>(&self, dev: &D, from: &str, to: &str, no_replace: bool) -> (r:
        Result<Side, Fault>)
        requires
            self.wf(),
        ensures
            r == self.renaming(dev, from@, to@, no_replace),
    {
        if self.is_removed(from) {
            return Err(Fault::Sys(SysErrNo::ENOENT));
        }
        match self.vfat_metadata_for_path(dev, from) {
            Some(Err(e)) => {
                return Err(Fault::Sys(e));
            },
            Some(Ok(_)) => {
                return Err(Fault::Sys(SysErrNo::EROFS));
            },
            None => {},
        }
        let parent = holder_path(to);
        match self.vfat_refusal(dev, parent.as_str()) {
            Some(e) => {
                return Err(Fault::Sys(e));
            },
            None => {},
        }
        if no_replace {
            match self.is_occupied(dev, to) {
                Err(f) => {
                    return Err(f);
                },
                Ok(true) => {
                    return Err(Fault::Sys(SysErrNo::EEXIST));
                },
                Ok(false) => {},
            }
        }
        let old_tmpfs = self.is_tmpfs_path(from);
        let new_tmpfs = self.is_tmpfs_path(to);
        if old_tmpfs != new_tmpfs {
            return Err(Fault::Sys(SysErrNo::EXDEV));
        }
        if self.files.mem.node_exists(from) {
            return self.find_mem_renaming(dev, to, no_replace);
        }
        if old_tmpfs {
            return Err(self.missing_path_errno(dev, from));
        }
        match self.ext4_kind(from) {
            Err(f) => Err(f),
            Ok(None) => Err(self.missing_path_errno(dev, from)),
            Ok(Some(_)) => self.find_ext4_renaming(dev, to, no_replace),
        }
    }

    /// What giving a node another name does.
    pub open spec fn path_renamed<D: RawBlockDevice>(
        &self,
        was: &Self,
        dev: &D,
        old_path: Seq<char>,
        new_path: Seq<char>,
        no_replace: bool,
        r: Result<Renaming, Fault>,
    ) -> bool {
        &&& (match was.renaming(dev, old_path, new_path, no_replace) {
                Err(f) => r == Err::<Renaming, Fault>(f) && *self == *was,
                Ok(Side::Memory) => {
                    let (m, done) = was.files.mem@.rename(old_path, new_path);
                    &&& self.in_memory(was)
                    &&& self.files.mem@ == m
                    &&& match done {
                        Err(e) => r == Err::<Renaming, Fault>(Fault::Sys(e))
                            && self.whiteouts == was.whiteouts,
                        Ok(_) => r == Ok::<Renaming, Fault>(Renaming::Done)
                            && self.whiteouts@ == was.whiteouts@.remove(
                            normalized(new_path),
                        ).insert(normalized(old_path), ()),
                    }
                },
                Ok(Side::Volume) => {
                    &&& *self == *was
                    &&& match r {
                        Err(f) => was.files.vol.names.rename_spec(
                            old_path,
                            new_path,
                            no_replace,
                        ) == Err::<RenameModel, Fault>(f),
                        Ok(Renaming::Done) => false,
                        Ok(Renaming::Volume(step)) => was.files.vol.names.rename_spec(
                            old_path,
                            new_path,
                            no_replace,
                        ) == Ok::<RenameModel, Fault>(step@),
                    }
                },
            })
    }

    /// Gives a node another name. A step on the volume is for the caller to do:
    /// behind a movement comes `renamed_on_volume`, behind any other step the
    /// same call again.
    pub fn rename_path<D: RawBlockDevice>(
        &mut self,
        dev: &D,
        old_path: &str,
        new_path: &str,
        no_replace: bool,
    ) -> (r: Result<Renaming, Fault>)
        requires
            old(self).wf(),
        ensures
            final(self).wf(),
            final(self).path_renamed(old(self), dev, old_path@, new_path@, no_replace, r),
    {
        match self.find_renaming(dev, old_path, new_path, no_replace) {
            Err(f) => Err(f),
            Ok(Side::Memory) => match self.files.mem.rename_path(old_path, new_path) {
                Err(e) => Err(Fault::Sys(e)),
                Ok(_) => {
                    self.clear_whiteout(new_path);
                    self.mark_whiteout(old_path);
                    Ok(Renaming::Done)
                },
            },
            Ok(Side::Volume) => match self.files.vol.names.rename_ext4(
                old_path,
                new_path,
                no_replace,
            ) {
                Err(f) => Err(f),
                Ok(step) => Ok(Renaming::Volume(step)),
            },
        }
    }

    /// Whether a path lies in the tree that tells of tasks.
    pub open spec fn in_procfs(path: Seq<char>) -> bool {
        at_or_below(local_part(normalized(path)), "/proc"@)
    }

    fn procfs_link_source(path: &str) -> (r: bool)
        ensures
            r == Vfs::in_procfs(path@),
    {
        let norm = normalize_path(path);
        let local = local_device_path(norm.as_str());
        is_at_or_below(local.as_str(), "/proc")
    }

    /// What a node of memory finds where it would get a second name.
    pub open spec fn mem_linking<D: RawBlockDevice>(
        &self,
        dev: &D,
        from: Seq<char>,
        to: Seq<char>,
    ) -> Result<Side, Fault> {
        if Vfs::in_procfs(from) {
            fails(SysErrNo::EXDEV)
        } else {
            let below = if self.in_tmpfs(to) {
                Ok(false)
            } else {
                self.ext4_dir_at(holder(to))
            };
            match below {
                Err(f) => Err(f),
                Ok(below) => if self.files.mem@.has_dir(normalized(holder(to))) {
                    if below && !volatile_dir(holder(to)) {
                        fails(SysErrNo::EXDEV)
                    } else {
                        Ok(Side::Memory)
                    }
                } else if below {
                    fails(SysErrNo::EXDEV)
                } else {
                    match self.non_dir_at(dev, holder(to)) {
                        Err(f) => Err(f),
                        Ok(true) => fails(SysErrNo::ENOTDIR),
                        Ok(false) => fails(SysErrNo::ENOENT),
                    }
                },
            }
        }
    }

    /// What a node of the volume finds where it would get a second name.
    pub open spec fn ext4_linking<D: RawBlockDevice>(
        &self,
        dev: &D,
        from: Seq<char>,
        to: Seq<char>,
    ) -> Result<Side, Fault> {
        match self.kind_at(from) {
            Err(f) => Err(f),
            Ok(None) => match self.non_dir_at(dev, holder(from)) {
                Err(f) => Err(f),
                Ok(true) => fails(SysErrNo::ENOTDIR),
                Ok(false) => fails(SysErrNo::ENOENT),
            },
            Ok(Some(_)) => match self.ext4_dir_at(holder(to)) {
                Err(f) => Err(f),
                Ok(below) => if self.files.mem@.has_dir(normalized(holder(to))) && !below {
                    fails(SysErrNo::EXDEV)
                } else {
                    match self.non_dir_at(dev, holder(to)) {
                        Err(f) => Err(f),
                        Ok(true) => fails(SysErrNo::ENOTDIR),
                        Ok(false) => if below {
                            Ok(Side::Volume)
                        } else {
                            fails(SysErrNo::ENOENT)
                        },
                    }
                },
            },
        }
    }

    /// Where a node would get a second name, or why it cannot.
    pub open spec fn linking<D: RawBlockDevice>(&self, dev: &D, from: Seq<char>, to: Seq<char>) -> Result<
        Side,
        Fault,
    > {
        if self.removed(from) {
            fails(SysErrNo::ENOENT)
        } else {
            match (self.fat_told(dev, from), self.fat_refusal(dev, holder(to))) {
                (Some(Err(e)), _) => fails(e),
                (Some(Ok(_)), _) => fails(SysErrNo::EXDEV),
                (None, Some(e)) => fails(e),
                (None, None) => match self.occupied(dev, to) {
                    Err(f) => Err(f),
                    Ok(true) => fails(SysErrNo::EEXIST),
                    Ok(false) => if self.in_tmpfs(from) != self.in_tmpfs(to) {
                        fails(SysErrNo::EXDEV)
                    } else if self.files.mem@.has_node(normalized(from)) {
                        self.mem_linking(dev, from, to)
                    } else if self.in_tmpfs(from) {
                        fails(SysErrNo::ENOENT)
                    } else {
                        self.ext4_linking(dev, from, to)
                    },
                },
            }
        }
    }

    fn find_mem_linking<D: RawBlockDevice>(&self, dev: &D, from: &str, to: &str) -> (r: Result<
        Side,
        Fault,
    >)
        requires
            self.wf(),
        ensures
            r == self.mem_linking(dev, from@, to@),
    {
        if Vfs::procfs_link_source(from) {
            return Err(Fault::Sys(SysErrNo::EXDEV));
        }
        let parent = holder_path(to);
        let below = if self.is_tmpfs_path(to) {
            false
        } else {
            match self.ext4_has_dir(parent.as_str()) {
                Err(f) => {
                    return Err(f);
                },
                Ok(b) => b,
            }
        };
        if !self.files.mem.is_dir(parent.as_str()) {
            if below {
                return Err(Fault::Sys(SysErrNo::EXDEV));
            }
            return match self.path_exists_non_dir(dev, parent.as_str()) {
                Err(f) => Err(f),
                Ok(true) => Err(Fault::Sys(SysErrNo::ENOTDIR)),
                Ok(false) => Err(Fault::Sys(SysErrNo::ENOENT)),
            };
        }
        if below && !is_memfs_volatile_dir(parent.as_str()) {
            return Err(Fault::Sys(SysErrNo::EXDEV));
        }
        Ok(Side::Memory)
    }

    fn find_ext4_linking<D: RawBlockDevice>(&self, dev: &D, from: &str, to: &str) -> (r: Result<
        Side,
        Fault,
    >)
        requires
            self.wf(),
        ensures
            r == self.ext4_linking(dev, from@, to@),
    {
        match self.ext4_kind(from) {
            Err(f) => {
                return Err(f);
            },
            Ok(Some(_)) => {},
            Ok(None) => {
                let from_parent = holder_path(from);
                return match self.path_exists_non_dir(dev, from_parent.as_str()) {
                    Err(f) => Err(f),
                    Ok(true) => Err(Fault::Sys(SysErrNo::ENOTDIR)),
                    Ok(false) => Err(Fault::Sys(SysErrNo::ENOENT)),
                };
            },
        }
        let parent = holder_path(to);
        let below = match self.ext4_has_dir(parent.as_str()) {
            Err(f) => {
                return Err(f);
            },
            Ok(b) => b,
        };
        if self.files.mem.is_dir(parent.as_str()) && !below {
            return Err(Fault::Sys(SysErrNo::EXDEV));
        }
        match self.path_exists_non_dir(dev, parent.as_str()) {
            Err(f) => {
                return Err(f);
            },
            Ok(true) => {
                return Err(Fault::Sys(SysErrNo::ENOTDIR));
            },
            Ok(false) => {},
        }
        if below {
            Ok(Side::Volume)
        } else {
            Err(Fault::Sys(SysErrNo::ENOENT))
        }
    }

    fn find_linking<D: RawBlockDevice>(&self, dev: &D, from: &str, to: &str) -> (r: Result<
        Side,
        Fault,
    >)
        requires
            self.wf(),
        ensures
            r == self.linking(dev, from@, to@),
    {
        if self.is_removed(from) {
            return Err(Fault::Sys(SysErrNo::ENOENT));
        }
        match self.vfat_metadata_for_path(dev, from) {
            Some(Err(e)) => {
                return Err(Fault::Sys(e));
            },
            Some(Ok(_)) => {
                return Err(Fault::Sys(SysErrNo::EXDEV));
            },
            None => {},
        }
        let parent = holder_path(to);
        match self.vfat_refusal(dev, parent.as_str()) {
            Some(e) => {
                return Err(Fault::Sys(e));
            },
            None => {},
        }
        match self.is_occupied(dev, to) {
            Err(f) => {
                return Err(f);
            },
            Ok(true) => {
                return Err(Fault::Sys(SysErrNo::EEXIST));
            },
            Ok(false) => {},
        }
        let old_tmpfs = self.is_tmpfs_path(from);
        let new_tmpfs = self.is_tmpfs_path(to);
        if old_tmpfs != new_tmpfs {
            return Err(Fault::Sys(SysErrNo::EXDEV));
        }
        if self.files.mem.node_exists(from) {
            return self.find_mem_linking(dev, from, to);
        }
        if old_tmpfs {
            return Err(Fault::Sys(SysErrNo::ENOENT));
        }
        self.find_ext4_linking(dev, from, to)
    }

    /// What giving a node a second name does.
    pub open spec fn path_linked<D: RawBlockDevice>(
        &self,
        was: &Self,
        dev: &D,
        old_path: Seq<char>,
        new_path: Seq<char>,
        follow_old: bool,
        r: Result<Linking, Fault>,
    ) -> bool {
        &&& (match was.linking(dev, old_path, new_path) {
                Err(f) => r == Err::<Linking, Fault>(f) && *self == *was,
                Ok(Side::Memory) => {
                    let (m, done) = was.files.mem@.link(old_path, new_path);
                    &&& self.in_memory(was)
                    &&& self.files.mem@ == m
                    &&& match done {
                        Err(e) => r == Err::<Linking, Fault>(Fault::Sys(e))
                            && self.whiteouts == was.whiteouts,
                        Ok(_) => r == Ok::<Linking, Fault>(Linking::Done)
                            && self.whiteouts@ == was.whiteouts@.remove(
                            normalized(new_path),
                        ),
                    }
                },
                Ok(Side::Volume) => {
                    &&& *self == *was
                    &&& match r {
                        Err(f) => was.files.vol.names.link_spec(
                            old_path,
                            new_path,
                            follow_old,
                        ) == Err::<(PlaceModel, u32), Fault>(f),
                        Ok(Linking::Done) => false,
                        Ok(Linking::Volume(link)) => was.files.vol.names.link_spec(
                            old_path,
                            new_path,
                            follow_old,
                        ) == Ok::<(PlaceModel, u32), Fault>((link.place@, link.child_ino)),
                    }
                },
            })
    }

    /// Gives a node a second name. A link on the volume is for the caller to
    /// make; behind it comes `linked_on_volume`.
    pub fn link_path<D: RawBlockDevice>(
        &mut self,
        dev: &D,
        old_path: &str,
        new_path: &str,
        follow_old: bool,
    ) -> (r: Result<Linking, Fault>)
        requires
            old(self).wf(),
        ensures
            final(self).wf(),
            final(self).path_linked(old(self), dev, old_path@, new_path@, follow_old, r),
    {
        match self.find_linking(dev, old_path, new_path) {
            Err(f) => Err(f),
            Ok(Side::Memory) => match self.files.mem.link_path(old_path, new_path) {
                Err(e) => Err(Fault::Sys(e)),
                Ok(_) => {
                    self.clear_whiteout(new_path);
                    Ok(Linking::Done)
                },
            },
            Ok(Side::Volume) => match self.files.vol.names.link_ext4(
                old_path,
                new_path,
                follow_old,
            ) {
                Err(f) => Err(f),
                Ok(link) => Ok(Linking::Volume(link)),
            },
        }
    }

    /// Takes note that a node was moved on the volume: its new name is shown.
    pub fn renamed_on_volume(&mut self, m: &Movement, new_path: &str)
        requires
            old(self).wf(),
        ensures
            final(self).wf(),
            *final(self) == (Vfs {
                files: Files { vol: final(self).files.vol, ..old(self).files },
                whiteouts: final(self).whiteouts,
                ..*old(self)
            }),
            final(self).files.vol.rename_noted(&old(self).files.vol, m),
            final(self).whiteouts@ == old(self).whiteouts@.remove(normalized(new_path@)),
    {
        self.files.vol.invalidate_namespace_rename(m);
        self.clear_whiteout(new_path);
    }

    /// Takes note that a link was made on the volume: its name is shown.
    pub fn linked_on_volume(&mut self, l: &NewLink, new_path: &str)
        requires
            old(self).wf(),
        ensures
            final(self).wf(),
            *final(self) == (Vfs {
                files: Files { vol: final(self).files.vol, ..old(self).files },
                whiteouts: final(self).whiteouts,
                ..*old(self)
            }),
            final(self).files.vol.link_noted(&old(self).files.vol, l),
            final(self).whiteouts@ == old(self).whiteouts@.remove(normalized(new_path@)),
    {
        self.files.vol.link_created(l);
        self.clear_whiteout(new_path);
    }

    /// A name of memory that has been taken away is gone: nothing lies there
    /// any more, on the volume either.
    pub proof fn removal_hides_the_name<D: RawBlockDevice>(
        &self,
        was: &Vfs,
        dev: &D,
        path: Seq<char>,
    )
        requires
            self.whiteouts@ == was.whiteouts@.insert(normalized(path), ()),
        ensures
            self.occupied(dev, path) == Ok::<bool, Fault>(false),
            self.file_removal(dev, path) == Err::<Side, Fault>(Fault::Sys(SysErrNo::ENOENT)),
            self.dir_removal(dev, path) == Err::<Side, Fault>(Fault::Sys(SysErrNo::ENOENT)),
    {
    }
}

} // verus!
