//! New nodes of the tree.
use vstd::prelude::*;

use crate::errno::SysErrNo;
use crate::fs::block_dev::device::RawBlockDevice;
use crate::fs::ext4::plans::{NewEntry, NewEntryModel, MODE_DIR, MODE_REGULAR, MODE_SYMLINK};
use crate::fs::ext4::volume::Fault;
use crate::fs::node::MemSpecialKind;
use crate::fs::path::{is_memfs_volatile_dir, normalize_path, normalized, volatile_dir};
use crate::fs::vfs::removal::{fails, Side};
use crate::fs::vfs::tree::{holder, holder_path, Vfs};
use crate::fs::vfs::types::{made_up_inode, pseudo_inode};
use crate::task::Caller;

verus! {

/// What is left to do to create a node. A node in memory has a made-up inode
/// number.
pub enum Creation {
    Here(u32),
    Volume(NewEntry),
}

/// Whether something has to be read before an operation can go on.
pub open spec fn asks<T>(r: Result<T, Fault>) -> bool {
    r is Err && r->Err_0 is Need
}

impl Vfs {
    /// On which side a node would be created, or why it cannot be: in memory
    /// where the directory is kept there only, or in one of the directories
    /// kept in memory; on the volume otherwise. With `checked`, the task must
    /// be allowed to add nodes there.
    pub open spec fn birthplace<D: RawBlockDevice>(
        &self,
        dev: &D,
        path: Seq<char>,
        caller: &Caller,
        checked: bool,
    ) -> Result<Side, Fault> {
        let parent = holder(path);
        match self.fat_refusal(dev, parent) {
            Some(e) => fails(e),
            None => {
                let above = self.files.mem@.has_dir(normalized(parent));
                let below = if self.in_tmpfs(parent) {
                    Ok(false)
                } else {
                    self.ext4_dir_at(parent)
                };
                match below {
                    Err(f) => Err(f),
                    Ok(below) => if checked && (above || below) && self.may_create(
                        dev,
                        parent,
                        caller,
                    ) is Err {
                        Err(self.may_create(dev, parent, caller)->Err_0)
                    } else if above && (volatile_dir(parent) || !below) {
                        Ok(Side::Memory)
                    } else if below {
                        Ok(Side::Volume)
                    } else if !checked {
                        fails(SysErrNo::ENOENT)
                    } else {
                        match self.non_dir_at(dev, parent) {
                            Err(f) => Err(f),
                            Ok(true) => fails(SysErrNo::ENOTDIR),
                            Ok(false) => fails(SysErrNo::ENOENT),
                        }
                    },
                }
            },
        }
    }

    /// On which side a node would be created, or why it cannot be.
    pub fn find_birthplace<D: RawBlockDevice>(
        &self,
        dev: &D,
        path: &str,
        caller: &Caller,
        checked: bool,
    ) -> (r: Result<Side, Fault>)
        requires
            self.wf(),
        ensures
            r == self.birthplace(dev, path@, caller, checked),
    {
        let parent = holder_path(path);
        match self.vfat_refusal(dev, parent.as_str()) {
            Some(e) => {
                return Err(Fault::Sys(e));
            },
            None => {},
        }
        let above = self.files.mem.is_dir(parent.as_str());
        let below = if self.is_tmpfs_path(parent.as_str()) {
            false
        } else {
            match self.ext4_has_dir(parent.as_str()) {
                Err(f) => {
                    return Err(f);
                },
                Ok(b) => b,
            }
        };
        if checked && (above || below) {
            match self.check_create_access(dev, parent.as_str(), caller) {
                Err(f) => {
                    return Err(f);
                },
                Ok(_) => {},
            }
        }
        if above && (is_memfs_volatile_dir(parent.as_str()) || !below) {
            return Ok(Side::Memory);
        }
        if below {
            return Ok(Side::Volume);
        }
        if !checked {
            return Err(Fault::Sys(SysErrNo::ENOENT));
        }
        match self.path_exists_non_dir(dev, parent.as_str()) {
            Err(f) => Err(f),
            Ok(true) => Err(Fault::Sys(SysErrNo::ENOTDIR)),
            Ok(false) => Err(Fault::Sys(SysErrNo::ENOENT)),
        }
    }

    /// A new entry of the volume is asked for.
    pub open spec fn entry_asked(
        &self,
        path: Seq<char>,
        type_bits: u16,
        mode: u32,
        caller: &Caller,
        r: Result<Creation, Fault>,
    ) -> bool {
        match r {
            Err(f) => self.files.vol.names.new_entry_spec(path, type_bits, mode, &caller.cred)
                == Err::<NewEntryModel, Fault>(f),
            Ok(Creation::Here(_)) => false,
            Ok(Creation::Volume(entry)) => self.files.vol.names.new_entry_spec(
                path,
                type_bits,
                mode,
                &caller.cred,
            ) == Ok::<NewEntryModel, Fault>(entry@),
        }
    }

    /// Nothing is different but how the names that were taken away are stored.
    pub open spec fn same_tree(&self, was: &Vfs) -> bool {
        *self == (Vfs { whiteouts: self.whiteouts, ..*was }) && self.whiteouts@ == was.whiteouts@
    }

    /// The tree that is left: the one that was made, or the one from before if
    /// something has to be read first.
    pub open spec fn left_as(&self, was: &Vfs, made: &Vfs, asked: bool) -> bool {
        if asked {
            self.same_tree(was)
        } else {
            *self == *made
        }
    }

    fn hide_again(&mut self, path: &str, removed: bool, Ghost(was): Ghost<Vfs>)
        requires
            old(self).wf(),
            old(self).shown_again(&was, path@),
            removed == was.removed(path@),
        ensures
            final(self).wf(),
            final(self).same_tree(&was),
    {
        if removed {
            self.mark_whiteout(path);
        }
        assert(self.whiteouts@ =~= was.whiteouts@);
    }

    /// What creating a link does.
    pub open spec fn symlink_created<D: RawBlockDevice>(
        &self,
        was: &Self,
        dev: &D,
        caller: &Caller,
        target: Seq<char>,
        link_path: Seq<char>,
        r: Result<Creation, Fault>,
    ) -> bool {
        &&& (match was.occupied(dev, link_path) {
                Err(f) => r == Err::<Creation, Fault>(f) && *self == *was,
                Ok(true) => r == Err::<Creation, Fault>(Fault::Sys(SysErrNo::EEXIST))
                    && *self == *was,
                Ok(false) => match was.birthplace(dev, link_path, caller, true) {
                    Err(f) => r == Err::<Creation, Fault>(f) && *self == *was,
                    Ok(Side::Memory) => {
                        let (m, done) = was.files.mem@.add_symlink(
                            caller,
                            link_path,
                            target,
                        );
                        &&& self.in_memory(was)
                        &&& self.files.mem@ == m
                        &&& match done {
                            Err(e) => r == Err::<Creation, Fault>(Fault::Sys(e))
                                && self.whiteouts == was.whiteouts,
                            Ok(_) => r == Ok::<Creation, Fault>(
                                Creation::Here(made_up_inode(normalized(link_path)) as u32),
                            ) && self.whiteouts@ == was.whiteouts@.remove(
                                normalized(link_path),
                            ),
                        }
                    },
                    Ok(Side::Volume) => {
                        &&& was.entry_asked(link_path, MODE_SYMLINK, 0o777, caller, r)
                        &&& if asks(r) {
                            *self == *was
                        } else {
                            self.shown_again(was, link_path)
                        }
                    },
                },
            })
    }

    /// Creates a symbolic link.
    pub fn create_symlink<D: RawBlockDevice>(
        &mut self,
        dev: &D,
        caller: &Caller,
        target: &str,
        link_path: &str,
    ) -> (r: Result<Creation, Fault>)
        requires
            old(self).wf(),
        ensures
            final(self).wf(),
            final(self).symlink_created(old(self), dev, caller, target@, link_path@, r),
    {
        match self.is_occupied(dev, link_path) {
            Err(f) => {
                return Err(f);
            },
            Ok(true) => {
                return Err(Fault::Sys(SysErrNo::EEXIST));
            },
            Ok(false) => {},
        }
        match self.find_birthplace(dev, link_path, caller, true) {
            Err(f) => Err(f),
            Ok(Side::Memory) => match self.files.mem.add_symlink(caller, link_path, target) {
                Err(e) => Err(Fault::Sys(e)),
                Ok(_) => {
                    self.clear_whiteout(link_path);
                    let norm = normalize_path(link_path);
                    Ok(Creation::Here(pseudo_inode(norm.as_str()) as u32))
                },
            },
            Ok(Side::Volume) => {
                match self.files.vol.names.create_symlink_ext4(link_path, &caller.cred) {
                    Err(Fault::Need(load)) => Err(Fault::Need(load)),
                    Err(Fault::Sys(e)) => {
                        self.clear_whiteout(link_path);
                        Err(Fault::Sys(e))
                    },
                    Ok(entry) => {
                        self.clear_whiteout(link_path);
                        Ok(Creation::Volume(entry))
                    },
                }
            },
        }
    }

    /// What creating a directory does once its name may be used again.
    pub open spec fn dir_made<D: RawBlockDevice>(
        &self,
        was: &Vfs,
        dev: &D,
        caller: &Caller,
        path: Seq<char>,
        mode: u32,
        r: Result<Creation, Fault>,
    ) -> bool {
        match was.birthplace(dev, path, caller, false) {
            Err(f) => r == Err::<Creation, Fault>(f) && *self == *was,
            Ok(Side::Memory) => {
                &&& r == Ok::<Creation, Fault>(
                    Creation::Here(made_up_inode(normalized(path)) as u32),
                )
                &&& *self == (Vfs {
                    files: crate::fs::fd::descriptor::Files { mem: self.files.mem, ..was.files },
                    ..*was
                })
                &&& self.files.mem@ == was.files.mem@.add_dir_with_mode(caller, path, mode)
            },
            Ok(Side::Volume) => *self == *was && was.entry_asked(path, MODE_DIR, mode, caller, r),
        }
    }

    fn make_dir<D: RawBlockDevice>(
        &mut self,
        dev: &D,
        caller: &Caller,
        path: &str,
        mode: u32,
    ) -> (r: Result<Creation, Fault>)
        requires
            old(self).wf(),
        ensures
            final(self).wf(),
            exists|mid: Vfs| #[trigger]
                mid.shown_again(old(self), path@) && final(self).dir_made(&mid, dev, caller, path@, mode, r),
    {
        self.clear_whiteout(path);
        let ghost mid = *self;
        assert(mid.shown_again(old(self), path@));
        match self.find_birthplace(dev, path, caller, false) {
            Err(f) => Err(f),
            Ok(Side::Memory) => {
                self.files.mem.add_dir_with_mode(caller, path, mode);
                let norm = normalize_path(path);
                let r = Ok(Creation::Here(pseudo_inode(norm.as_str()) as u32));
                assert(self.dir_made(&mid, dev, caller, path@, mode, r));
                r
            },
            Ok(Side::Volume) => match self.files.vol.names.mkdir_ext4_with_mode(
                path,
                mode,
                &caller.cred,
            ) {
                Err(f) => Err(f),
                Ok(entry) => Ok(Creation::Volume(entry)),
            },
        }
    }

    /// What creating a directory does.
    pub open spec fn dir_created<D: RawBlockDevice>(
        &self,
        was: &Self,
        dev: &D,
        caller: &Caller,
        path: Seq<char>,
        mode: u32,
        r: Result<Creation, Fault>,
    ) -> bool {
        &&& (match was.occupied(dev, path) {
                Err(f) => r == Err::<Creation, Fault>(f) && *self == *was,
                Ok(true) => r == Err::<Creation, Fault>(Fault::Sys(SysErrNo::EEXIST))
                    && *self == *was,
                Ok(false) => exists|mid: Vfs, made: Vfs|
                    #![trigger mid.shown_again(was, path), made.dir_made(&mid, dev, caller, path, mode, r)]
                    mid.shown_again(was, path) && made.dir_made(&mid, dev, caller, path, mode, r)
                        && self.left_as(was, &made, asks(r)),
            })
    }

    /// Creates a directory with a mode.
    pub fn create_dir_with_mode<D: RawBlockDevice>(
        &mut self,
        dev: &D,
        caller: &Caller,
        path: &str,
        mode: u32,
    ) -> (r: Result<Creation, Fault>)
        requires
            old(self).wf(),
        ensures
            final(self).wf(),
            final(self).dir_created(old(self), dev, caller, path@, mode, r),
    {
        match self.is_occupied(dev, path) {
            Err(f) => {
                return Err(f);
            },
            Ok(true) => {
                return Err(Fault::Sys(SysErrNo::EEXIST));
            },
            Ok(false) => {},
        }
        let removed = self.is_removed(path);
        let r = self.make_dir(dev, caller, path, mode);
        let ghost made = *self;
        let ghost mid = choose|mid: Vfs| #[trigger]
            mid.shown_again(old(self), path@) && made.dir_made(&mid, dev, caller, path@, mode, r);
        match r {
            Err(Fault::Need(_)) => {
                assert(made == mid);
                self.hide_again(path, removed, Ghost(*old(self)));
            },
            _ => {},
        }
        assert(made.dir_made(&mid, dev, caller, path@, mode, r));
        r
    }

    /// Creates a directory.
    pub fn create_dir<D: RawBlockDevice>(&mut self, dev: &D, caller: &Caller, path: &str) -> (r: Result<
        Creation,
        Fault,
    >)
        requires
            old(self).wf(),
        ensures
            final(self).wf(),
            final(self).dir_created(old(self), dev, caller, path@, 0o755, r),
    {
        self.create_dir_with_mode(dev, caller, path, 0o755)
    }

    /// What creating a file does once its name may be used again.
    pub open spec fn file_made<D: RawBlockDevice>(
        &self,
        was: &Vfs,
        dev: &D,
        caller: &Caller,
        path: Seq<char>,
        mode: u32,
        r: Result<Creation, Fault>,
    ) -> bool {
        match was.birthplace(dev, path, caller, false) {
            Err(f) => r == Err::<Creation, Fault>(f) && *self == *was,
            Ok(Side::Memory) => {
                &&& r == Ok::<Creation, Fault>(
                    Creation::Here(made_up_inode(normalized(path)) as u32),
                )
                &&& *self == (Vfs {
                    files: crate::fs::fd::descriptor::Files { mem: self.files.mem, ..was.files },
                    ..*was
                })
                &&& self.files.mem@ == was.files.mem@.add_file_with_mode(
                    caller,
                    path,
                    Seq::empty(),
                    mode,
                )
            },
            Ok(Side::Volume) => *self == *was && was.entry_asked(
                path,
                MODE_REGULAR,
                mode,
                caller,
                r,
            ),
        }
    }

    fn make_file<D: RawBlockDevice>(
        &mut self,
        dev: &D,
        caller: &Caller,
        path: &str,
        mode: u32,
    ) -> (r: Result<Creation, Fault>)
        requires
            old(self).wf(),
        ensures
            final(self).wf(),
            exists|mid: Vfs| #[trigger]
                mid.shown_again(old(self), path@) && final(self).file_made(&mid, dev, caller, path@, mode, r),
    {
        self.clear_whiteout(path);
        let ghost mid = *self;
        assert(mid.shown_again(old(self), path@));
        match self.find_birthplace(dev, path, caller, false) {
            Err(f) => Err(f),
            Ok(Side::Memory) => {
                let empty: Vec<u8> = Vec::new();
                self.files.mem.add_file_with_mode(caller, path, empty, mode);
                let norm = normalize_path(path);
                let r = Ok(Creation::Here(pseudo_inode(norm.as_str()) as u32));
                assert(self.file_made(&mid, dev, caller, path@, mode, r));
                r
            },
            Ok(Side::Volume) => match self.files.vol.names.create_regular_ext4_with_mode(
                path,
                mode,
                &caller.cred,
            ) {
                Err(f) => Err(f),
                Ok(entry) => Ok(Creation::Volume(entry)),
            },
        }
    }

    /// What creating a file does.
    pub open spec fn file_created<D: RawBlockDevice>(
        &self,
        was: &Self,
        dev: &D,
        caller: &Caller,
        path: Seq<char>,
        mode: u32,
        r: Result<Creation, Fault>,
    ) -> bool {
        &&& (match was.occupied(dev, path) {
                Err(f) => r == Err::<Creation, Fault>(f) && *self == *was,
                Ok(true) => r == Err::<Creation, Fault>(Fault::Sys(SysErrNo::EEXIST))
                    && *self == *was,
                Ok(false) => exists|mid: Vfs, made: Vfs|
                    #![trigger mid.shown_again(was, path), made.file_made(&mid, dev, caller, path, mode, r)]
                    mid.shown_again(was, path) && made.file_made(&mid, dev, caller, path, mode, r)
                        && self.left_as(was, &made, asks(r)),
            })
    }

    /// Creates an empty file.
    pub fn create_regular_file<D: RawBlockDevice>(
        &mut self,
        dev: &D,
        caller: &Caller,
        path: &str,
        mode: u32,
    ) -> (r: Result<Creation, Fault>)
        requires
            old(self).wf(),
        ensures
            final(self).wf(),
            final(self).file_created(old(self), dev, caller, path@, mode, r),
    {
        match self.is_occupied(dev, path) {
            Err(f) => {
                return Err(f);
            },
            Ok(true) => {
                return Err(Fault::Sys(SysErrNo::EEXIST));
            },
            Ok(false) => {},
        }
        let removed = self.is_removed(path);
        let r = self.make_file(dev, caller, path, mode);
        let ghost made = *self;
        let ghost mid = choose|mid: Vfs| #[trigger]
            mid.shown_again(old(self), path@) && made.file_made(&mid, dev, caller, path@, mode, r);
        match r {
            Err(Fault::Need(_)) => {
                assert(made == mid);
                self.hide_again(path, removed, Ghost(*old(self)));
            },
            _ => {},
        }
        assert(made.file_made(&mid, dev, caller, path@, mode, r));
        r
    }

    /// What creating a special node does once its name may be used again; the
    /// volume takes none.
    pub open spec fn special_made<D: RawBlockDevice>(
        &self,
        was: &Vfs,
        dev: &D,
        caller: &Caller,
        path: Seq<char>,
        kind: MemSpecialKind,
        mode: u32,
        r: Result<u32, Fault>,
    ) -> bool {
        match was.birthplace(dev, path, caller, true) {
            Err(f) => r == Err::<u32, Fault>(f) && *self == *was,
            Ok(Side::Memory) => {
                let (m, done) = was.files.mem@.add_special_with_mode(caller, path, kind, mode);
                &&& r == (match done {
                    Err(e) => Err::<u32, Fault>(Fault::Sys(e)),
                    Ok(_) => Ok(made_up_inode(normalized(path)) as u32),
                })
                &&& *self == (Vfs {
                    files: crate::fs::fd::descriptor::Files { mem: self.files.mem, ..was.files },
                    ..*was
                })
                &&& self.files.mem@ == m
            },
            Ok(Side::Volume) => r == Err::<u32, Fault>(Fault::Sys(SysErrNo::EOPNOTSUPP)) && *self
                == *was,
        }
    }

    fn make_special<D: RawBlockDevice>(
        &mut self,
        dev: &D,
        caller: &Caller,
        path: &str,
        kind: MemSpecialKind,
        mode: u32,
    ) -> (r: Result<u32, Fault>)
        requires
            old(self).wf(),
        ensures
            final(self).wf(),
            exists|mid: Vfs| #[trigger]
                mid.shown_again(old(self), path@) && final(self).special_made(&mid, dev, caller, path@, kind, mode, r),
    {
        self.clear_whiteout(path);
        let ghost mid = *self;
        assert(mid.shown_again(old(self), path@));
        match self.find_birthplace(dev, path, caller, true) {
            Err(f) => Err(f),
            Ok(Side::Memory) => {
                let norm = normalize_path(path);
                let r = match self.files.mem.add_special_with_mode(caller, path, kind, mode) {
                    Err(e) => Err(Fault::Sys(e)),
                    Ok(_) => Ok(pseudo_inode(norm.as_str()) as u32),
                };
                assert(self.special_made(&mid, dev, caller, path@, kind, mode, r));
                r
            },
            Ok(Side::Volume) => Err(Fault::Sys(SysErrNo::EOPNOTSUPP)),
        }
    }

    /// What creating a special node does.
    pub open spec fn special_created<D: RawBlockDevice>(
        &self,
        was: &Self,
        dev: &D,
        caller: &Caller,
        path: Seq<char>,
        kind: MemSpecialKind,
        mode: u32,
        r: Result<u32, Fault>,
    ) -> bool {
        &&& (match was.occupied(dev, path) {
                Err(f) => r == Err::<u32, Fault>(f) && *self == *was,
                Ok(true) => r == Err::<u32, Fault>(Fault::Sys(SysErrNo::EEXIST))
                    && *self == *was,
                Ok(false) => exists|mid: Vfs, made: Vfs|
                    #![trigger mid.shown_again(was, path), made.special_made(&mid, dev, caller, path, kind, mode, r)]
                    mid.shown_again(was, path) && made.special_made(&mid, dev, caller, path, kind, mode, r)
                        && self.left_as(was, &made, asks(r)),
            })
    }

    /// Creates a special node.
    pub fn create_special_node<D: RawBlockDevice>(
        &mut self,
        dev: &D,
        caller: &Caller,
        path: &str,
        kind: MemSpecialKind,
        mode: u32,
    ) -> (r: Result<u32, Fault>)
        requires
            old(self).wf(),
        ensures
            final(self).wf(),
            final(self).special_created(old(self), dev, caller, path@, kind, mode, r),
    {
        match self.is_occupied(dev, path) {
            Err(f) => {
                return Err(f);
            },
            Ok(true) => {
                return Err(Fault::Sys(SysErrNo::EEXIST));
            },
            Ok(false) => {},
        }
        let removed = self.is_removed(path);
        let r = self.make_special(dev, caller, path, kind, mode);
        let ghost made = *self;
        let ghost mid = choose|mid: Vfs| #[trigger]
            mid.shown_again(old(self), path@) && made.special_made(&mid, dev, caller, path@, kind, mode, r);
        match r {
            Err(Fault::Need(_)) => {
                assert(made == mid);
                self.hide_again(path, removed, Ghost(*old(self)));
            },
            _ => {},
        }
        assert(made.special_made(&mid, dev, caller, path@, kind, mode, r));
        r
    }
}

} // verus!
