//! Changes of the names of an ext4 volume: whether they are allowed, and what
//! has to be done on disk for them.
use vstd::prelude::*;

use crate::errno::SysErrNo;
use crate::fs::ext4::types::{child_ids, new_child_ids_and_mode, DiskInode, Ext4NodeKind};
use crate::fs::ext4::volume::{Ext4Names, Fault, Load};
use crate::fs::path::{
    descends, is_absolute, is_descendant, normalize_path, normalized, parent_of, parent_path,
    parts_of, path_parts, starts_with_slash,
};
use crate::task::Credentials;
use crate::text::{concat, concat3, decimal, decimal_text, str_eq, texts};

verus! {

/// Mode bits of a directory.
pub const MODE_DIR: u16 = 0x4000;

/// Mode bits of a regular file.
pub const MODE_REGULAR: u16 = 0x8000;

/// Mode bits of a symbolic link.
pub const MODE_SYMLINK: u16 = 0xA000;

/// The parent and the name of a path in normal form.
pub open spec fn parent_and_name(norm: Seq<char>) -> Option<(Seq<char>, Seq<char>)> {
    if parts_of(norm).len() == 0 || (!is_absolute(norm) && parts_of(norm).len() == 1) {
        None
    } else {
        Some((parent_of(norm), parts_of(norm).last()))
    }
}

/// The parent and the name of a path in normal form; the root has neither.
pub fn split_parent_name(norm: &str) -> (r: Result<(String, String), SysErrNo>)
    ensures
        match r {
            Ok((parent, name)) => parent_and_name(norm@) == Some((parent@, name@)),
            Err(e) => parent_and_name(norm@) is None && e == SysErrNo::EINVAL,
        },
{
    let mut parts = path_parts(norm);
    if parts.len() == 0 || (parts.len() == 1 && !starts_with_slash(norm)) {
        return Err(SysErrNo::EINVAL);
    }
    let ghost all = texts(parts@);
    let last: usize = parts.len() - 1;
    let name: String = parts[last].clone();
    assert(name@ == all.last());
    Ok((parent_path(norm), name))
}

/// A place for an entry: its directory, its name there and its whole path.
pub struct Place {
    pub parent_ino: u32,
    pub name: String,
    pub path: String,
}

/// A place for an entry, as a mathematical value.
pub struct PlaceModel {
    pub parent_ino: u32,
    pub name: Seq<char>,
    pub path: Seq<char>,
}

impl View for Place {
    type V = PlaceModel;

    open spec fn view(&self) -> PlaceModel {
        PlaceModel { parent_ino: self.parent_ino, name: self.name@, path: self.path@ }
    }
}

/// A file, directory or link that is to be created at a place.
pub struct NewEntry {
    pub place: Place,
    pub mode: u16,
    pub uid: u16,
    pub gid: u16,
}

/// Something to be created, as a mathematical value.
pub struct NewEntryModel {
    pub place: PlaceModel,
    pub mode: u16,
    pub uid: u16,
    pub gid: u16,
}

impl View for NewEntry {
    type V = NewEntryModel;

    open spec fn view(&self) -> NewEntryModel {
        NewEntryModel { place: self.place@, mode: self.mode, uid: self.uid, gid: self.gid }
    }
}

impl NewEntryModel {
    /// The inode of the new entry.
    pub open spec fn stamp(self, inode: DiskInode, now: u32) -> DiskInode {
        DiskInode {
            mode: self.mode,
            uid: self.uid,
            gid: self.gid,
            atime: now,
            mtime: now,
            ctime: now,
            ..inode
        }
    }
}

impl NewEntry {
    /// The inode of the new entry as it has to be written.
    pub fn stamped(&self, inode: &DiskInode, now: u32) -> (r: DiskInode)
        ensures
            r == self@.stamp(*inode, now),
    {
        DiskInode {
            mode: self.mode,
            uid: self.uid,
            gid: self.gid,
            atime: now,
            mtime: now,
            ctime: now,
            ..*inode
        }
    }
}

/// A hard link that is to be made at a place.
pub struct NewLink {
    pub place: Place,
    pub child_ino: u32,
}

/// An entry that is to be taken away.
pub struct Removal {
    pub place: Place,
    pub child_ino: u32,
    pub child_kind: Ext4NodeKind,
    /// How many links the child has before.
    pub links: u16,
}

/// An entry to be taken away, as a mathematical value.
pub struct RemovalModel {
    pub place: PlaceModel,
    pub child_ino: u32,
    pub child_kind: Ext4NodeKind,
    pub links: u16,
}

impl View for Removal {
    type V = RemovalModel;

    open spec fn view(&self) -> RemovalModel {
        RemovalModel {
            place: self.place@,
            child_ino: self.child_ino,
            child_kind: self.child_kind,
            links: self.links,
        }
    }
}

/// An entry that is to be moved.
pub struct Movement {
    pub from: Place,
    pub to: Place,
    pub child_ino: u32,
    /// The entry is a directory that gets another parent.
    pub reparents: bool,
}

/// An entry to be moved, as a mathematical value.
pub struct MovementModel {
    pub from: PlaceModel,
    pub to: PlaceModel,
    pub child_ino: u32,
    pub reparents: bool,
}

impl View for Movement {
    type V = MovementModel;

    open spec fn view(&self) -> MovementModel {
        MovementModel {
            from: self.from@,
            to: self.to@,
            child_ino: self.child_ino,
            reparents: self.reparents,
        }
    }
}

/// What a renaming asks for next.
pub enum RenameStep {
    /// Nothing is to be done.
    Done,
    /// The file that is in the way is taken away first.
    Unlink(Removal),
    /// The empty directory that is in the way is taken away first.
    RemoveDir(Removal),
    /// The entry is moved.
    Move(Movement),
}

/// What a renaming asks for next, as a mathematical value.
pub enum RenameModel {
    Done,
    Unlink(RemovalModel),
    RemoveDir(RemovalModel),
    Move(MovementModel),
}

impl View for RenameStep {
    type V = RenameModel;

    open spec fn view(&self) -> RenameModel {
        match self {
            RenameStep::Done => RenameModel::Done,
            RenameStep::Unlink(r) => RenameModel::Unlink(r@),
            RenameStep::RemoveDir(r) => RenameModel::RemoveDir(r@),
            RenameStep::Move(m) => RenameModel::Move(m@),
        }
    }
}

impl Ext4Names {
    /// The place that a path names, if its directory is there.
    pub open spec fn place_spec(&self, path: Seq<char>) -> Result<PlaceModel, Fault> {
        let norm = normalized(path);
        if !self.mounted {
            Err(Fault::Sys(SysErrNo::ENOENT))
        } else {
            match parent_and_name(norm) {
                None => Err(Fault::Sys(SysErrNo::EINVAL)),
                Some((parent, name)) => match self.find_spec(parent) {
                    Err(f) => Err(f),
                    Ok((ino, kind)) => if kind != Ext4NodeKind::Directory {
                        Err(Fault::Sys(SysErrNo::ENOTDIR))
                    } else {
                        Ok(PlaceModel { parent_ino: ino, name, path: norm })
                    },
                },
            }
        }
    }

    fn place_of(&self, path: &str) -> (r: Result<Place, Fault>)
        requires
            self.wf(),
        ensures
            match r {
                Ok(place) => self.place_spec(path@) == Ok::<PlaceModel, Fault>(place@),
                Err(f) => self.place_spec(path@) == Err::<PlaceModel, Fault>(f),
            },
    {
        if !self.mounted {
            return Err(Fault::Sys(SysErrNo::ENOENT));
        }
        let norm = normalize_path(path);
        let (parent, name) = match split_parent_name(norm.as_str()) {
            Ok(split) => split,
            Err(e) => {
                return Err(Fault::Sys(e));
            },
        };
        let (ino, kind) = match self.find(parent.as_str()) {
            Ok(found) => found,
            Err(f) => {
                return Err(f);
            },
        };
        if kind != Ext4NodeKind::Directory {
            return Err(Fault::Sys(SysErrNo::ENOTDIR));
        }
        Ok(Place { parent_ino: ino, name, path: norm })
    }

    /// The place that a path names, if its directory is there and nothing is at
    /// the place.
    pub open spec fn free_place_spec(&self, path: Seq<char>) -> Result<PlaceModel, Fault> {
        match self.place_spec(path) {
            Err(f) => Err(f),
            Ok(place) => match self.lookup_spec(place.path) {
                Err(load) => Err(Fault::Need(load)),
                Ok(Some(_)) => Err(Fault::Sys(SysErrNo::EEXIST)),
                Ok(None) => Ok(place),
            },
        }
    }

    fn free_place_of(&self, path: &str) -> (r: Result<Place, Fault>)
        requires
            self.wf(),
        ensures
            match r {
                Ok(place) => self.free_place_spec(path@) == Ok::<PlaceModel, Fault>(place@),
                Err(f) => self.free_place_spec(path@) == Err::<PlaceModel, Fault>(f),
            },
    {
        let place = match self.place_of(path) {
            Ok(place) => place,
            Err(f) => {
                return Err(f);
            },
        };
        match self.lookup(place.path.as_str()) {
            Err(load) => Err(Fault::Need(load)),
            Ok(Some(_)) => Err(Fault::Sys(SysErrNo::EEXIST)),
            Ok(None) => Ok(place),
        }
    }

    /// What creating something at a path asks for.
    pub open spec fn new_entry_spec(
        &self,
        path: Seq<char>,
        type_bits: u16,
        mode: u32,
        cred: &Credentials,
    ) -> Result<NewEntryModel, Fault> {
        match self.free_place_spec(path) {
            Err(f) => Err(f),
            Ok(place) => if !self.inodes@.contains_key(place.parent_ino as u128) {
                Err(Fault::Need(Load::Inode(place.parent_ino)))
            } else {
                let (uid, gid, perm) = child_ids(
                    cred,
                    self.inodes@[place.parent_ino as u128],
                    mode,
                    type_bits == MODE_DIR,
                );
                Ok(NewEntryModel { place, mode: type_bits | perm, uid, gid })
            },
        }
    }

    fn new_entry(&self, path: &str, type_bits: u16, mode: u32, cred: &Credentials) -> (r: Result<
        NewEntry,
        Fault,
    >)
        requires
            self.wf(),
        ensures
            match r {
                Ok(entry) => self.new_entry_spec(path@, type_bits, mode, cred) == Ok::<
                    NewEntryModel,
                    Fault,
                >(entry@),
                Err(f) => self.new_entry_spec(path@, type_bits, mode, cred) == Err::<
                    NewEntryModel,
                    Fault,
                >(f),
            },
    {
        let place = match self.free_place_of(path) {
            Ok(place) => place,
            Err(f) => {
                return Err(f);
            },
        };
        let parent = match self.inode(place.parent_ino) {
            Ok(parent) => parent,
            Err(f) => {
                return Err(f);
            },
        };
        let (uid, gid, perm) = new_child_ids_and_mode(cred, &parent, mode, type_bits == MODE_DIR);
        Ok(NewEntry { place, mode: type_bits | perm, uid, gid })
    }

    /// What making a directory at a path asks for.
    pub fn mkdir_ext4_with_mode(&self, path: &str, mode: u32, cred: &Credentials) -> (r: Result<
        NewEntry,
        Fault,
    >)
        requires
            self.wf(),
        ensures
            match r {
                Ok(entry) => self.new_entry_spec(path@, MODE_DIR, mode, cred) == Ok::<
                    NewEntryModel,
                    Fault,
                >(entry@),
                Err(f) => self.new_entry_spec(path@, MODE_DIR, mode, cred) == Err::<
                    NewEntryModel,
                    Fault,
                >(f),
            },
    {
        self.new_entry(path, MODE_DIR, mode, cred)
    }

    /// What making a directory with the usual permissions asks for.
    pub fn mkdir_ext4(&self, path: &str, cred: &Credentials) -> (r: Result<NewEntry, Fault>)
        requires
            self.wf(),
        ensures
            match r {
                Ok(entry) => self.new_entry_spec(path@, MODE_DIR, 0o755, cred) == Ok::<
                    NewEntryModel,
                    Fault,
                >(entry@),
                Err(f) => self.new_entry_spec(path@, MODE_DIR, 0o755, cred) == Err::<
                    NewEntryModel,
                    Fault,
                >(f),
            },
    {
        self.mkdir_ext4_with_mode(path, 0o755, cred)
    }

    /// What creating a regular file at a path asks for.
    pub fn create_regular_ext4_with_mode(&self, path: &str, mode: u32, cred: &Credentials) -> (r:
        Result<NewEntry, Fault>)
        requires
            self.wf(),
        ensures
            match r {
                Ok(entry) => self.new_entry_spec(path@, MODE_REGULAR, mode, cred) == Ok::<
                    NewEntryModel,
                    Fault,
                >(entry@),
                Err(f) => self.new_entry_spec(path@, MODE_REGULAR, mode, cred) == Err::<
                    NewEntryModel,
                    Fault,
                >(f),
            },
    {
        self.new_entry(path, MODE_REGULAR, mode, cred)
    }

    /// What creating a regular file with the usual permissions asks for.
    pub fn create_regular_ext4(&self, path: &str, cred: &Credentials) -> (r: Result<NewEntry, Fault>)
        requires
            self.wf(),
        ensures
            match r {
                Ok(entry) => self.new_entry_spec(path@, MODE_REGULAR, 0o666, cred) == Ok::<
                    NewEntryModel,
                    Fault,
                >(entry@),
                Err(f) => self.new_entry_spec(path@, MODE_REGULAR, 0o666, cred) == Err::<
                    NewEntryModel,
                    Fault,
                >(f),
            },
    {
        self.create_regular_ext4_with_mode(path, 0o666, cred)
    }

    /// What making a symbolic link at a path asks for.
    pub fn create_symlink_ext4(&self, link_path: &str, cred: &Credentials) -> (r: Result<
        NewEntry,
        Fault,
    >)
        requires
            self.wf(),
        ensures
            match r {
                Ok(entry) => self.new_entry_spec(link_path@, MODE_SYMLINK, 0o777, cred) == Ok::<
                    NewEntryModel,
                    Fault,
                >(entry@),
                Err(f) => self.new_entry_spec(link_path@, MODE_SYMLINK, 0o777, cred) == Err::<
                    NewEntryModel,
                    Fault,
                >(f),
            },
    {
        self.new_entry(link_path, MODE_SYMLINK, 0o777, cred)
    }

    /// What making a hard link asks for.
    pub open spec fn link_spec(&self, from: Seq<char>, to: Seq<char>, follow: bool) -> Result<
        (PlaceModel, u32),
        Fault,
    > {
        let source = if !self.mounted {
            Err(Fault::Sys(SysErrNo::ENOENT))
        } else if follow {
            self.resolved_links(from)
        } else {
            Ok(normalized(from))
        };
        match source {
            Err(f) => Err(f),
            Ok(source) => match self.free_place_spec(to) {
                Err(f) => Err(f),
                Ok(place) => match self.find_spec(source) {
                    Err(f) => Err(f),
                    Ok((ino, kind)) => if kind == Ext4NodeKind::Directory {
                        Err(Fault::Sys(SysErrNo::EPERM))
                    } else {
                        Ok((place, ino))
                    },
                },
            },
        }
    }

    /// What making a hard link asks for.
    pub fn link_ext4(&self, old_path: &str, new_path: &str, follow_old: bool) -> (r: Result<
        NewLink,
        Fault,
    >)
        requires
            self.wf(),
        ensures
            match r {
                Ok(link) => self.link_spec(old_path@, new_path@, follow_old) == Ok::<
                    (PlaceModel, u32),
                    Fault,
                >((link.place@, link.child_ino)),
                Err(f) => self.link_spec(old_path@, new_path@, follow_old) == Err::<
                    (PlaceModel, u32),
                    Fault,
                >(f),
            },
    {
        if !self.mounted {
            return Err(Fault::Sys(SysErrNo::ENOENT));
        }
        let source = if follow_old {
            match self.resolve_symlinks(old_path) {
                Ok(source) => source,
                Err(f) => {
                    return Err(f);
                },
            }
        } else {
            normalize_path(old_path)
        };
        let place = match self.free_place_of(new_path) {
            Ok(place) => place,
            Err(f) => {
                return Err(f);
            },
        };
        let (ino, kind) = match self.find(source.as_str()) {
            Ok(found) => found,
            Err(f) => {
                return Err(f);
            },
        };
        if kind == Ext4NodeKind::Directory {
            return Err(Fault::Sys(SysErrNo::EPERM));
        }
        Ok(NewLink { place, child_ino: ino })
    }

    /// What taking a file or link away asks for.
    pub open spec fn unlink_spec(&self, path: Seq<char>) -> Result<RemovalModel, Fault> {
        match self.place_spec(path) {
            Err(f) => Err(f),
            Ok(place) => match self.find_spec(place.path) {
                Err(f) => Err(f),
                Ok((ino, kind)) => if kind == Ext4NodeKind::Directory {
                    Err(Fault::Sys(SysErrNo::EISDIR))
                } else if !self.inodes@.contains_key(ino as u128) {
                    Err(Fault::Need(Load::Inode(ino)))
                } else {
                    Ok(
                        RemovalModel {
                            place,
                            child_ino: ino,
                            child_kind: kind,
                            links: self.inodes@[ino as u128].links,
                        },
                    )
                },
            },
        }
    }

    /// What taking a file or link away asks for.
    pub fn plan_unlink(&self, path: &str) -> (r: Result<Removal, Fault>)
        requires
            self.wf(),
        ensures
            match r {
                Ok(removal) => self.unlink_spec(path@) == Ok::<RemovalModel, Fault>(removal@),
                Err(f) => self.unlink_spec(path@) == Err::<RemovalModel, Fault>(f),
            },
    {
        let place = match self.place_of(path) {
            Ok(place) => place,
            Err(f) => {
                return Err(f);
            },
        };
        let (ino, kind) = match self.find(place.path.as_str()) {
            Ok(found) => found,
            Err(f) => {
                return Err(f);
            },
        };
        if kind == Ext4NodeKind::Directory {
            return Err(Fault::Sys(SysErrNo::EISDIR));
        }
        let child = match self.inode(ino) {
            Ok(child) => child,
            Err(f) => {
                return Err(f);
            },
        };
        Ok(Removal { place, child_ino: ino, child_kind: kind, links: child.links })
    }

    /// What taking an empty directory away asks for.
    pub open spec fn remove_dir_spec(&self, path: Seq<char>) -> Result<RemovalModel, Fault> {
        match self.place_spec(path) {
            Err(f) => Err(f),
            Ok(place) => match self.find_spec(place.path) {
                Err(f) => Err(f),
                Ok((ino, kind)) => if kind != Ext4NodeKind::Directory {
                    Err(Fault::Sys(SysErrNo::ENOTDIR))
                } else if !self.dirs@.contains_key(ino as u128) {
                    Err(Fault::Need(Load::Dir(ino)))
                } else if self.dirs@[ino as u128]@.dom().len() > 0 {
                    Err(Fault::Sys(SysErrNo::ENOTEMPTY))
                } else {
                    Ok(RemovalModel { place, child_ino: ino, child_kind: kind, links: 0 })
                },
            },
        }
    }

    /// What taking an empty directory away asks for.
    pub fn remove_empty_dir_ext4(&self, path: &str) -> (r: Result<Removal, Fault>)
        requires
            self.wf(),
        ensures
            match r {
                Ok(removal) => self.remove_dir_spec(path@) == Ok::<RemovalModel, Fault>(removal@),
                Err(f) => self.remove_dir_spec(path@) == Err::<RemovalModel, Fault>(f),
            },
    {
        let place = match self.place_of(path) {
            Ok(place) => place,
            Err(f) => {
                return Err(f);
            },
        };
        let (ino, kind) = match self.find(place.path.as_str()) {
            Ok(found) => found,
            Err(f) => {
                return Err(f);
            },
        };
        if kind != Ext4NodeKind::Directory {
            return Err(Fault::Sys(SysErrNo::ENOTDIR));
        }
        let entries = match self.dir_entries(ino) {
            Ok(entries) => entries,
            Err(f) => {
                return Err(f);
            },
        };
        if entries.len() > 0 {
            return Err(Fault::Sys(SysErrNo::ENOTEMPTY));
        }
        Ok(Removal { place, child_ino: ino, child_kind: kind, links: 0 })
    }

    /// What renaming asks for next.
    pub open spec fn rename_spec(&self, from: Seq<char>, to: Seq<char>, no_replace: bool) -> Result<
        RenameModel,
        Fault,
    > {
        let a = normalized(from);
        let b = normalized(to);
        if !self.mounted {
            Err(Fault::Sys(SysErrNo::ENOENT))
        } else if a == b {
            Ok(RenameModel::Done)
        } else {
            match (parent_and_name(a), parent_and_name(b)) {
                (Some((pa, na)), Some((pb, nb))) => match (self.find_spec(pa), self.find_spec(pb)) {
                    (Err(f), _) => Err(f),
                    (_, Err(f)) => Err(f),
                    (Ok((ia, ka)), Ok((ib, kb))) => if ka != Ext4NodeKind::Directory || kb
                        != Ext4NodeKind::Directory {
                        Err(Fault::Sys(SysErrNo::ENOTDIR))
                    } else {
                        self.rename_in(
                            PlaceModel { parent_ino: ia, name: na, path: a },
                            PlaceModel { parent_ino: ib, name: nb, path: b },
                            no_replace,
                        )
                    },
                },
                _ => Err(Fault::Sys(SysErrNo::EINVAL)),
            }
        }
    }

    /// What renaming from one place to another asks for next.
    pub open spec fn rename_in(&self, a: PlaceModel, b: PlaceModel, no_replace: bool) -> Result<
        RenameModel,
        Fault,
    > {
        match self.find_spec(a.path) {
            Err(f) => Err(f),
            Ok((ino, kind)) => if kind == Ext4NodeKind::Directory && descends(a.path, b.path) {
                Err(Fault::Sys(SysErrNo::EINVAL))
            } else {
                match self.lookup_spec(b.path) {
                    Err(load) => Err(Fault::Need(load)),
                    Ok(None) => Ok(
                        RenameModel::Move(
                            MovementModel {
                                from: a,
                                to: b,
                                child_ino: ino,
                                reparents: kind == Ext4NodeKind::Directory && a.parent_ino
                                    != b.parent_ino,
                            },
                        ),
                    ),
                    Ok(Some((there, there_kind))) => if no_replace {
                        Err(Fault::Sys(SysErrNo::EEXIST))
                    } else if there == ino {
                        Ok(RenameModel::Done)
                    } else if there_kind == Ext4NodeKind::Directory {
                        if kind != Ext4NodeKind::Directory {
                            Err(Fault::Sys(SysErrNo::EISDIR))
                        } else {
                            match self.remove_dir_spec(b.path) {
                                Err(f) => Err(f),
                                Ok(r) => Ok(RenameModel::RemoveDir(r)),
                            }
                        }
                    } else if kind == Ext4NodeKind::Directory {
                        Err(Fault::Sys(SysErrNo::ENOTDIR))
                    } else {
                        match self.unlink_spec(b.path) {
                            Err(f) => Err(f),
                            Ok(r) => Ok(RenameModel::Unlink(r)),
                        }
                    },
                }
            },
        }
    }

    fn rename_between(&self, a: Place, b: Place, no_replace: bool) -> (r: Result<RenameStep, Fault>)
        requires
            self.wf(),
            self.mounted,
        ensures
            match r {
                Ok(step) => self.rename_in(a@, b@, no_replace) == Ok::<RenameModel, Fault>(step@),
                Err(f) => self.rename_in(a@, b@, no_replace) == Err::<RenameModel, Fault>(f),
            },
    {
        let (ino, kind) = match self.find(a.path.as_str()) {
            Ok(found) => found,
            Err(f) => {
                return Err(f);
            },
        };
        if kind == Ext4NodeKind::Directory && is_descendant(a.path.as_str(), b.path.as_str()) {
            return Err(Fault::Sys(SysErrNo::EINVAL));
        }
        match self.lookup(b.path.as_str()) {
            Err(load) => Err(Fault::Need(load)),
            Ok(None) => {
                let reparents = kind == Ext4NodeKind::Directory && a.parent_ino != b.parent_ino;
                Ok(RenameStep::Move(Movement { from: a, to: b, child_ino: ino, reparents }))
            },
            Ok(Some((there, there_kind))) => {
                if no_replace {
                    return Err(Fault::Sys(SysErrNo::EEXIST));
                }
                if there == ino {
                    return Ok(RenameStep::Done);
                }
                if there_kind == Ext4NodeKind::Directory {
                    if kind != Ext4NodeKind::Directory {
                        return Err(Fault::Sys(SysErrNo::EISDIR));
                    }
                    return match self.remove_empty_dir_ext4(b.path.as_str()) {
                        Ok(removal) => Ok(RenameStep::RemoveDir(removal)),
                        Err(f) => Err(f),
                    };
                }
                if kind == Ext4NodeKind::Directory {
                    return Err(Fault::Sys(SysErrNo::ENOTDIR));
                }
                match self.plan_unlink(b.path.as_str()) {
                    Ok(removal) => Ok(RenameStep::Unlink(removal)),
                    Err(f) => Err(f),
                }
            },
        }
    }

    /// What renaming asks for next. After a removal the same renaming is asked
    /// again.
    pub fn rename_ext4(&self, old_path: &str, new_path: &str, no_replace: bool) -> (r: Result<
        RenameStep,
        Fault,
    >)
        requires
            self.wf(),
        ensures
            match r {
                Ok(step) => self.rename_spec(old_path@, new_path@, no_replace) == Ok::<
                    RenameModel,
                    Fault,
                >(step@),
                Err(f) => self.rename_spec(old_path@, new_path@, no_replace) == Err::<
                    RenameModel,
                    Fault,
                >(f),
            },
    {
        if !self.mounted {
            return Err(Fault::Sys(SysErrNo::ENOENT));
        }
        let a = normalize_path(old_path);
        let b = normalize_path(new_path);
        if str_eq(a.as_str(), b.as_str()) {
            return Ok(RenameStep::Done);
        }
        let (pa, na) = match split_parent_name(a.as_str()) {
            Ok(split) => split,
            Err(e) => {
                return Err(Fault::Sys(e));
            },
        };
        let (pb, nb) = match split_parent_name(b.as_str()) {
            Ok(split) => split,
            Err(e) => {
                return Err(Fault::Sys(e));
            },
        };
        let (ia, ka) = match self.find(pa.as_str()) {
            Ok(found) => found,
            Err(f) => {
                return Err(f);
            },
        };
        let (ib, kb) = match self.find(pb.as_str()) {
            Ok(found) => found,
            Err(f) => {
                return Err(f);
            },
        };
        if ka != Ext4NodeKind::Directory || kb != Ext4NodeKind::Directory {
            return Err(Fault::Sys(SysErrNo::ENOTDIR));
        }
        self.rename_between(
            Place { parent_ino: ia, name: na, path: a },
            Place { parent_ino: ib, name: nb, path: b },
            no_replace,
        )
    }
}

/// How many temporary names are tried for an exchange.
pub const EXCHANGE_ATTEMPTS: usize = 32;

/// A temporary name for an exchange of two inodes.
pub open spec fn exchange_name(dir: Seq<char>, a: u32, b: u32, attempt: nat) -> Seq<char> {
    (if dir == seq!['/'] {
        Seq::empty()
    } else {
        dir
    }) + "/.wll_rename_exchange_"@ + decimal(a as nat) + "_"@ + decimal(b as nat) + "_"@ + decimal(
        attempt,
    )
}

fn temp_name(dir: &str, a: u32, b: u32, attempt: usize) -> (r: String)
    ensures
        r@ == exchange_name(dir@, a, b, attempt as nat),
{
    proof {
        reveal_strlit("/");
        assert("/"@ =~= seq!['/']);
    }
    let first = decimal_text(a as usize);
    let second = decimal_text(b as usize);
    let third = decimal_text(attempt);
    let head = if str_eq(dir, "/") {
        let h: String = "/.wll_rename_exchange_".to_owned();
        assert(h@ =~= Seq::<char>::empty() + "/.wll_rename_exchange_"@);
        h
    } else {
        concat(dir, "/.wll_rename_exchange_")
    };
    let front = concat3(head.as_str(), first.as_str(), "_");
    let middle = concat3(front.as_str(), second.as_str(), "_");
    concat(middle.as_str(), third.as_str())
}

impl Ext4Names {
    /// The first temporary name from an attempt on that nothing has.
    pub open spec fn free_temp(&self, dir: Seq<char>, a: u32, b: u32, attempt: nat) -> Result<
        Seq<char>,
        Fault,
    >
        decreases EXCHANGE_ATTEMPTS - attempt,
    {
        if attempt >= EXCHANGE_ATTEMPTS {
            Err(Fault::Sys(SysErrNo::EEXIST))
        } else {
            match self.lookup_spec(exchange_name(dir, a, b, attempt)) {
                Err(load) => Err(Fault::Need(load)),
                Ok(None) => Ok(exchange_name(dir, a, b, attempt)),
                Ok(Some(_)) => self.free_temp(dir, a, b, attempt + 1),
            }
        }
    }

    /// The temporary name for an exchange of two paths, or `None` where both
    /// are one.
    pub open spec fn exchange_spec(&self, from: Seq<char>, to: Seq<char>) -> Result<
        Option<Seq<char>>,
        Fault,
    > {
        let a = normalized(from);
        let b = normalized(to);
        if !self.mounted {
            Err(Fault::Sys(SysErrNo::ENOENT))
        } else if a == b {
            Ok(None)
        } else if b == seq!['/'] {
            Err(Fault::Sys(SysErrNo::EINVAL))
        } else {
            match parent_and_name(a) {
                None => Err(Fault::Sys(SysErrNo::EINVAL)),
                Some((dir, _)) => match (self.find_spec(a), self.find_spec(b)) {
                    (Err(f), _) => Err(f),
                    (_, Err(f)) => Err(f),
                    (Ok((ia, ka)), Ok((ib, kb))) => if (ka == Ext4NodeKind::Directory && descends(
                        a,
                        b,
                    )) || (kb == Ext4NodeKind::Directory && descends(b, a)) {
                        Err(Fault::Sys(SysErrNo::EINVAL))
                    } else {
                        match self.free_temp(dir, ia, ib, 0) {
                            Ok(temp) => Ok(Some(temp)),
                            Err(f) => Err(f),
                        }
                    },
                },
            }
        }
    }

    /// The temporary name for an exchange of two paths, or `None` where both
    /// are one.
    pub fn exchange_ext4(&self, old_path: &str, new_path: &str) -> (r: Result<Option<String>, Fault>)
        requires
            self.wf(),
        ensures
            match r {
                Ok(Some(temp)) => self.exchange_spec(old_path@, new_path@) == Ok::<
                    Option<Seq<char>>,
                    Fault,
                >(Some(temp@)),
                Ok(None) => self.exchange_spec(old_path@, new_path@) == Ok::<
                    Option<Seq<char>>,
                    Fault,
                >(None),
                Err(f) => self.exchange_spec(old_path@, new_path@) == Err::<
                    Option<Seq<char>>,
                    Fault,
                >(f),
            },
    {
        if !self.mounted {
            return Err(Fault::Sys(SysErrNo::ENOENT));
        }
        let a = normalize_path(old_path);
        let b = normalize_path(new_path);
        if str_eq(a.as_str(), b.as_str()) {
            return Ok(None);
        }
        proof {
            reveal_strlit("/");
            assert("/"@ =~= seq!['/']);
        }
        if str_eq(b.as_str(), "/") {
            return Err(Fault::Sys(SysErrNo::EINVAL));
        }
        let (dir, _name) = match split_parent_name(a.as_str()) {
            Ok(split) => split,
            Err(e) => {
                return Err(Fault::Sys(e));
            },
        };
        let (ia, ka) = match self.find(a.as_str()) {
            Ok(found) => found,
            Err(f) => {
                return Err(f);
            },
        };
        let (ib, kb) = match self.find(b.as_str()) {
            Ok(found) => found,
            Err(f) => {
                return Err(f);
            },
        };
        if ka == Ext4NodeKind::Directory && is_descendant(a.as_str(), b.as_str()) {
            return Err(Fault::Sys(SysErrNo::EINVAL));
        }
        if kb == Ext4NodeKind::Directory && is_descendant(b.as_str(), a.as_str()) {
            return Err(Fault::Sys(SysErrNo::EINVAL));
        }
        let ghost goal = self.free_temp(dir@, ia, ib, 0);
        let mut attempt: usize = 0;
        while attempt < EXCHANGE_ATTEMPTS
            invariant
                self.wf(),
                attempt <= EXCHANGE_ATTEMPTS,
                goal == self.free_temp(dir@, ia, ib, attempt as nat),
                goal is Ok ==> self.exchange_spec(old_path@, new_path@) == Ok::<
                    Option<Seq<char>>,
                    Fault,
                >(Some(goal->Ok_0)),
                goal is Err ==> self.exchange_spec(old_path@, new_path@) == Err::<
                    Option<Seq<char>>,
                    Fault,
                >(goal->Err_0),
            decreases EXCHANGE_ATTEMPTS - attempt,
        {
            let temp = temp_name(dir.as_str(), ia, ib, attempt);
            match self.lookup(temp.as_str()) {
                Err(load) => {
                    return Err(Fault::Need(load));
                },
                Ok(None) => {
                    return Ok(Some(temp));
                },
                Ok(Some(_)) => {},
            }
            attempt = attempt + 1;
        }
        Err(Fault::Sys(SysErrNo::EEXIST))
    }
}

/// How far an exchange has come.
#[derive(Clone, Copy, PartialEq, Eq, Debug)]
pub enum ExchangeStage {
    /// The first path is moved to the temporary name.
    FirstAway,
    /// The second path is moved to the first.
    SecondOver,
    /// The temporary name is moved to the second path.
    FirstOver,
    /// The temporary name is moved back to the first path, after an error.
    Undo(SysErrNo),
    /// The exchange has ended.
    Ended(Result<(), SysErrNo>),
}

/// The stage that follows once the renaming of a stage has ended.
pub open spec fn stage_after(stage: ExchangeStage, outcome: Result<(), SysErrNo>) -> ExchangeStage {
    match (stage, outcome) {
        (ExchangeStage::FirstAway, Ok(_)) => ExchangeStage::SecondOver,
        (ExchangeStage::SecondOver, Ok(_)) => ExchangeStage::FirstOver,
        (ExchangeStage::SecondOver, Err(e)) => ExchangeStage::Undo(e),
        (ExchangeStage::Undo(e), _) => ExchangeStage::Ended(Err(e)),
        (ExchangeStage::Ended(r), _) => ExchangeStage::Ended(r),
        (_, r) => ExchangeStage::Ended(r),
    }
}

impl ExchangeStage {
    /// The stage that follows once the renaming of this one has ended.
    pub fn next(self, outcome: Result<(), SysErrNo>) -> (r: ExchangeStage)
        ensures
            r == stage_after(self, outcome),
    {
        match (self, outcome) {
            (ExchangeStage::FirstAway, Ok(_)) => ExchangeStage::SecondOver,
            (ExchangeStage::SecondOver, Ok(_)) => ExchangeStage::FirstOver,
            (ExchangeStage::SecondOver, Err(e)) => ExchangeStage::Undo(e),
            (ExchangeStage::Undo(e), _) => ExchangeStage::Ended(Err(e)),
            (ExchangeStage::Ended(r), _) => ExchangeStage::Ended(r),
            (_, r) => ExchangeStage::Ended(r),
        }
    }

    /// The renaming of a stage: from which path to which.
    pub open spec fn renames(self, a: Seq<char>, b: Seq<char>, temp: Seq<char>) -> Option<
        (Seq<char>, Seq<char>),
    > {
        match self {
            ExchangeStage::FirstAway => Some((a, temp)),
            ExchangeStage::SecondOver => Some((b, a)),
            ExchangeStage::FirstOver => Some((temp, b)),
            ExchangeStage::Undo(_) => Some((temp, a)),
            ExchangeStage::Ended(_) => None,
        }
    }

    /// The renaming of this stage: from which path to which.
    pub fn renaming(self, a: &str, b: &str, temp: &str) -> (r: Option<(String, String)>)
        ensures
            match r {
                Some((from, to)) => self.renames(a@, b@, temp@) == Some((from@, to@)),
                None => self.renames(a@, b@, temp@) is None,
            },
    {
        match self {
            ExchangeStage::FirstAway => Some((a.to_owned(), temp.to_owned())),
            ExchangeStage::SecondOver => Some((b.to_owned(), a.to_owned())),
            ExchangeStage::FirstOver => Some((temp.to_owned(), b.to_owned())),
            ExchangeStage::Undo(_) => Some((temp.to_owned(), a.to_owned())),
            ExchangeStage::Ended(_) => None,
        }
    }
}

/// A table of names with one entry moved.
pub open spec fn entry_moved(m: Map<Seq<char>, u32>, from: Seq<char>, to: Seq<char>) -> Map<
    Seq<char>,
    u32,
> {
    m.remove(from).insert(to, m[from])
}

/// The renamings of the stages, one after the other, exchange two entries.
pub proof fn stages_exchange_entries(
    m: Map<Seq<char>, u32>,
    a: Seq<char>,
    b: Seq<char>,
    temp: Seq<char>,
)
    requires
        m.contains_key(a),
        m.contains_key(b),
        !m.contains_key(temp),
        a != b,
    ensures
        ({
            let s1 = ExchangeStage::FirstAway;
            let s2 = stage_after(s1, Ok(()));
            let s3 = stage_after(s2, Ok(()));
            let r1 = s1.renames(a, b, temp)->0;
            let r2 = s2.renames(a, b, temp)->0;
            let r3 = s3.renames(a, b, temp)->0;
            let m1 = entry_moved(m, r1.0, r1.1);
            let m2 = entry_moved(m1, r2.0, r2.1);
            let m3 = entry_moved(m2, r3.0, r3.1);
            m3 == m.insert(a, m[b]).insert(b, m[a]) && stage_after(s3, Ok(()))
                == ExchangeStage::Ended(Ok(()))
        }),
{
    let m1 = entry_moved(m, a, temp);
    let m2 = entry_moved(m1, b, a);
    let m3 = entry_moved(m2, temp, b);
    assert(m3 =~= m.insert(a, m[b]).insert(b, m[a]));
}

/// Where the second renaming of an exchange fails, undoing the first leaves all
/// entries as they were.
pub proof fn failed_exchange_is_undone(
    m: Map<Seq<char>, u32>,
    a: Seq<char>,
    b: Seq<char>,
    temp: Seq<char>,
    e: SysErrNo,
)
    requires
        m.contains_key(a),
        !m.contains_key(temp),
    ensures
        ({
            let s = stage_after(ExchangeStage::SecondOver, Err(e));
            let m1 = entry_moved(m, a, temp);
            let r = s.renames(a, b, temp)->0;
            entry_moved(m1, r.0, r.1) == m && stage_after(s, Ok(())) == ExchangeStage::Ended(Err(e))
        }),
{
    assert(entry_moved(entry_moved(m, a, temp), temp, a) =~= m);
}

} // verus!
