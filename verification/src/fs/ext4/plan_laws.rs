//! What the plans for changes of directories mean for the paths they are made
//! for.
use vstd::prelude::*;

use crate::errno::SysErrNo;
use crate::fs::ext4::plans::{NewEntryModel, PlaceModel, RemovalModel, RenameModel};
use crate::fs::ext4::types::{kind_of_mode, DiskInode, Ext4NodeKind};
use crate::fs::ext4::volume::{Ext4Names, Fault, Found, Load};
use crate::fs::path::{
    descendant_continues_names, is_absolute, lemma_parts_are_names, normalize_is_idempotent,
    normalized, parts_of, render,
};
use crate::task::Credentials;

verus! {

/// Renaming moves what is at the old path to a path at which nothing is. What is
/// there already goes first, unless it must not be replaced: only a directory
/// that is empty gives way to a directory, and only something else to something
/// else. Two names of one inode both stay.
pub proof fn renaming_replaces_like_with_like(
    names: &Ext4Names,
    from: Seq<char>,
    to: Seq<char>,
    no_replace: bool,
    step: RenameModel,
)
    requires
        names.rename_spec(from, to, no_replace) == Ok::<RenameModel, Fault>(step),
    ensures
        match step {
            RenameModel::Done => normalized(from) == normalized(to) || (names.lookup_spec(from)
                is Ok && names.lookup_spec(from)->Ok_0 is Some && names.lookup_spec(to) is Ok
                && names.lookup_spec(to)->Ok_0 is Some && names.lookup_spec(from)->Ok_0->Some_0.0
                == names.lookup_spec(to)->Ok_0->Some_0.0 && !no_replace),
            RenameModel::Move(m) => {
                &&& names.lookup_spec(to) == Ok::<Found, Load>(None)
                &&& names.lookup_spec(from) is Ok && names.lookup_spec(from)->Ok_0 is Some
                &&& m.child_ino == names.lookup_spec(from)->Ok_0->Some_0.0
                &&& m.from.path == normalized(from) && m.to.path == normalized(to)
                &&& m.from.name == parts_of(normalized(from)).last()
                &&& m.to.name == parts_of(normalized(to)).last()
            },
            RenameModel::Unlink(r) => {
                &&& !no_replace
                &&& names.lookup_spec(to) == Ok::<Found, Load>(Some((r.child_ino, r.child_kind)))
                &&& r.child_kind != Ext4NodeKind::Directory
                &&& names.lookup_spec(from) is Ok && names.lookup_spec(from)->Ok_0 is Some
                &&& names.lookup_spec(from)->Ok_0->Some_0.1 != Ext4NodeKind::Directory
                &&& names.lookup_spec(from)->Ok_0->Some_0.0 != r.child_ino
                &&& r.place.path == normalized(to)
            },
            RenameModel::RemoveDir(r) => {
                &&& !no_replace
                &&& names.lookup_spec(to) == Ok::<Found, Load>(
                    Some((r.child_ino, Ext4NodeKind::Directory)),
                )
                &&& names.lookup_spec(from) is Ok && names.lookup_spec(from)->Ok_0 is Some
                &&& names.lookup_spec(from)->Ok_0->Some_0.1 == Ext4NodeKind::Directory
                &&& names.lookup_spec(from)->Ok_0->Some_0.0 != r.child_ino
                &&& names.dirs@[r.child_ino as u128]@.dom().len() == 0
                &&& r.place.path == normalized(to)
            },
        },
{
    normalize_is_idempotent(from);
    normalize_is_idempotent(to);
}

/// A directory is never moved into itself.
pub proof fn no_directory_moves_into_itself(
    names: &Ext4Names,
    from: Seq<char>,
    to: Seq<char>,
    no_replace: bool,
    ino: u32,
)
    requires
        is_absolute(normalized(from)),
        is_absolute(normalized(to)),
        names.lookup_spec(from) == Ok::<Found, Load>(Some((ino, Ext4NodeKind::Directory))),
        parts_of(normalized(from)).len() > 0,
        parts_of(normalized(from)).len() < parts_of(normalized(to)).len(),
        parts_of(normalized(to)).take(parts_of(normalized(from)).len() as int) == parts_of(
            normalized(from),
        ),
    ensures
        !(names.rename_spec(from, to, no_replace) is Ok),
{
    normalize_is_idempotent(from);
    normalize_is_idempotent(to);
    let a = parts_of(normalized(from));
    let b = parts_of(normalized(to));
    lemma_parts_are_names(normalized(from));
    lemma_parts_are_names(normalized(to));
    descendant_continues_names(a, b);
    assert(render(true, a) == normalized(from));
    assert(render(true, b) == normalized(to));
}

/// Why a rename fails that has all it needs: the old path leads nowhere, the new
/// one must not be replaced, or the two do not go together.
pub proof fn refused_renames(
    names: &Ext4Names,
    from: Seq<char>,
    to: Seq<char>,
    no_replace: bool,
    e: SysErrNo,
)
    requires
        names.mounted,
        names.rename_spec(from, to, no_replace) == Err::<RenameModel, Fault>(Fault::Sys(e)),
        names.lookup_spec(from) is Ok,
        names.lookup_spec(to) is Ok,
    ensures
        e == SysErrNo::EEXIST ==> no_replace && names.lookup_spec(to)->Ok_0 is Some,
        e == SysErrNo::EISDIR ==> names.lookup_spec(to)->Ok_0 is Some && names.lookup_spec(
            to,
        )->Ok_0->Some_0.1 == Ext4NodeKind::Directory && names.lookup_spec(
            from,
        )->Ok_0->Some_0.1 != Ext4NodeKind::Directory,
        e == SysErrNo::ENOTEMPTY ==> names.lookup_spec(to)->Ok_0 is Some && names.dirs@[names.lookup_spec(
            to,
        )->Ok_0->Some_0.0 as u128]@.dom().len() > 0,
        e == SysErrNo::EEXIST || e == SysErrNo::EISDIR || e == SysErrNo::ENOTEMPTY || e
            == SysErrNo::EINVAL || e == SysErrNo::ENOENT || e == SysErrNo::ENOTDIR,
{
    normalize_is_idempotent(from);
    normalize_is_idempotent(to);
}

/// What is taken away is what is at the path: a directory only if it is empty,
/// and by no means a directory where a file is asked for.
pub proof fn removed_is_what_was_there(names: &Ext4Names, path: Seq<char>, r: RemovalModel, dir: bool)
    requires
        dir ==> names.remove_dir_spec(path) == Ok::<RemovalModel, Fault>(r),
        !dir ==> names.unlink_spec(path) == Ok::<RemovalModel, Fault>(r),
    ensures
        names.lookup_spec(path) == Ok::<Found, Load>(Some((r.child_ino, r.child_kind))),
        dir <==> r.child_kind == Ext4NodeKind::Directory,
        dir ==> names.dirs@[r.child_ino as u128]@.dom().len() == 0,
        !dir ==> r.links == names.inodes@[r.child_ino as u128].links,
        r.place.path == normalized(path),
        r.place.name == parts_of(normalized(path)).last(),
{
    normalize_is_idempotent(path);
}

/// A second name is made at a free path, for the inode that the first one leads
/// to, and never for a directory.
pub proof fn a_link_names_the_same_inode(
    names: &Ext4Names,
    from: Seq<char>,
    to: Seq<char>,
    follow: bool,
    place: PlaceModel,
    ino: u32,
)
    requires
        names.link_spec(from, to, follow) == Ok::<(PlaceModel, u32), Fault>((place, ino)),
    ensures
        names.lookup_spec(to) == Ok::<Found, Load>(None),
        place.path == normalized(to),
        ({
            let source = if follow {
                names.resolved_links(from)->Ok_0
            } else {
                from
            };
            &&& names.lookup_spec(source) is Ok && names.lookup_spec(source)->Ok_0 is Some
            &&& names.lookup_spec(source)->Ok_0->Some_0.0 == ino
            &&& names.lookup_spec(source)->Ok_0->Some_0.1 != Ext4NodeKind::Directory
        }),
{
    normalize_is_idempotent(from);
    normalize_is_idempotent(to);
}

/// The kind in the mode of an inode does not depend on its permissions.
proof fn lemma_kind_bits(t: u16, perm: u16)
    requires
        t == 0x4000 || t == 0x8000 || t == 0xa000,
        perm & 0xf000u16 == 0,
    ensures
        kind_of_mode(t | perm) == kind_of_mode(t),
        (t | perm) & 0xfffu16 == perm & 0xfffu16,
{
    assert((0x4000u16 | perm) & 0xf000u16 == 0x4000u16) by (bit_vector)
        requires
            perm & 0xf000u16 == 0,
    ;
    assert((0x8000u16 | perm) & 0xf000u16 == 0x8000u16) by (bit_vector)
        requires
            perm & 0xf000u16 == 0,
    ;
    assert((0xa000u16 | perm) & 0xf000u16 == 0xa000u16) by (bit_vector)
        requires
            perm & 0xf000u16 == 0,
    ;
    assert(t & 0xfffu16 == 0 ==> (t | perm) & 0xfffu16 == perm & 0xfffu16) by (bit_vector);
    assert(t == 0x4000 || t == 0x8000 || t == 0xa000 ==> t & 0xfffu16 == 0) by (bit_vector);
    assert(0x4000u16 & 0xf000u16 == 0x4000u16) by (bit_vector);
    assert(0x8000u16 & 0xf000u16 == 0x8000u16) by (bit_vector);
    assert(0xa000u16 & 0xf000u16 == 0xa000u16) by (bit_vector);
}

/// A new entry is made at a free path. Its inode is of the kind that was asked
/// for, belongs to the task that makes it, has the permissions that were asked
/// for, and is new: all its times are now. In a directory that hands its group
/// on it has that group, and as a directory it hands it on too.
pub proof fn a_new_entry_belongs_to_its_maker(
    names: &Ext4Names,
    path: Seq<char>,
    type_bits: u16,
    mode: u32,
    cred: &Credentials,
    e: NewEntryModel,
    blank: DiskInode,
    now: u32,
)
    requires
        names.new_entry_spec(path, type_bits, mode, cred) == Ok::<NewEntryModel, Fault>(e),
        type_bits == 0x4000 || type_bits == 0x8000 || type_bits == 0xa000,
        mode <= 0o7777,
        cred.fsuid <= u16::MAX,
        cred.fsgid <= u16::MAX,
    ensures
        names.lookup_spec(path) == Ok::<Found, Load>(None),
        e.place.path == normalized(path),
        ({
            let i = e.stamp(blank, now);
            let above = names.inodes@[e.place.parent_ino as u128];
            &&& kind_of_mode(i.mode) == kind_of_mode(type_bits)
            &&& i.uid == cred.fsuid
            &&& above.mode & 0o2000u16 == 0 ==> i.gid == cred.fsgid && i.mode & 0xfffu16 == mode
            &&& above.mode & 0o2000u16 != 0 ==> i.gid == above.gid && (if type_bits == 0x4000 {
                i.mode & 0xfffu16 == mode as u16 | 0o2000u16
            } else {
                i.mode & 0xfffu16 == mode
            })
            &&& i.atime == now && i.mtime == now && i.ctime == now
            &&& i.size == blank.size && i.links == blank.links
        }),
{
    normalize_is_idempotent(path);
    let m = mode as u16;
    assert(m & 0o7777u16 == m && m & 0xf000u16 == 0 && m & 0xfffu16 == m && (m | 0o2000u16)
        & 0xf000u16 == 0 && (m | 0o2000u16) & 0xfffu16 == (m | 0o2000u16)) by (bit_vector)
        requires
            m <= 0o7777u16,
    ;
    lemma_kind_bits(type_bits, m);
    lemma_kind_bits(type_bits, m | 0o2000u16);
}

/// A name that is renamed to itself, however it is spelled, stays as it is.
pub proof fn renaming_to_itself_does_nothing(
    names: &Ext4Names,
    from: Seq<char>,
    to: Seq<char>,
    no_replace: bool,
)
    requires
        names.mounted,
    ensures
        normalized(from) == normalized(to) ==> names.rename_spec(from, to, no_replace) == Ok::<
            RenameModel,
            Fault,
        >(RenameModel::Done),
{
}

} // verus!
