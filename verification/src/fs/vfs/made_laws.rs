//! What is made in the tree is there, and what is set on it is recorded.
use vstd::prelude::*;

use crate::errno::SysErrNo;
use crate::fs::block_dev::device::RawBlockDevice;
use crate::fs::ext4::types::{kind_of_mode, Ext4NodeKind};
use crate::fs::ext4::volume::{Fault, Found, Load};
use crate::fs::fd::descriptor::FileDescriptor;
use crate::fs::memfs::node_laws::{a_set_owner_is_recorded, set_times_are_recorded};
use crate::fs::node::MemSpecialKind;
use crate::fs::path::{normalize_is_idempotent, normalized};
use crate::fs::vfs::attributes::Recording;
use crate::fs::vfs::creation::{asks, Creation};
use crate::fs::vfs::told_laws::{mode_bits_decide, speaks};
use crate::fs::vfs::tree::Vfs;
use crate::fs::vfs::types::{CredentialIdentity, VfsMetadata};
use crate::task::Caller;

verus! {

/// A directory is made only where nothing is. In memory it is there then, shown,
/// and has the permissions that were asked for; on the volume a directory is asked
/// for under that name.
pub proof fn a_created_dir_is_found<D: RawBlockDevice>(
    was: &Vfs,
    after: &Vfs,
    dev: &D,
    caller: &Caller,
    path: Seq<char>,
    mode: u32,
    r: Result<Creation, Fault>,
)
    requires
        after.dir_created(was, dev, caller, path, mode, r),
    ensures
        was.occupied(dev, path) == Ok::<bool, Fault>(true) ==> r == Err::<Creation, Fault>(
            Fault::Sys(SysErrNo::EEXIST),
        ) && *after == *was,
        r is Ok ==> was.occupied(dev, path) == Ok::<bool, Fault>(false),
        r is Ok && r->Ok_0 is Here ==> {
            &&& !after.removed(path)
            &&& after.files.mem@.has_dir(normalized(path))
            &&& after.fat_told(dev, path) is None ==> after.has_dir(dev, path) == Ok::<bool, Fault>(
                true,
            )
            &&& after.files.vol == was.files.vol
        },
        r is Ok && r->Ok_0 is Volume ==> {
            &&& kind_of_mode(r->Ok_0->Volume_0.mode) == Ext4NodeKind::Directory
            &&& r->Ok_0->Volume_0.place.path@ == normalized(path)
            &&& was.files.vol.names.lookup_spec(path) == Ok::<Found, Load>(None)
            &&& !after.removed(path)
        },
{
    normalize_is_idempotent(path);
    if r is Ok {
        let mid = choose|mid: Vfs|
            #![trigger mid.shown_again(was, path)]
            exists|made: Vfs|
                #![trigger made.dir_made(&mid, dev, caller, path, mode, r)]
                mid.shown_again(was, path) && made.dir_made(&mid, dev, caller, path, mode, r)
                    && after.left_as(was, &made, asks(r));
        let made = choose|made: Vfs|
            #![trigger made.dir_made(&mid, dev, caller, path, mode, r)]
            mid.shown_again(was, path) && made.dir_made(&mid, dev, caller, path, mode, r)
                && after.left_as(was, &made, asks(r));
        if r->Ok_0 is Here {
            let n = normalized(path);
            let m = mid.files.mem@.with_parents(n).without_symlink(n).without_special(n);
            let there = mid.files.mem@.add_dir_with_mode(caller, path, mode);
            if m.has_dir(n) {
                assert(there.dirs == m.dirs);
            } else {
                let d = m.with_dir_entry(n);
                assert(d.dirs == m.dirs.push(n));
                assert(d.dirs[m.dirs.len() as int] == n);
                assert(there.dirs == d.dirs);
            }
        } else {
            let perm = (mode as u16) & 0o7777u16;
            assert((0x4000u16 | perm) & 0xf000u16 == 0x4000u16 && (0x4000u16 | (perm | 0o2000u16))
                & 0xf000u16 == 0x4000u16) by (bit_vector)
                requires
                    perm == (mode as u16) & 0o7777u16,
            ;
        }
    }
}

/// A link is made only where nothing is. In memory it is there then, shown, and
/// leads to its target as that was given.
pub proof fn a_created_link_is_found<D: RawBlockDevice>(
    was: &Vfs,
    after: &Vfs,
    dev: &D,
    caller: &Caller,
    target: Seq<char>,
    path: Seq<char>,
    r: Result<Creation, Fault>,
)
    requires
        after.symlink_created(was, dev, caller, target, path, r),
    ensures
        was.occupied(dev, path) == Ok::<bool, Fault>(true) ==> r == Err::<Creation, Fault>(
            Fault::Sys(SysErrNo::EEXIST),
        ) && *after == *was,
        r is Ok ==> was.occupied(dev, path) == Ok::<bool, Fault>(false),
        r is Ok && r->Ok_0 is Here ==> {
            &&& !after.removed(path)
            &&& after.files.mem@.symlinks.contains_key(normalized(path))
            &&& after.files.mem@.symlinks[normalized(path)] == target
            &&& !was.files.mem@.has_node(normalized(path))
            &&& after.files.vol == was.files.vol
        },
        r is Ok && r->Ok_0 is Volume ==> {
            &&& kind_of_mode(r->Ok_0->Volume_0.mode) == Ext4NodeKind::Symlink
            &&& r->Ok_0->Volume_0.place.path@ == normalized(path)
            &&& was.files.vol.names.lookup_spec(path) == Ok::<Found, Load>(None)
            &&& !after.removed(path)
        },
{
    normalize_is_idempotent(path);
    assert((0xa000u16 | ((0o777u32 as u16) & 0o7777u16)) & 0xf000u16 == 0xa000u16) by (bit_vector);
}

/// A special node is made only where nothing is, and in memory only; it is there
/// then, shown, of the kind that was asked for.
pub proof fn a_created_special_is_found<D: RawBlockDevice>(
    was: &Vfs,
    after: &Vfs,
    dev: &D,
    caller: &Caller,
    path: Seq<char>,
    kind: MemSpecialKind,
    mode: u32,
    r: Result<u32, Fault>,
)
    requires
        after.special_created(was, dev, caller, path, kind, mode, r),
    ensures
        was.occupied(dev, path) == Ok::<bool, Fault>(true) ==> r == Err::<u32, Fault>(
            Fault::Sys(SysErrNo::EEXIST),
        ) && *after == *was,
        r is Ok ==> {
            &&& was.occupied(dev, path) == Ok::<bool, Fault>(false)
            &&& !after.removed(path)
            &&& after.files.mem@.specials.contains_key(normalized(path))
            &&& after.files.mem@.specials[normalized(path)] == kind
            &&& !was.files.mem@.has_node(normalized(path))
            &&& after.files.vol == was.files.vol
        },
{
    normalize_is_idempotent(path);
    if r is Ok {
        let mid = choose|mid: Vfs|
            #![trigger mid.shown_again(was, path)]
            exists|made: Vfs|
                #![trigger made.special_made(&mid, dev, caller, path, kind, mode, r)]
                mid.shown_again(was, path) && made.special_made(
                    &mid,
                    dev,
                    caller,
                    path,
                    kind,
                    mode,
                    r,
                ) && after.left_as(was, &made, asks(r));
        let made = choose|made: Vfs|
            #![trigger made.special_made(&mid, dev, caller, path, kind, mode, r)]
            mid.shown_again(was, path) && made.special_made(
                &mid,
                dev,
                caller,
                path,
                kind,
                mode,
                r,
            ) && after.left_as(was, &made, asks(r));
    }
}

/// An owner that is set is recorded, in memory or in the inode to be written, each
/// part if given; contents and counts stay.
pub proof fn a_set_owner_is_told<D: RawBlockDevice>(
    was: &Vfs,
    after: &Vfs,
    dev: &D,
    caller: &Caller,
    path: Seq<char>,
    follow: bool,
    uid: Option<u32>,
    gid: Option<u32>,
    now: u32,
    r: Recording,
)
    requires
        after.owner_set(was, dev, caller, path, follow, uid, gid, now, Ok::<Recording, Fault>(r)),
    ensures
        match r {
            Recording::Done => {
                let old = was.files.mem@.meta_of(normalized(path));
                let new = after.files.mem@.meta_of(normalized(path));
                &&& was.files.mem@.has_node(normalized(path)) && old is Some ==> {
                    &&& new is Some
                    &&& uid is Some ==> new->0.uid == uid->0
                    &&& uid is None ==> new->0.uid == old->0.uid
                    &&& gid is Some ==> new->0.gid == gid->0
                    &&& gid is None ==> new->0.gid == old->0.gid
                }
                &&& after.files.vol == was.files.vol
            },
            Recording::Inode(ino, inode) => {
                let old = was.files.vol.names.inodes@[ino as u128];
                &&& *after == *was
                &&& was.files.vol.names.inodes@.contains_key(ino as u128)
                &&& uid is Some ==> inode.uid as int == uid->0
                &&& uid is None ==> inode.uid == old.uid
                &&& gid is Some ==> inode.gid as int == gid->0
                &&& gid is None ==> inode.gid == old.gid
                &&& inode.size == old.size && inode.links == old.links
                &&& inode.ctime == now
            },
        },
{
    if r is Done {
        let n = normalized(path);
        if was.files.mem@.has_node(n) && was.files.mem@.meta_of(n) is Some {
            a_set_owner_is_recorded(
                was.files.mem@,
                caller,
                path,
                uid,
                gid,
                was.files.mem@.meta_of(n)->0,
            );
        }
    }
}

/// Times that are set are recorded, in memory or in the inode to be written, each
/// if given; contents, owner and permissions stay.
pub proof fn set_times_are_told<D: RawBlockDevice>(
    was: &Vfs,
    after: &Vfs,
    dev: &D,
    caller: &Caller,
    path: Seq<char>,
    follow: bool,
    atime: Option<(isize, isize)>,
    mtime: Option<(isize, isize)>,
    now: u32,
    r: Recording,
)
    requires
        was.wf(),
        after.times_set(was, dev, caller, path, follow, atime, mtime, now, Ok::<Recording, Fault>(r)),
    ensures
        match r {
            Recording::Done => {
                let n = normalized(path);
                let old = was.files.mem@.backing_of(n);
                let new = after.files.mem@.backing_of(n);
                &&& was.files.mem@.file_index(n) is Some && !was.files.mem@.has_dir(n) ==> {
                    &&& new.content == old.content
                    &&& atime is Some ==> (new.times.atime_sec, new.times.atime_nsec) == atime->0
                    &&& atime is None ==> new.times.atime_sec == old.times.atime_sec
                    &&& mtime is Some ==> (new.times.mtime_sec, new.times.mtime_nsec) == mtime->0
                    &&& mtime is None ==> new.times.mtime_sec == old.times.mtime_sec
                }
                &&& after.files.vol == was.files.vol
            },
            Recording::Inode(ino, inode) => {
                let old = was.files.vol.names.inodes@[ino as u128];
                &&& *after == *was
                &&& was.files.vol.names.inodes@.contains_key(ino as u128)
                &&& atime is Some && 0 <= atime->Some_0.0 <= u32::MAX ==> inode.atime
                    == atime->Some_0.0
                &&& atime is None ==> inode.atime == old.atime && inode.atime_extra
                    == old.atime_extra
                &&& mtime is Some && 0 <= mtime->Some_0.0 <= u32::MAX ==> inode.mtime
                    == mtime->Some_0.0
                &&& mtime is None ==> inode.mtime == old.mtime && inode.mtime_extra
                    == old.mtime_extra
                &&& inode.ctime == now
                &&& inode.size == old.size && inode.mode == old.mode && inode.uid == old.uid
            },
        },
{
    if r is Done {
        let n = normalized(path);
        was.files.mem.files_have_contents();
        if was.files.mem@.file_index(n) is Some && !was.files.mem@.has_dir(n) {
            set_times_are_recorded(was.files.mem@, caller, path, atime, mtime);
        }
    }
}

/// A task that is not root may write to an open file, or read from it, exactly if
/// the bits of its class allow it: its owner goes by the first three, its group by
/// the next, all others by the last.
#[verifier::rlimit(60)]
pub proof fn use_of_an_open_file_needs_leave<D: RawBlockDevice>(
    v: &Vfs,
    dev: &D,
    file: &FileDescriptor,
    caller: &Caller,
    meta: VfsMetadata,
)
    requires
        v.fd_told(dev, file, caller.now) == Ok::<VfsMetadata, Fault>(meta),
        caller.cred.fsuid != 0,
    ensures
        ({
            let owner = caller.cred.fsuid == meta.uid;
            let group = meta.gid == caller.cred.fsgid || caller.cred.groups@.contains(meta.gid);
            let reads = v.fd_usable(dev, file, 4, CredentialIdentity::Filesystem, caller);
            let writes = v.fd_usable(dev, file, 2, CredentialIdentity::Filesystem, caller);
            &&& reads is Ok <==> speaks(meta.mode, owner, group, 0o400, 0o040, 0o004)
            &&& writes is Ok <==> speaks(meta.mode, owner, group, 0o200, 0o020, 0o002)
            &&& reads is Err ==> reads == Err::<(), Fault>(Fault::Sys(SysErrNo::EACCES))
            &&& writes is Err ==> writes == Err::<(), Fault>(Fault::Sys(SysErrNo::EACCES))
        }),
{
    mode_bits_decide(&meta, &caller.cred, CredentialIdentity::Filesystem);
}

} // verus!
