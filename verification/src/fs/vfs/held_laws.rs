//! What is set on open files goes to what they stand for.
use vstd::prelude::*;

use crate::errno::SysErrNo;
use crate::fs::block_dev::device::RawBlockDevice;
use crate::fs::ext4::volume::Fault;
use crate::fs::fd::descriptor::FileDescriptor;
use crate::fs::memfs::laws::created_file_is_found;
use crate::fs::memfs::node_laws::a_set_owner_is_recorded;
use crate::fs::path::{normalize_is_idempotent, normalized};
use crate::fs::vfs::attributes::Recording;
use crate::fs::vfs::contents::FileSource;
use crate::fs::vfs::opening::Wishes;
use crate::fs::vfs::tree::Vfs;
use crate::task::Caller;

verus! {

/// Permissions that are set on an open file are set on its name in memory or on
/// its inode, and on no other; what is neither has none.
pub proof fn permissions_go_to_the_open_file(
    was: &Vfs,
    after: &Vfs,
    caller: &Caller,
    file: &FileDescriptor,
    mode: u32,
    now: u32,
    r: Result<Recording, Fault>,
)
    requires
        after.fd_mode_set(was, caller, file, mode, now, r),
    ensures
        r is Ok ==> match *file {
            FileDescriptor::MemFile(h) => {
                let m = after.files.mem@.meta_of(normalized(h.name@));
                r->Ok_0 is Done && m is Some && m->0.mode == mode & 0o7777
            },
            FileDescriptor::MemDir { path, .. } => {
                let m = after.files.mem@.meta_of(normalized(path@));
                r->Ok_0 is Done && m is Some && m->0.mode == mode & 0o7777
            },
            FileDescriptor::Ext4Regular { ino, .. } => r->Ok_0 is Inode && r->Ok_0->Inode_0 == ino
                && r->Ok_0->Inode_1.mode & 0o7777 == (mode as u16) & 0o7777
                && r->Ok_0->Inode_1.mode & 0o170000
                == was.files.vol.names.inodes@[ino as u128].mode & 0o170000
                && r->Ok_0->Inode_1.size == was.files.vol.names.inodes@[ino as u128].size
                && r->Ok_0->Inode_1.ctime == now && *after == *was,
            FileDescriptor::Ext4Dir { ino, .. } => r->Ok_0 is Inode && r->Ok_0->Inode_0 == ino
                && r->Ok_0->Inode_1.mode & 0o7777 == (mode as u16) & 0o7777
                && r->Ok_0->Inode_1.links == was.files.vol.names.inodes@[ino as u128].links
                && *after == *was,
            _ => false,
        },
        !(*file is MemFile || *file is MemDir || *file is Ext4Regular || *file is Ext4Dir) ==> r
            == Err::<Recording, Fault>(Fault::Sys(SysErrNo::EINVAL)),
{
    let (ino, is_inode) = match *file {
        FileDescriptor::Ext4Regular { ino, .. } => (ino, true),
        FileDescriptor::Ext4Dir { ino, .. } => (ino, true),
        _ => (0u32, false),
    };
    match *file {
        FileDescriptor::MemFile(h) => normalize_is_idempotent(h.name@),
        FileDescriptor::MemDir { path, .. } => normalize_is_idempotent(path@),
        _ => {},
    }
    if is_inode {
        let a = was.files.vol.names.inodes@[ino as u128].mode;
        let b = mode as u16;
        assert(((a & 0o170000u16) | (b & 0o7777u16)) & 0o7777u16 == b & 0o7777u16 && ((a
            & 0o170000u16) | (b & 0o7777u16)) & 0o170000u16 == a & 0o170000u16) by (bit_vector);
    }
}

/// An owner that is set on an open file is set on its name in memory or on its
/// inode, each part if given.
pub proof fn the_owner_goes_to_the_open_file(
    was: &Vfs,
    after: &Vfs,
    caller: &Caller,
    file: &FileDescriptor,
    uid: Option<u32>,
    gid: Option<u32>,
    now: u32,
    r: Result<Recording, Fault>,
)
    requires
        after.fd_owner_set(was, caller, file, uid, gid, now, r),
    ensures
        r is Ok ==> match *file {
            FileDescriptor::MemFile(h) => {
                let n = normalized(h.name@);
                let old = was.files.mem@.meta_of(n);
                let new = after.files.mem@.meta_of(n);
                was.files.mem@.has_node(n) && old is Some ==> new is Some && (uid is Some
                    ==> new->0.uid == uid->0) && (uid is None ==> new->0.uid == old->0.uid) && (gid
                    is Some ==> new->0.gid == gid->0) && (gid is None ==> new->0.gid
                    == old->0.gid)
            },
            FileDescriptor::Ext4Regular { ino, .. } => {
                let old = was.files.vol.names.inodes@[ino as u128];
                &&& r->Ok_0 is Inode && r->Ok_0->Inode_0 == ino
                &&& uid is Some ==> r->Ok_0->Inode_1.uid as int == uid->0
                &&& uid is None ==> r->Ok_0->Inode_1.uid == old.uid
                &&& gid is Some ==> r->Ok_0->Inode_1.gid as int == gid->0
                &&& gid is None ==> r->Ok_0->Inode_1.gid == old.gid
                &&& r->Ok_0->Inode_1.size == old.size && *after == *was
            },
            FileDescriptor::MemDir { .. } => r->Ok_0 is Done,
            FileDescriptor::Ext4Dir { ino, .. } => r->Ok_0 is Inode && r->Ok_0->Inode_0 == ino,
            _ => false,
        },
{
    if let FileDescriptor::MemFile(h) = *file {
        let n = normalized(h.name@);
        if was.files.mem@.has_node(n) && was.files.mem@.meta_of(n) is Some {
            a_set_owner_is_recorded(
                was.files.mem@,
                caller,
                h.name@,
                uid,
                gid,
                was.files.mem@.meta_of(n)->0,
            );
        }
    }
}

/// Times that are set on an open file are kept by the file itself in memory, and
/// in its inode on the volume, each if given.
pub proof fn times_go_to_the_open_file(
    was: &Vfs,
    after: &Vfs,
    caller: &Caller,
    file: &FileDescriptor,
    file_was: &FileDescriptor,
    atime: Option<(isize, isize)>,
    mtime: Option<(isize, isize)>,
    now: u32,
    r: Result<Recording, Fault>,
)
    requires
        after.fd_times_set(was, caller, file, file_was, atime, mtime, now, r),
    ensures
        r is Ok ==> match (*file_was, *file) {
            (FileDescriptor::MemFile(h), FileDescriptor::MemFile(g)) => {
                &&& atime is Some ==> (g.times.atime_sec, g.times.atime_nsec) == atime->0
                &&& atime is None ==> g.times.atime_sec == h.times.atime_sec
                &&& mtime is Some ==> (g.times.mtime_sec, g.times.mtime_nsec) == mtime->0
                &&& mtime is None ==> g.times.mtime_sec == h.times.mtime_sec
                &&& g.content == h.content && g.name == h.name && g.offset == h.offset
            },
            (FileDescriptor::Ext4Regular { ino, .. }, _) => {
                let old = was.files.vol.names.inodes@[ino as u128];
                &&& *file == *file_was
                &&& r->Ok_0 is Inode && r->Ok_0->Inode_0 == ino
                &&& atime is Some && 0 <= atime->Some_0.0 <= u32::MAX ==> r->Ok_0->Inode_1.atime
                    == atime->Some_0.0
                &&& atime is None ==> r->Ok_0->Inode_1.atime == old.atime
                &&& mtime is Some && 0 <= mtime->Some_0.0 <= u32::MAX ==> r->Ok_0->Inode_1.mtime
                    == mtime->Some_0.0
                &&& mtime is None ==> r->Ok_0->Inode_1.mtime == old.mtime
                &&& r->Ok_0->Inode_1.ctime == now
            },
            (FileDescriptor::MemFile(_), _) => false,
            _ => *file == *file_was,
        },
{
}

/// After all was brought to disk no clean page is kept, changes that wait are kept,
/// and a failure is told.
pub proof fn a_sync_tells_its_failure(
    was: &Vfs,
    after: &Vfs,
    failed: Option<SysErrNo>,
    r: Result<(), SysErrNo>,
    key: u128,
)
    requires
        after.all_synced(was, failed, r),
    ensures
        failed is Some ==> r == Err::<(), SysErrNo>(failed->0),
        failed is None ==> r is Ok,
        !after.files.vol.files().pages.entries.contains_key(key),
        !after.files.vol.files().runs.entries.contains_key(key),
        after.files.vol.files().regular == was.files.vol.files().regular,
        after.files.mem == was.files.mem,
{
}

/// A file in memory that a path ends at is read as it is; of what was taken away
/// nothing is.
pub proof fn files_in_memory_are_read<D: RawBlockDevice>(
    was: &Vfs,
    after: &Vfs,
    dev: &D,
    name: Seq<char>,
    end: Seq<char>,
    r: Result<Option<FileSource>, Fault>,
)
    requires
        after.file_read(was, dev, name, r),
        was.ending(name, false) == Ok::<Seq<char>, Fault>(end),
    ensures
        was.whiteouts@.contains_key(normalized(name)) || was.whiteouts@.contains_key(
            normalized(end),
        ) ==> r == Ok::<Option<FileSource>, Fault>(None),
        !was.whiteouts@.contains_key(normalized(name)) && !was.whiteouts@.contains_key(
            normalized(end),
        ) && was.fat_at(end) is None && was.files.mem@.file_index(normalized(end)) is Some ==> {
            let m = was.files.mem@;
            let held = m.backings[m.files[m.file_index(normalized(end))->0].backing as int].content;
            (r matches Ok(Some(FileSource::Bytes(data))) && data@ == held)
        },
        after.files.mem == was.files.mem,
{
}

/// The flags of an open file are read bit by bit: the two lowest say whether it is
/// read and written, and each of the others has a bit of its own.
pub proof fn flags_are_read_bit_by_bit(flags: u32)
    ensures
        ({
            let w = Wishes::of(flags);
            &&& w.read <==> flags & 3 == 0 || flags & 3 == 2
            &&& w.write <==> flags & 3 == 1 || flags & 3 == 2
            &&& w.create <==> flags & 0o100 != 0
            &&& w.excl <==> flags & 0o200 != 0
            &&& w.trunc <==> flags & 0o1000 != 0
            &&& w.append <==> flags & 0o2000 != 0
            &&& w.dir <==> flags & 0o200000 != 0
            &&& w.nofollow <==> flags & 0o400000 != 0
            &&& w.noatime <==> flags & 0o1000000 != 0
            &&& w.path_only <==> flags & 0o10000000 != 0
            &&& w.needs() == (if w.read && w.write {
                6
            } else if w.read {
                4
            } else if w.write {
                2
            } else {
                0usize
            })
        }),
{
    assert(4usize | 2usize == 6usize) by (bit_vector);
}

/// A file that was made in memory by opening it is there under that name, shown,
/// empty and of the task that made it, and the open file stands at its start.
pub proof fn a_file_made_by_opening_is_empty(
    was: &Vfs,
    after: &Vfs,
    end: Seq<char>,
    w: Wishes,
    mode: u32,
    caller: &Caller,
    file: FileDescriptor,
)
    requires
        after.mem_created(was, end, w, mode, caller, file),
    ensures
        !after.removed(end),
        after.files.mem@.file_index(normalized(end)) is Some,
        after.files.mem@.backing_of(normalized(end)).content == Seq::<u8>::empty(),
        after.files.mem@.meta_of(normalized(end)) is Some,
        after.files.mem@.meta_of(normalized(end))->0.uid == caller.cred.fsuid,
        file is MemFile,
        file.position() == Some(0usize),
        file.can_read() == w.read && file.can_write() == w.write,
        after.files.vol == was.files.vol,
{
    normalize_is_idempotent(end);
    created_file_is_found(was.files.mem@, caller, end, Seq::empty(), mode);
}

} // verus!
