//! What is recorded of an in-memory node besides its contents.
use vstd::prelude::*;

use crate::task::{Credentials, Timestamp};

verus! {

/// Mode, owner, inode number and flags of an in-memory node.
#[derive(Clone, Copy, PartialEq, Eq, Structural, Debug)]
pub struct MemNodeMetadata {
    pub mode: u32,
    pub uid: u32,
    pub gid: u32,
    pub ino: u64,
    pub flags: u32,
}

/// What a special node stands for.
#[derive(Clone, Copy, PartialEq, Eq, Structural, Debug)]
pub enum MemSpecialKind {
    Fifo,
    Socket,
    CharDevice { major: u32, minor: u32 },
    BlockDevice { major: u32, minor: u32 },
}

/// The three times of a file.
#[derive(Clone, Copy, PartialEq, Eq, Structural, Debug)]
pub struct FileTimes {
    pub atime_sec: isize,
    pub atime_nsec: isize,
    pub mtime_sec: isize,
    pub mtime_nsec: isize,
    pub ctime_sec: isize,
    pub ctime_nsec: isize,
}

impl MemNodeMetadata {
    /// A node of the superuser.
    pub open spec fn plain(mode: u32) -> MemNodeMetadata {
        MemNodeMetadata { mode: mode & 0o7777, uid: 0, gid: 0, ino: 0, flags: 0 }
    }

    /// A node of a task.
    pub open spec fn owned(cred: &Credentials, mode: u32) -> MemNodeMetadata {
        MemNodeMetadata {
            mode: mode & 0o7777,
            uid: cred.fsuid,
            gid: cred.fsgid,
            ino: 0,
            flags: 0,
        }
    }

    /// Whether a directory hands its group on.
    pub open spec fn hands_group_on(parent: Option<MemNodeMetadata>) -> bool {
        parent is Some && (parent->0.mode & 0o2000) != 0
    }

    /// A node of a task inside a directory.
    pub open spec fn child(
        cred: &Credentials,
        parent: Option<MemNodeMetadata>,
        mode: u32,
        is_dir: bool,
    ) -> MemNodeMetadata {
        let setgid = MemNodeMetadata::hands_group_on(parent);
        let asked = mode & 0o7777;
        let inherited = if is_dir && setgid {
            asked | 0o2000
        } else {
            asked
        };
        let stripped = if !is_dir && setgid && (inherited & 0o2000) != 0 && !cred.root_capable
            && !cred.in_filesystem_group(parent->0.gid) {
            inherited & !0o2000u32
        } else {
            inherited
        };
        MemNodeMetadata {
            mode: stripped,
            uid: cred.fsuid,
            gid: if setgid {
                parent->0.gid
            } else {
                cred.fsgid
            },
            ino: 0,
            flags: 0,
        }
    }

    /// A node of the superuser without an inode number.
    pub fn new(mode: u32) -> (r: Self)
        ensures
            r == MemNodeMetadata::plain(mode),
    {
        MemNodeMetadata { mode: mode & 0o7777, uid: 0, gid: 0, ino: 0, flags: 0 }
    }

    /// A node of the superuser with an inode number.
    pub fn new_with_ino(mode: u32, ino: u64) -> (r: Self)
        ensures
            r == (MemNodeMetadata { ino, ..MemNodeMetadata::plain(mode) }),
    {
        MemNodeMetadata { mode: mode & 0o7777, uid: 0, gid: 0, ino, flags: 0 }
    }

    /// A node of a task.
    pub fn new_for_current(cred: &Credentials, mode: u32) -> (r: Self)
        ensures
            r == MemNodeMetadata::owned(cred, mode),
    {
        MemNodeMetadata {
            mode: mode & 0o7777,
            uid: cred.fsuid,
            gid: cred.fsgid,
            ino: 0,
            flags: 0,
        }
    }

    /// A node of a task inside a directory. A directory with the set-group bit
    /// hands on its group, and to directories the bit itself; a file keeps an
    /// asked-for bit there only if the task may use that group.
    pub fn new_child_for_current(
        cred: &Credentials,
        parent: Option<MemNodeMetadata>,
        mode: u32,
        is_dir: bool,
    ) -> (r: Self)
        ensures
            r == MemNodeMetadata::child(cred, parent, mode, is_dir),
    {
        let mut child_mode: u32 = mode & 0o7777;
        let mut gid: u32 = cred.fsgid;
        match parent {
            Some(meta) => {
                if (meta.mode & 0o2000) != 0 {
                    gid = meta.gid;
                    if is_dir {
                        child_mode = child_mode | 0o2000;
                    } else if (child_mode & 0o2000) != 0 && !cred.is_root_capable()
                        && !cred.is_in_filesystem_group(meta.gid) {
                        child_mode = child_mode & !0o2000u32;
                    }
                }
            },
            None => {},
        }
        MemNodeMetadata { mode: child_mode, uid: cred.fsuid, gid, ino: 0, flags: 0 }
    }
}

/// The mode of a node once its owner has been set.
pub open spec fn mode_after_chown(mode: u32, is_regular: bool, requested: bool) -> u32 {
    if !is_regular || !requested {
        mode
    } else if (mode & 0o0010) != 0 {
        (mode & !0o4000u32) & !0o2000u32
    } else {
        mode & !0o4000u32
    }
}

/// The mode of a node once its owner has been set: a regular file loses the
/// set-user bit, and the set-group bit where its group may execute it.
pub fn chown_mode_after_owner_update(
    mode: u32,
    is_regular: bool,
    owner_update_requested: bool,
) -> (r: u32)
    ensures
        r == mode_after_chown(mode, is_regular, owner_update_requested),
{
    if !is_regular || !owner_update_requested {
        return mode;
    }
    let mut next: u32 = mode & !0o4000u32;
    if (mode & 0o0010) != 0 {
        next = next & !0o2000u32;
    }
    next
}

/// Setting the owner of a regular file never leaves the set-user bit, nor any
/// bit that was not there before.
pub proof fn chown_only_clears_bits(mode: u32, is_regular: bool, requested: bool)
    ensures
        mode_after_chown(mode, is_regular, requested) & !mode == 0,
        is_regular && requested ==> mode_after_chown(mode, is_regular, requested) & 0o4000 == 0,
        mode_after_chown(mode, is_regular, requested) & 0o777 == mode & 0o777,
{
    assert(mode & !mode == 0) by (bit_vector);
    assert((mode & !0o4000u32) & !mode == 0) by (bit_vector);
    assert(((mode & !0o4000u32) & !0o2000u32) & !mode == 0) by (bit_vector);
    assert((mode & !0o4000u32) & 0o4000 == 0) by (bit_vector);
    assert(((mode & !0o4000u32) & !0o2000u32) & 0o4000 == 0) by (bit_vector);
    assert((mode & !0o4000u32) & 0o777 == mode & 0o777) by (bit_vector);
    assert(((mode & !0o4000u32) & !0o2000u32) & 0o777 == mode & 0o777) by (bit_vector);
}

impl FileTimes {
    /// All three times set to a moment.
    pub open spec fn at(now: Timestamp) -> FileTimes {
        FileTimes {
            atime_sec: now.sec,
            atime_nsec: now.nsec,
            mtime_sec: now.sec,
            mtime_nsec: now.nsec,
            ctime_sec: now.sec,
            ctime_nsec: now.nsec,
        }
    }

    /// The times after a change of the contents.
    pub open spec fn modified(self, now: Timestamp) -> FileTimes {
        FileTimes {
            mtime_sec: now.sec,
            mtime_nsec: now.nsec,
            ctime_sec: now.sec,
            ctime_nsec: now.nsec,
            ..self
        }
    }

    /// The times after a change of what is recorded of the file.
    pub open spec fn changed(self, now: Timestamp) -> FileTimes {
        FileTimes { ctime_sec: now.sec, ctime_nsec: now.nsec, ..self }
    }

    /// The times after they have been set by hand.
    pub open spec fn with_access_modify(
        self,
        atime: Option<(isize, isize)>,
        mtime: Option<(isize, isize)>,
        now: Timestamp,
    ) -> FileTimes {
        let (atime_sec, atime_nsec) = match atime {
            Some(t) => t,
            None => (self.atime_sec, self.atime_nsec),
        };
        let (mtime_sec, mtime_nsec) = match mtime {
            Some(t) => t,
            None => (self.mtime_sec, self.mtime_nsec),
        };
        FileTimes {
            atime_sec,
            atime_nsec,
            mtime_sec,
            mtime_nsec,
            ctime_sec: now.sec,
            ctime_nsec: now.nsec,
        }
    }

    /// All three times set to the current moment.
    pub fn now(now: Timestamp) -> (r: Self)
        ensures
            r == FileTimes::at(now),
    {
        FileTimes {
            atime_sec: now.sec,
            atime_nsec: now.nsec,
            mtime_sec: now.sec,
            mtime_nsec: now.nsec,
            ctime_sec: now.sec,
            ctime_nsec: now.nsec,
        }
    }

    /// Records a change of the contents.
    pub fn touch_modified(&mut self, now: Timestamp)
        ensures
            *final(self) == old(self).modified(now),
    {
        self.mtime_sec = now.sec;
        self.mtime_nsec = now.nsec;
        self.ctime_sec = now.sec;
        self.ctime_nsec = now.nsec;
    }

    /// Records a change of what is known of the file.
    pub fn touch_changed(&mut self, now: Timestamp)
        ensures
            *final(self) == old(self).changed(now),
    {
        self.ctime_sec = now.sec;
        self.ctime_nsec = now.nsec;
    }

    /// Sets access and modification time, each if given.
    pub fn set_access_modify(
        &mut self,
        atime: Option<(isize, isize)>,
        mtime: Option<(isize, isize)>,
        now: Timestamp,
    )
        ensures
            *final(self) == old(self).with_access_modify(atime, mtime, now),
    {
        match atime {
            Some((sec, nsec)) => {
                self.atime_sec = sec;
                self.atime_nsec = nsec;
            },
            None => {},
        }
        match mtime {
            Some((sec, nsec)) => {
                self.mtime_sec = sec;
                self.mtime_nsec = nsec;
            },
            None => {},
        }
        self.ctime_sec = now.sec;
        self.ctime_nsec = now.nsec;
    }
}

} // verus!
