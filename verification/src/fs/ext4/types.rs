//! What is known of the nodes of an ext4 volume.
use vstd::prelude::*;

use crate::errno::SysErrNo;
use crate::fs::node::{chown_mode_after_owner_update, mode_after_chown};
use crate::fs::ext4::regular::CachedRegularInfo;
use crate::task::Credentials;

verus! {

/// The kinds of nodes.
#[derive(Clone, Copy, PartialEq, Eq, Structural, Debug)]
pub enum Ext4NodeKind {
    Regular,
    Directory,
    Symlink,
    Other,
}

/// What is told of a node.
#[derive(Clone, Copy, PartialEq, Eq, Structural, Debug)]
pub struct Ext4Metadata {
    pub ino: u32,
    pub mode: u32,
    pub flags: u32,
    pub nlink: u32,
    pub uid: u32,
    pub gid: u32,
    pub size: u64,
    pub blocks: u64,
    pub atime_sec: isize,
    pub atime_nsec: isize,
    pub mtime_sec: isize,
    pub mtime_nsec: isize,
    pub ctime_sec: isize,
    pub ctime_nsec: isize,
}

/// What is told of a volume.
#[derive(Clone, Copy, PartialEq, Eq, Structural, Debug)]
pub struct Ext4StatFs {
    pub block_size: usize,
    pub blocks: usize,
    pub free_blocks: usize,
    pub files: usize,
    pub free_files: usize,
    pub max_name_len: usize,
}

/// An inode as it is on disk, as far as it is read or set here.
#[derive(Clone, Copy, PartialEq, Eq, Structural, Debug)]
pub struct DiskInode {
    pub mode: u16,
    pub flags: u32,
    pub links: u16,
    pub uid: u16,
    pub gid: u16,
    pub size: u64,
    pub blocks: u64,
    pub atime: u32,
    pub atime_extra: u32,
    pub mtime: u32,
    pub mtime_extra: u32,
    pub ctime: u32,
    pub ctime_extra: u32,
    pub dtime: u32,
}

/// The kind that an inode's mode says.
pub open spec fn kind_of_mode(mode: u16) -> Ext4NodeKind {
    let t = mode & 0xf000u16;
    if t == 0x4000 {
        Ext4NodeKind::Directory
    } else if t == 0x8000 {
        Ext4NodeKind::Regular
    } else if t == 0xa000 {
        Ext4NodeKind::Symlink
    } else {
        Ext4NodeKind::Other
    }
}

/// The kind that an inode's mode says.
pub fn node_kind(mode: u16) -> (r: Ext4NodeKind)
    ensures
        r == kind_of_mode(mode),
{
    let t: u16 = mode & 0xf000u16;
    if t == 0x4000 {
        Ext4NodeKind::Directory
    } else if t == 0x8000 {
        Ext4NodeKind::Regular
    } else if t == 0xa000 {
        Ext4NodeKind::Symlink
    } else {
        Ext4NodeKind::Other
    }
}

/// The error that a failure of the disk format layer is told as, by its code.
pub open spec fn ext4_error(code: i32) -> SysErrNo {
    if code == 2 {
        SysErrNo::ENOENT
    } else if code == 17 {
        SysErrNo::EEXIST
    } else if code == 20 {
        SysErrNo::ENOTDIR
    } else if code == 21 {
        SysErrNo::EISDIR
    } else if code == 22 {
        SysErrNo::EINVAL
    } else if code == 28 {
        SysErrNo::ENOSPC
    } else if code == 30 {
        SysErrNo::EROFS
    } else if code == 9 {
        SysErrNo::EBADF
    } else if code == 1 {
        SysErrNo::EPERM
    } else if code == 13 {
        SysErrNo::EACCES
    } else if code == 27 {
        SysErrNo::EFBIG
    } else if code == 31 {
        SysErrNo::EMLINK
    } else {
        SysErrNo::EIO
    }
}

/// The error that a failure of the disk format layer is told as, by its code.
pub fn map_ext4_err(code: i32) -> (r: SysErrNo)
    ensures
        r == ext4_error(code),
{
    match code {
        2 => SysErrNo::ENOENT,
        17 => SysErrNo::EEXIST,
        20 => SysErrNo::ENOTDIR,
        21 => SysErrNo::EISDIR,
        22 => SysErrNo::EINVAL,
        28 => SysErrNo::ENOSPC,
        30 => SysErrNo::EROFS,
        9 => SysErrNo::EBADF,
        1 => SysErrNo::EPERM,
        13 => SysErrNo::EACCES,
        27 => SysErrNo::EFBIG,
        31 => SysErrNo::EMLINK,
        _ => SysErrNo::EIO,
    }
}

/// The nanoseconds in the extra part of an inode's time.
pub fn ext4_extra_nsec(extra: u32) -> (r: isize)
    ensures
        r == extra as int / 4,
{
    (extra / 4) as isize
}

/// The extra part of an inode's time for some nanoseconds.
pub open spec fn nsec_extra(nsec: isize) -> u32 {
    let n = (if nsec < 0 {
        0isize
    } else {
        nsec
    }) as u32;
    if n > 999_999_999 {
        3_999_999_996
    } else {
        (n * 4) as u32
    }
}

/// The extra part of an inode's time for some nanoseconds, none below zero and
/// less than a second.
pub fn ext4_nsec_extra(nsec: isize) -> (r: u32)
    ensures
        r == nsec_extra(nsec),
{
    let n: u32 = (if nsec < 0 {
        0isize
    } else {
        nsec
    }) as u32;
    if n > 999_999_999 {
        3_999_999_996
    } else {
        n * 4
    }
}

/// Nanoseconds of less than a second survive being stored.
pub proof fn stored_nsec_is_read_back(nsec: isize)
    requires
        0 <= nsec <= 999_999_999,
    ensures
        nsec_extra(nsec) as int / 4 == nsec,
{
}

/// How many sectors a file of a length takes.
pub fn regular_blocks(size: u64) -> (r: u64)
    ensures
        r == (size + 511) / 512,
{
    if size % 512 == 0 {
        size / 512
    } else {
        size / 512 + 1
    }
}

/// A clock's seconds as an inode holds them.
pub fn current_ext4_time(sec: usize) -> (r: u32)
    ensures
        r == (if sec > u32::MAX {
            u32::MAX as int
        } else {
            sec as int
        }),
{
    if sec > 0xffff_ffff {
        0xffff_ffff
    } else {
        sec as u32
    }
}

/// Seconds, none below zero, as an inode holds them.
pub open spec fn inode_seconds(sec: isize) -> u32 {
    if sec < 0 {
        0
    } else if sec > u32::MAX {
        u32::MAX
    } else {
        sec as u32
    }
}

fn clamp_seconds(sec: isize) -> (r: u32)
    ensures
        r == inode_seconds(sec),
{
    if sec < 0 {
        0
    } else if sec as usize > 0xffff_ffff {
        0xffff_ffff
    } else {
        sec as u32
    }
}

/// What is told of an inode.
pub open spec fn told_of(ino: u32, inode: DiskInode) -> Ext4Metadata {
    Ext4Metadata {
        ino,
        mode: inode.mode as u32,
        flags: inode.flags,
        nlink: inode.links as u32,
        uid: inode.uid as u32,
        gid: inode.gid as u32,
        size: inode.size,
        blocks: inode.blocks,
        atime_sec: inode.atime as isize,
        atime_nsec: (inode.atime_extra as int / 4) as isize,
        mtime_sec: inode.mtime as isize,
        mtime_nsec: (inode.mtime_extra as int / 4) as isize,
        ctime_sec: inode.ctime as isize,
        ctime_nsec: (inode.ctime_extra as int / 4) as isize,
    }
}

/// What is told of an inode.
pub fn inode_metadata(ino: u32, inode: &DiskInode) -> (r: Ext4Metadata)
    ensures
        r == told_of(ino, *inode),
{
    Ext4Metadata {
        ino,
        mode: inode.mode as u32,
        flags: inode.flags,
        nlink: inode.links as u32,
        uid: inode.uid as u32,
        gid: inode.gid as u32,
        size: inode.size,
        blocks: inode.blocks,
        atime_sec: inode.atime as isize,
        atime_nsec: ext4_extra_nsec(inode.atime_extra),
        mtime_sec: inode.mtime as isize,
        mtime_nsec: ext4_extra_nsec(inode.mtime_extra),
        ctime_sec: inode.ctime as isize,
        ctime_nsec: ext4_extra_nsec(inode.ctime_extra),
    }
}

/// Times of an inode that are not on disk yet: modification and change, each
/// with its extra part.
#[derive(Clone, Copy, PartialEq, Eq, Structural, Debug)]
pub struct DataTimes {
    pub mtime: u32,
    pub mtime_extra: u32,
    pub ctime: u32,
    pub ctime_extra: u32,
}

/// What is told of an inode once what is newer in memory is laid over it.
pub open spec fn overlaid(
    meta: Ext4Metadata,
    cached: Option<CachedRegularInfo>,
    times: Option<DataTimes>,
) -> Ext4Metadata {
    let m = match cached {
        Some(info) => Ext4Metadata {
            size: info.size as u64,
            mtime_sec: info.mtime_sec as isize,
            mtime_nsec: (info.mtime_extra as int / 4) as isize,
            ctime_sec: info.ctime_sec as isize,
            ctime_nsec: (info.ctime_extra as int / 4) as isize,
            ..meta
        },
        None => match times {
            Some(t) => Ext4Metadata {
                mtime_sec: t.mtime as isize,
                mtime_nsec: (t.mtime_extra as int / 4) as isize,
                ctime_sec: t.ctime as isize,
                ctime_nsec: (t.ctime_extra as int / 4) as isize,
                ..meta
            },
            None => meta,
        },
    };
    let least = (m.size + 511) / 512;
    Ext4Metadata {
        blocks: if m.blocks < least {
            least as u64
        } else {
            m.blocks
        },
        ..m
    }
}

/// Lays what is newer in memory over what is told of an inode.
pub fn overlay_dynamic_metadata(
    meta: Ext4Metadata,
    cached: Option<CachedRegularInfo>,
    times: Option<DataTimes>,
) -> (r: Ext4Metadata)
    ensures
        r == overlaid(meta, cached, times),
{
    let mut m = meta;
    match cached {
        Some(info) => {
            m.size = info.size as u64;
            m.mtime_sec = info.mtime_sec as isize;
            m.mtime_nsec = ext4_extra_nsec(info.mtime_extra);
            m.ctime_sec = info.ctime_sec as isize;
            m.ctime_nsec = ext4_extra_nsec(info.ctime_extra);
        },
        None => match times {
            Some(t) => {
                m.mtime_sec = t.mtime as isize;
                m.mtime_nsec = ext4_extra_nsec(t.mtime_extra);
                m.ctime_sec = t.ctime as isize;
                m.ctime_nsec = ext4_extra_nsec(t.ctime_extra);
            },
            None => {},
        },
    }
    let least: u64 = regular_blocks(m.size);
    if m.blocks < least {
        m.blocks = least;
    }
    m
}

/// An identity number as far as an inode holds it.
pub open spec fn inode_id(id: u32) -> u16 {
    if id > u16::MAX {
        u16::MAX
    } else {
        id as u16
    }
}

/// The owner of what a task creates.
pub fn current_fs_ids(cred: &Credentials) -> (r: (u16, u16))
    ensures
        r == (inode_id(cred.fsuid), inode_id(cred.fsgid)),
{
    let uid: u16 = if cred.fsuid > 0xffff {
        0xffff
    } else {
        cred.fsuid as u16
    };
    let gid: u16 = if cred.fsgid > 0xffff {
        0xffff
    } else {
        cred.fsgid as u16
    };
    (uid, gid)
}

/// Owner, group and permissions of what a task creates in a directory.
pub open spec fn child_ids(cred: &Credentials, parent: DiskInode, mode: u32, is_dir: bool) -> (
    u16,
    u16,
    u16,
) {
    let setgid = (parent.mode & 0o2000u16) != 0;
    let asked = (mode as u16) & 0o7777u16;
    (
        inode_id(cred.fsuid),
        if setgid {
            parent.gid
        } else {
            inode_id(cred.fsgid)
        },
        if is_dir && setgid {
            asked | 0o2000u16
        } else {
            asked
        },
    )
}

/// Owner, group and permissions of what a task creates in a directory; one with
/// the set-group bit hands on its group, and to directories the bit itself.
pub fn new_child_ids_and_mode(
    cred: &Credentials,
    parent: &DiskInode,
    mode: u32,
    is_dir: bool,
) -> (r: (u16, u16, u16))
    ensures
        r == child_ids(cred, *parent, mode, is_dir),
{
    let (uid, fsgid) = current_fs_ids(cred);
    let setgid = (parent.mode & 0o2000u16) != 0;
    let mut perm: u16 = (mode as u16) & 0o7777u16;
    if is_dir && setgid {
        perm = perm | 0o2000u16;
    }
    let gid: u16 = if setgid {
        parent.gid
    } else {
        fsgid
    };
    (uid, gid, perm)
}

impl DiskInode {
    /// The inode with a change recorded.
    pub open spec fn changed(self, now: u32) -> DiskInode {
        DiskInode { ctime: now, ctime_extra: 0, ..self }
    }

    /// Records accesses and changes.
    pub fn touch_inode(&mut self, now: u32, atime: bool, mtime: bool, ctime: bool)
        ensures
            *final(self) == (DiskInode {
                atime: if atime { now } else { old(self).atime },
                atime_extra: if atime { 0 } else { old(self).atime_extra },
                mtime: if mtime { now } else { old(self).mtime },
                mtime_extra: if mtime { 0 } else { old(self).mtime_extra },
                ctime: if ctime { now } else { old(self).ctime },
                ctime_extra: if ctime { 0 } else { old(self).ctime_extra },
                ..*old(self)
            }),
    {
        if atime {
            self.atime = now;
            self.atime_extra = 0;
        }
        if mtime {
            self.mtime = now;
            self.mtime_extra = 0;
        }
        if ctime {
            self.ctime = now;
            self.ctime_extra = 0;
        }
    }

    /// Sets the flags.
    pub fn set_file_flags_ino(&mut self, flags: u32, now: u32)
        ensures
            *final(self) == (DiskInode { flags, ..old(self).changed(now) }),
    {
        self.flags = flags;
        self.ctime = now;
        self.ctime_extra = 0;
    }

    /// The inode with other permissions.
    pub open spec fn with_mode(self, mode: u32, now: u32) -> DiskInode {
        DiskInode {
            mode: (self.mode & 0o170000u16) | ((mode as u16) & 0o7777u16),
            ..self.changed(now)
        }
    }

    /// The inode with another owner; both parts must fit an inode.
    pub open spec fn with_owner(self, uid: Option<u32>, gid: Option<u32>, now: u32) -> Result<
        DiskInode,
        SysErrNo,
    > {
        if (uid is Some && uid->0 > u16::MAX) || (gid is Some && gid->0 > u16::MAX) {
            Err(SysErrNo::EINVAL)
        } else {
            Ok(
                DiskInode {
                    uid: if uid is Some { uid->0 as u16 } else { self.uid },
                    gid: if gid is Some { gid->0 as u16 } else { self.gid },
                    mode: mode_after_chown(
                        self.mode as u32,
                        kind_of_mode(self.mode) == Ext4NodeKind::Regular,
                        uid is Some || gid is Some,
                    ) as u16,
                    ..self.changed(now)
                },
            )
        }
    }

    /// The inode with other times of access and modification, each if given.
    pub open spec fn with_times(
        self,
        atime: Option<(isize, isize)>,
        mtime: Option<(isize, isize)>,
        now: u32,
    ) -> DiskInode {
        let (a, ax) = match atime {
            Some((sec, nsec)) => (inode_seconds(sec), nsec_extra(nsec)),
            None => (self.atime, self.atime_extra),
        };
        let (m, mx) = match mtime {
            Some((sec, nsec)) => (inode_seconds(sec), nsec_extra(nsec)),
            None => (self.mtime, self.mtime_extra),
        };
        DiskInode {
            atime: a,
            atime_extra: ax,
            mtime: m,
            mtime_extra: mx,
            ..self.changed(now)
        }
    }

    /// Sets the permissions.
    pub fn set_mode_ino(&mut self, mode: u32, now: u32)
        ensures
            *final(self) == old(self).with_mode(mode, now),
    {
        let file_type: u16 = self.mode & 0o170000u16;
        let perm: u16 = (mode as u16) & 0o7777u16;
        self.mode = file_type | perm;
        self.ctime = now;
        self.ctime_extra = 0;
    }

    /// Sets the owner, each part if given; both must fit an inode.
    pub fn set_owner_ino(&mut self, uid: Option<u32>, gid: Option<u32>, now: u32) -> (r: Result<
        (),
        SysErrNo,
    >)
        ensures
            match old(self).with_owner(uid, gid, now) {
                Ok(inode) => r is Ok && *final(self) == inode,
                Err(e) => r == Err::<(), SysErrNo>(e) && *final(self) == *old(self),
            },
    {
        let new_uid: u16 = match uid {
            Some(uid) => {
                if uid > 0xffff {
                    return Err(SysErrNo::EINVAL);
                }
                uid as u16
            },
            None => self.uid,
        };
        let new_gid: u16 = match gid {
            Some(gid) => {
                if gid > 0xffff {
                    return Err(SysErrNo::EINVAL);
                }
                gid as u16
            },
            None => self.gid,
        };
        let is_regular = node_kind(self.mode) == Ext4NodeKind::Regular;
        let mode: u32 = chown_mode_after_owner_update(
            self.mode as u32,
            is_regular,
            uid.is_some() || gid.is_some(),
        );
        self.uid = new_uid;
        self.gid = new_gid;
        self.mode = mode as u16;
        self.ctime = now;
        self.ctime_extra = 0;
        Ok(())
    }

    /// Sets access and modification time, each if given.
    pub fn set_times_ino(
        &mut self,
        atime: Option<(isize, isize)>,
        mtime: Option<(isize, isize)>,
        now: u32,
    )
        ensures
            *final(self) == old(self).with_times(atime, mtime, now),
    {
        match atime {
            Some((sec, nsec)) => {
                self.atime = clamp_seconds(sec);
                self.atime_extra = ext4_nsec_extra(nsec);
            },
            None => {},
        }
        match mtime {
            Some((sec, nsec)) => {
                self.mtime = clamp_seconds(sec);
                self.mtime_extra = ext4_nsec_extra(nsec);
            },
            None => {},
        }
        self.ctime = now;
        self.ctime_extra = 0;
    }
}

} // verus!
